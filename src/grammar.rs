//! The text of a semantic version and the precedence of pre-release texts,
//! as SemVer 2.0 states them.
use crate::text::{
    all_digits, decimal, is_digit, lemma_decimal_digits, lemma_decimal_injective,
    lemma_split_at_stop, lemma_split_dots_nonempty, split_dots,
};
use vstd::prelude::*;

verus! {

pub open spec fn is_ident_char(c: char) -> bool {
    ('A' <= c && c <= 'Z') || ('a' <= c && c <= 'z') || ('0' <= c && c <= '9') || c == '-'
}

pub open spec fn ident_chars(s: Seq<char>) -> bool {
    forall|i: int| 0 <= i < s.len() ==> is_ident_char(#[trigger] s[i])
}

/// One dot-free identifier of a pre-release: letters, digits and hyphens, and
/// no leading zero where it is numeric.
pub open spec fn valid_pre_ident(s: Seq<char>) -> bool {
    &&& s.len() > 0
    &&& ident_chars(s)
    &&& !(all_digits(s) && s.len() > 1 && s[0] == '0')
}

/// One dot-free identifier of build metadata: letters, digits and hyphens.
pub open spec fn valid_build_ident(s: Seq<char>) -> bool {
    s.len() > 0 && ident_chars(s)
}

/// A non-empty pre-release: dot-separated valid identifiers.
pub open spec fn valid_pre_text(s: Seq<char>) -> bool {
    forall|i: int| 0 <= i < split_dots(s).len() ==> valid_pre_ident(#[trigger] split_dots(s)[i])
}

/// Non-empty build metadata: dot-separated valid identifiers.
pub open spec fn valid_build_text(s: Seq<char>) -> bool {
    forall|i: int|
        0 <= i < split_dots(s).len() ==> valid_build_ident(#[trigger] split_dots(s)[i])
}

/// `MAJOR.MINOR.PATCH`, then `-PRE` where the pre-release is not empty, then
/// `+BUILD` where the build metadata is not empty.
pub open spec fn version_text(
    major: u64,
    minor: u64,
    patch: u64,
    pre: Seq<char>,
    build: Seq<char>,
) -> Seq<char> {
    decimal(major as nat) + (seq!['.'] + (decimal(minor as nat) + (seq!['.'] + (decimal(
        patch as nat,
    ) + (pre_suffix(pre) + build_suffix(build))))))
}

pub open spec fn pre_suffix(pre: Seq<char>) -> Seq<char> {
    if pre.len() > 0 {
        seq!['-'] + pre
    } else {
        Seq::empty()
    }
}

pub open spec fn build_suffix(build: Seq<char>) -> Seq<char> {
    if build.len() > 0 {
        seq!['+'] + build
    } else {
        Seq::empty()
    }
}

/// The text is a SemVer 2.0 version: three numbers that fit in 64 bits, an
/// optional pre-release and optional build metadata.
pub open spec fn is_version_text(s: Seq<char>) -> bool {
    exists|major: u64, minor: u64, patch: u64, pre: Seq<char>, build: Seq<char>|
        (pre.len() == 0 || valid_pre_text(pre)) && (build.len() == 0 || valid_build_text(build))
            && #[trigger] version_text(major, minor, patch, pre, build) == s
}

/// Character-wise order of two texts, a proper prefix first.
pub open spec fn lex_lt(a: Seq<char>, b: Seq<char>) -> bool
    decreases a.len(),
{
    if a.len() == 0 {
        b.len() > 0
    } else if b.len() == 0 {
        false
    } else if a[0] != b[0] {
        a[0] < b[0]
    } else {
        lex_lt(a.drop_first(), b.drop_first())
    }
}

/// Precedence of two pre-release identifiers: numeric ones by value (by
/// length, then by digits), numeric before alphanumeric, alphanumeric ones
/// in ASCII order.
pub open spec fn ident_lt(a: Seq<char>, b: Seq<char>) -> bool {
    if all_digits(a) && all_digits(b) {
        a.len() < b.len() || (a.len() == b.len() && lex_lt(a, b))
    } else if all_digits(a) {
        true
    } else if all_digits(b) {
        false
    } else {
        lex_lt(a, b)
    }
}

/// Precedence of two sequences of identifiers: the first that differ decide;
/// where one is a prefix of the other, the shorter comes first.
pub open spec fn idents_lt(a: Seq<Seq<char>>, b: Seq<Seq<char>>) -> bool
    decreases a.len(),
{
    if a.len() == 0 {
        b.len() > 0
    } else if b.len() == 0 {
        false
    } else if a[0] == b[0] {
        idents_lt(a.drop_first(), b.drop_first())
    } else {
        ident_lt(a[0], b[0])
    }
}

/// Pre-release `a` has lower precedence than pre-release `b`.
pub open spec fn pre_lt(a: Seq<char>, b: Seq<char>) -> bool {
    idents_lt(split_dots(a), split_dots(b))
}


pub open spec fn segments_ident_chars(s: Seq<char>) -> bool {
    forall|i: int| 0 <= i < split_dots(s).len() ==> ident_chars(#[trigger] split_dots(s)[i])
}

/// Every character of text whose pieces are identifiers is a dot or an
/// identifier character.
pub proof fn lemma_segments_chars(s: Seq<char>)
    requires
        segments_ident_chars(s),
    ensures
        forall|k: int| 0 <= k < s.len() ==> #[trigger] s[k] == '.' || is_ident_char(s[k]),
    decreases s.len(),
{
    if s.len() > 0 {
        let r = s.drop_first();
        let rest = split_dots(r);
        lemma_split_dots_nonempty(r);
        if s[0] == '.' {
            assert forall|i: int| 0 <= i < rest.len() implies ident_chars(#[trigger] rest[i]) by {
                assert(split_dots(s)[i + 1] == rest[i]);
            }
        } else {
            let first = split_dots(s)[0];
            assert(first == seq![s[0]] + rest[0]);
            assert(ident_chars(first));
            assert(is_ident_char(first[0]));
            assert forall|i: int| 0 <= i < rest.len() implies ident_chars(#[trigger] rest[i]) by {
                if i == 0 {
                    assert forall|k: int| 0 <= k < rest[0].len() implies is_ident_char(
                        rest[0][k],
                    ) by {
                        assert(rest[0][k] == first[k + 1]);
                    }
                } else {
                    assert(split_dots(s)[i] == rest[i]);
                }
            }
        }
        lemma_segments_chars(r);
        assert forall|k: int| 0 <= k < s.len() implies #[trigger] s[k] == '.' || is_ident_char(
            s[k],
        ) by {
            if k > 0 {
                assert(s[k] == r[k - 1]);
            }
        }
    }
}

pub proof fn lemma_pre_text_chars(s: Seq<char>)
    requires
        valid_pre_text(s),
    ensures
        forall|k: int| 0 <= k < s.len() ==> #[trigger] s[k] == '.' || is_ident_char(s[k]),
{
    assert forall|i: int| 0 <= i < split_dots(s).len() implies ident_chars(
        #[trigger] split_dots(s)[i],
    ) by {
        assert(valid_pre_ident(split_dots(s)[i]));
    }
    lemma_segments_chars(s);
}

pub open spec fn not_digit(c: char) -> bool {
    !('0' <= c && c <= '9')
}

pub open spec fn is_plus(c: char) -> bool {
    c == '+'
}

proof fn lemma_decimal_head(a: u64, x: Seq<char>, b: u64, y: Seq<char>)
    requires
        decimal(a as nat) + x == decimal(b as nat) + y,
        x.len() == 0 || not_digit(x[0]),
        y.len() == 0 || not_digit(y[0]),
    ensures
        a == b,
        x == y,
{
    lemma_decimal_digits(a as nat);
    lemma_decimal_digits(b as nat);
    let f = |c: char| not_digit(c);
    assert forall|i: int| 0 <= i < decimal(a as nat).len() implies !f(
        #[trigger] decimal(a as nat)[i],
    ) by {
        assert(is_digit(decimal(a as nat)[i]));
    }
    assert forall|i: int| 0 <= i < decimal(b as nat).len() implies !f(
        #[trigger] decimal(b as nat)[i],
    ) by {
        assert(is_digit(decimal(b as nat)[i]));
    }
    lemma_split_at_stop(decimal(a as nat), x, decimal(b as nat), y, f);
    lemma_decimal_injective(a as nat, b as nat);
}

/// Distinct parts give distinct version texts.
pub proof fn lemma_version_text_injective(
    major: u64,
    minor: u64,
    patch: u64,
    pre: Seq<char>,
    build: Seq<char>,
    major2: u64,
    minor2: u64,
    patch2: u64,
    pre2: Seq<char>,
    build2: Seq<char>,
)
    requires
        pre.len() == 0 || valid_pre_text(pre),
        pre2.len() == 0 || valid_pre_text(pre2),
        version_text(major, minor, patch, pre, build) == version_text(
            major2,
            minor2,
            patch2,
            pre2,
            build2,
        ),
    ensures
        major == major2,
        minor == minor2,
        patch == patch2,
        pre == pre2,
        build == build2,
{
    let t = pre_suffix(pre) + build_suffix(build);
    let t2 = pre_suffix(pre2) + build_suffix(build2);
    let dot = seq!['.'];
    let q = decimal(patch as nat) + t;
    let q2 = decimal(patch2 as nat) + t2;
    let r = decimal(minor as nat) + (dot + q);
    let r2 = decimal(minor2 as nat) + (dot + q2);
    lemma_decimal_head(major, dot + r, major2, dot + r2);
    assert(r =~= (dot + r).drop_first());
    assert(r2 =~= (dot + r2).drop_first());
    lemma_decimal_head(minor, dot + q, minor2, dot + q2);
    assert(q =~= (dot + q).drop_first());
    assert(q2 =~= (dot + q2).drop_first());
    assert(t.len() == 0 || not_digit(t[0]));
    assert(t2.len() == 0 || not_digit(t2[0]));
    lemma_decimal_head(patch, t, patch2, t2);
    lemma_suffix_injective(pre, build, pre2, build2);
}

proof fn lemma_suffix_injective(pre: Seq<char>, build: Seq<char>, pre2: Seq<char>, build2: Seq<char>)
    requires
        pre.len() == 0 || valid_pre_text(pre),
        pre2.len() == 0 || valid_pre_text(pre2),
        pre_suffix(pre) + build_suffix(build) == pre_suffix(pre2) + build_suffix(build2),
    ensures
        pre == pre2,
        build == build2,
{
    let t = pre_suffix(pre) + build_suffix(build);
    let t2 = pre_suffix(pre2) + build_suffix(build2);
    let f = |c: char| is_plus(c);
    if pre.len() > 0 {
        lemma_pre_text_chars(pre);
    }
    if pre2.len() > 0 {
        lemma_pre_text_chars(pre2);
    }
    if pre.len() > 0 && pre2.len() > 0 {
        assert(t =~= seq!['-'] + (pre + build_suffix(build)));
        assert(t2 =~= seq!['-'] + (pre2 + build_suffix(build2)));
        assert(pre + build_suffix(build) =~= t.drop_first());
        assert(pre2 + build_suffix(build2) =~= t2.drop_first());
        assert forall|i: int| 0 <= i < pre.len() implies !f(#[trigger] pre[i]) by {
            assert(pre[i] == '.' || is_ident_char(pre[i]));
        }
        assert forall|i: int| 0 <= i < pre2.len() implies !f(#[trigger] pre2[i]) by {
            assert(pre2[i] == '.' || is_ident_char(pre2[i]));
        }
        lemma_split_at_stop(pre, build_suffix(build), pre2, build_suffix(build2), f);
    } else if pre.len() > 0 {
        assert(t[0] == '-');
        assert(t2 =~= build_suffix(build2));
    } else if pre2.len() > 0 {
        assert(t2[0] == '-');
        assert(t =~= build_suffix(build));
    } else {
        assert(t =~= build_suffix(build));
        assert(t2 =~= build_suffix(build2));
    }
    if build.len() > 0 && build2.len() > 0 {
        assert(build =~= build_suffix(build).drop_first());
        assert(build2 =~= build_suffix(build2).drop_first());
    }
}

} // verus!
