//! Decimal digits and dot-separated text, as mathematical sequences of
//! characters, with the executable helpers that read and write them.
use vstd::prelude::*;
use vstd::string::*;

verus! {

pub open spec fn is_digit(c: char) -> bool {
    '0' <= c && c <= '9'
}

pub open spec fn digit_value(c: char) -> nat {
    (c as int - '0' as int) as nat
}

pub open spec fn digit_char(d: nat) -> char {
    if d == 0 {
        '0'
    } else if d == 1 {
        '1'
    } else if d == 2 {
        '2'
    } else if d == 3 {
        '3'
    } else if d == 4 {
        '4'
    } else if d == 5 {
        '5'
    } else if d == 6 {
        '6'
    } else if d == 7 {
        '7'
    } else if d == 8 {
        '8'
    } else {
        '9'
    }
}

pub proof fn lemma_digit_char(d: nat)
    requires
        d < 10,
    ensures
        is_digit(digit_char(d)),
        digit_value(digit_char(d)) == d,
{
}

pub proof fn lemma_digit_value(c: char)
    requires
        is_digit(c),
    ensures
        digit_value(c) < 10,
        digit_char(digit_value(c)) == c,
{
    let v = c as int;
    assert(48 <= v <= 57);
    if v == 48 { assert(c == '0'); } else if v == 49 { assert(c == '1'); }
    else if v == 50 { assert(c == '2'); } else if v == 51 { assert(c == '3'); }
    else if v == 52 { assert(c == '4'); } else if v == 53 { assert(c == '5'); }
    else if v == 54 { assert(c == '6'); } else if v == 55 { assert(c == '7'); }
    else if v == 56 { assert(c == '8'); } else { assert(c == '9'); }
}

pub open spec fn all_digits(s: Seq<char>) -> bool {
    forall|i: int| 0 <= i < s.len() ==> is_digit(#[trigger] s[i])
}

/// The canonical decimal rendering of `n`: no sign, no leading zero.
pub open spec fn decimal(n: nat) -> Seq<char>
    decreases n,
{
    if n < 10 {
        seq![digit_char(n)]
    } else {
        decimal(n / 10) + seq![digit_char(n % 10)]
    }
}

/// The number that a string of decimal digits denotes.
pub open spec fn digits_value(s: Seq<char>) -> nat
    decreases s.len(),
{
    if s.len() == 0 {
        0
    } else {
        digits_value(s.drop_last()) * 10 + digit_value(s.last())
    }
}

/// `t` without one leading `+`, if it has one.
pub open spec fn without_plus(t: Seq<char>) -> Seq<char> {
    if t.len() > 0 && t[0] == '+' {
        t.drop_first()
    } else {
        t
    }
}

/// What `str::parse::<u64>` accepts: an optional `+`, then one or more
/// decimal digits whose value fits in 64 bits.
pub open spec fn u64_of_text(t: Seq<char>) -> Option<u64> {
    let d = without_plus(t);
    if d.len() > 0 && all_digits(d) && digits_value(d) <= u64::MAX {
        Some(digits_value(d) as u64)
    } else {
        None
    }
}

pub open spec fn no_char(s: Seq<char>, c: char) -> bool {
    forall|i: int| 0 <= i < s.len() ==> #[trigger] s[i] != c
}

/// The pieces of `s` between dots, in order; `s` with no dot is one piece.
pub open spec fn split_dots(s: Seq<char>) -> Seq<Seq<char>>
    decreases s.len(),
{
    if s.len() == 0 {
        seq![Seq::<char>::empty()]
    } else {
        let rest = split_dots(s.drop_first());
        if s[0] == '.' {
            seq![Seq::<char>::empty()] + rest
        } else {
            seq![seq![s[0]] + rest[0]] + rest.drop_first()
        }
    }
}

pub proof fn lemma_split_dots_nonempty(s: Seq<char>)
    ensures
        split_dots(s).len() >= 1,
    decreases s.len(),
{
    if s.len() > 0 {
        lemma_split_dots_nonempty(s.drop_first());
    }
}

pub proof fn lemma_split_no_dot(s: Seq<char>)
    requires
        no_char(s, '.'),
    ensures
        split_dots(s) == seq![s],
    decreases s.len(),
{
    if s.len() > 0 {
        let t = s.drop_first();
        assert(no_char(t, '.')) by {
            assert forall|i: int| 0 <= i < t.len() implies t[i] != '.' by {
                assert(t[i] == s[i + 1]);
            }
        }
        lemma_split_no_dot(t);
        assert(seq![s[0]] + t =~= s);
        assert(split_dots(s) =~= seq![s]);
    } else {
        assert(s =~= Seq::<char>::empty());
    }
}

/// Splitting `a.b` where `a` holds no dot gives `a`, then the pieces of `b`.
pub proof fn lemma_split_first_dot(a: Seq<char>, b: Seq<char>)
    requires
        no_char(a, '.'),
    ensures
        split_dots(a + seq!['.'] + b) == seq![a] + split_dots(b),
    decreases a.len(),
{
    let s = a + seq!['.'] + b;
    if a.len() == 0 {
        assert(s.drop_first() =~= b);
        assert(a =~= Seq::<char>::empty());
    } else {
        let a2 = a.drop_first();
        assert(no_char(a2, '.')) by {
            assert forall|i: int| 0 <= i < a2.len() implies a2[i] != '.' by {
                assert(a2[i] == a[i + 1]);
            }
        }
        lemma_split_first_dot(a2, b);
        assert(s.drop_first() =~= a2 + seq!['.'] + b);
        assert(s[0] == a[0]);
        assert(seq![a[0]] + a2 =~= a);
        assert(split_dots(s) =~= seq![a] + split_dots(b));
    }
}

pub proof fn lemma_decimal_digits(n: nat)
    ensures
        decimal(n).len() >= 1,
        all_digits(decimal(n)),
        digits_value(decimal(n)) == n,
        decimal(n).len() > 1 ==> decimal(n)[0] != '0',
    decreases n,
{
    lemma_digit_char(n % 10);
    if n >= 10 {
        lemma_decimal_digits(n / 10);
        let d = decimal(n);
        let p = decimal(n / 10);
        assert(d.drop_last() =~= p);
        assert(d.last() == digit_char(n % 10));
        assert(n == (n / 10) * 10 + n % 10) by (nonlinear_arith);
        assert(d[0] == p[0]);
        assert(p.len() == 1 ==> p[0] != '0') by {
            if p.len() == 1 {
                assert(digits_value(p) == digits_value(p.drop_last()) * 10 + digit_value(p[0]));
                assert(p.drop_last().len() == 0);
            }
        }
    } else {
        assert(decimal(n).drop_last() =~= Seq::<char>::empty());
        assert(decimal(n).last() == digit_char(n));
        assert(digits_value(Seq::<char>::empty()) == 0);
        assert(digits_value(decimal(n)) == digits_value(decimal(n).drop_last()) * 10 + digit_value(decimal(n).last()));
    }
}

pub proof fn lemma_decimal_no_dot(n: nat)
    ensures
        no_char(decimal(n), '.'),
{
    lemma_decimal_digits(n);
    assert forall|i: int| 0 <= i < decimal(n).len() implies decimal(n)[i] != '.' by {
        assert(is_digit(decimal(n)[i]));
    }
}

proof fn lemma_digits_value_positive(s: Seq<char>)
    requires
        s.len() >= 1,
        all_digits(s),
        s[0] != '0',
    ensures
        digits_value(s) > 0,
    decreases s.len(),
{
    if s.len() > 1 {
        let t = s.drop_last();
        assert(t[0] == s[0]);
        assert(all_digits(t)) by {
            assert forall|i: int| 0 <= i < t.len() implies is_digit(t[i]) by {
                assert(t[i] == s[i]);
            }
        }
        lemma_digits_value_positive(t);
    } else {
        assert(s.drop_last().len() == 0);
    }
}

/// A string of digits with no leading zero is the rendering of its value.
pub proof fn lemma_decimal_canonical(s: Seq<char>)
    requires
        s.len() >= 1,
        all_digits(s),
        s.len() == 1 || s[0] != '0',
    ensures
        decimal(digits_value(s)) == s,
    decreases s.len(),
{
    if s.len() == 1 {
        assert(s.drop_last() =~= Seq::<char>::empty());
        assert(s.last() == s[0]);
        assert(digits_value(Seq::<char>::empty()) == 0);
        assert(is_digit(s[0]));
        lemma_digit_value(s[0]);
        assert(digits_value(s) == digit_value(s[0]));
        assert(decimal(digits_value(s)) =~= s);
    } else {
        let t = s.drop_last();
        assert(t[0] == s[0]);
        assert(all_digits(t)) by {
            assert forall|i: int| 0 <= i < t.len() implies is_digit(t[i]) by {
                assert(t[i] == s[i]);
            }
        }
        lemma_digits_value_positive(t);
        lemma_decimal_canonical(t);
        let v = digits_value(t);
        let d = digit_value(s.last());
        assert(is_digit(s.last()));
        assert((v * 10 + d) / 10 == v && (v * 10 + d) % 10 == d) by (nonlinear_arith)
            requires
                d < 10,
        ;
        assert(t + seq![s.last()] =~= s);
    }
}

/// Decimal renderings are distinct for distinct numbers.
pub proof fn lemma_decimal_injective(a: nat, b: nat)
    requires
        decimal(a) == decimal(b),
    ensures
        a == b,
{
    lemma_decimal_digits(a);
    lemma_decimal_digits(b);
}

/// Where `p` and `q` hold no stop character and what follows each is empty or
/// starts with one, `p + x == q + y` splits the same way on both sides.
pub proof fn lemma_split_at_stop(
    p: Seq<char>,
    x: Seq<char>,
    q: Seq<char>,
    y: Seq<char>,
    stop: spec_fn(char) -> bool,
)
    requires
        forall|i: int| 0 <= i < p.len() ==> !stop(#[trigger] p[i]),
        forall|i: int| 0 <= i < q.len() ==> !stop(#[trigger] q[i]),
        x.len() == 0 || stop(x[0]),
        y.len() == 0 || stop(y[0]),
        p + x == q + y,
    ensures
        p == q,
        x == y,
{
    let s = p + x;
    if p.len() < q.len() {
        assert(s[p.len() as int] == q[p.len() as int]);
        if x.len() > 0 {
            assert(s[p.len() as int] == x[0]);
        }
    } else if q.len() < p.len() {
        assert(s[q.len() as int] == p[q.len() as int]);
        if y.len() > 0 {
            assert((q + y)[q.len() as int] == y[0]);
        }
    }
    assert(p =~= s.subrange(0, p.len() as int));
    assert(q =~= (q + y).subrange(0, q.len() as int));
    assert(x =~= s.subrange(p.len() as int, s.len() as int));
    assert(y =~= (q + y).subrange(q.len() as int, s.len() as int));
}

/// Appends the decimal rendering of `n`.
pub fn push_decimal(s: &mut String, n: u64)
    ensures
        final(s)@ == old(s)@ + decimal(n as nat),
    decreases n,
{
    if n >= 10 {
        push_decimal(s, n / 10);
    }
    let all = "0123456789";
    proof {
        reveal_strlit("0123456789");
    }
    let d = (n % 10) as usize;
    let piece = all.substring_char(d, d + 1);
    assert(piece@ =~= seq![digit_char((n % 10) as nat)]);
    s.append(piece);
    assert(final(s)@ =~= old(s)@ + decimal(n as nat));
}

proof fn lemma_digits_value_prefix(s: Seq<char>, i: int)
    requires
        0 <= i < s.len(),
        is_digit(s[i]),
    ensures
        digits_value(s.subrange(0, i + 1)) == digits_value(s.subrange(0, i)) * 10 + digit_value(
            s[i],
        ),
{
    assert(s.subrange(0, i + 1).drop_last() =~= s.subrange(0, i));
}

proof fn lemma_digits_value_grows(s: Seq<char>, i: int)
    requires
        0 <= i <= s.len(),
        all_digits(s),
    ensures
        digits_value(s.subrange(0, i)) <= digits_value(s),
    decreases s.len() - i,
{
    if i < s.len() {
        lemma_digits_value_prefix(s, i);
        lemma_digits_value_grows(s, i + 1);
    } else {
        assert(s.subrange(0, i) =~= s);
    }
}

/// Reads a `u64` as `str::parse::<u64>` does.
pub fn parse_u64(t: &str) -> (r: Option<u64>)
    ensures
        r == u64_of_text(t@),
{
    let n = t.unicode_len();
    let mut start: usize = 0;
    if n > 0 && t.get_char(0) == '+' {
        start = 1;
    }
    let ghost d = without_plus(t@);
    assert(d =~= t@.subrange(start as int, n as int));
    if start == n {
        return None;
    }
    let mut i: usize = start;
    while i < n
        invariant
            start <= i <= n,
            n == t@.len(),
            d == without_plus(t@),
            d =~= t@.subrange(start as int, n as int),
            forall|j: int| 0 <= j < i - start ==> is_digit(#[trigger] d[j]),
        decreases n - i,
    {
        let c = t.get_char(i);
        if !('0' <= c && c <= '9') {
            assert(d[i - start] == c);
            assert(!is_digit(d[i - start]));
            assert(!all_digits(d));
            assert(u64_of_text(t@) is None);
            return None;
        }
        i = i + 1;
    }
    assert(all_digits(d));
    let mut value: u64 = 0;
    let mut k: usize = start;
    while k < n
        invariant
            start <= k <= n,
            n == t@.len(),
            d == without_plus(t@),
            d =~= t@.subrange(start as int, n as int),
            all_digits(d),
            value as nat == digits_value(d.subrange(0, k - start)),
        decreases n - k,
    {
        let c = t.get_char(k);
        let ghost j = k - start;
        assert(d[j] == c);
        proof {
            lemma_digits_value_prefix(d, j);
        }
        let dv = (c as u32 - '0' as u32) as u64;
        assert(is_digit(c));
        assert(dv as nat == digit_value(c));
        if value > (u64::MAX - dv) / 10 {
            proof {
                assert(value * 10 + dv > u64::MAX) by (nonlinear_arith)
                    requires
                        value > (u64::MAX - dv) / 10,
                        dv <= 9,
                ;
                lemma_digits_value_grows(d, j + 1);
                assert(digits_value(d) > u64::MAX);
                assert(u64_of_text(t@) is None);
            }
            return None;
        }
        assert(value * 10 + dv <= u64::MAX) by (nonlinear_arith)
            requires
                value <= (u64::MAX - dv) / 10,
                dv <= 9,
        ;
        value = value * 10 + dv;
        k = k + 1;
    }
    assert(d.subrange(0, n - start) =~= d);
    Some(value)
}

} // verus!
