//! A semantic version held as plain values, with a two-part pre-release
//! (`ident.iteration`) and optional build metadata.
use crate::grammar::{
    ident_chars, is_ident_char, is_version_text, lemma_version_text_injective, pre_lt,
    valid_build_text, valid_pre_ident, valid_pre_text, version_text,
};
use crate::semver_calls::{check_build_metadata, parse_version_parts};
use crate::text::{
    all_digits, decimal, is_digit, lemma_decimal_digits, lemma_decimal_no_dot,
    lemma_split_at_stop, lemma_split_first_dot, lemma_split_no_dot, no_char, parse_u64,
    push_decimal, split_dots, u64_of_text, without_plus,
};
use crate::transition::TransitionError;
use vstd::prelude::*;
use vstd::string::*;

verus! {

/// Why an operation on a version did not give a version.
#[derive(Debug, Clone, Copy, PartialEq, Eq, Structural)]
pub enum VersionError {
    /// The text is not a SemVer 2.0 version.
    InvalidVersion,
    /// A pre-release is not `ident.iteration` with a valid identifier.
    MalformedPrerelease,
    /// Build metadata is not dot-separated letters, digits and hyphens.
    MalformedBuild,
    /// A number would pass the largest 64-bit value.
    Overflow,
    /// A new pre-release does not come after the current one.
    PrereleaseNotAdvancing,
    /// The transition is not allowed from the version's state.
    Transition(TransitionError),
}

#[derive(Debug, Clone, Copy, PartialEq, Eq, Structural)]
pub enum ReleaseLevel {
    Patch,
    Minor,
    Major,
}

/// A pre-release `ident.iteration`, such as `beta.2`.
#[derive(Debug, Clone)]
pub struct Prerelease {
    pub ident: String,
    pub iteration: u64,
}

/// `s` is `ident.t` with one dot, and `t` reads as the number `iteration`.
pub open spec fn is_prerelease_split(s: Seq<char>, ident: Seq<char>, iteration: u64) -> bool {
    exists|t: Seq<char>|
        no_char(ident, '.') && no_char(t, '.') && s == #[trigger] (ident + seq!['.'] + t)
            && u64_of_text(t) == Some(iteration)
}

pub open spec fn is_prerelease_text(s: Seq<char>) -> bool {
    exists|ident: Seq<char>, iteration: u64| #[trigger] is_prerelease_split(s, ident, iteration)
}

/// The text of a pre-release with these parts.
pub open spec fn prerelease_text(ident: Seq<char>, iteration: u64) -> Seq<char> {
    ident + seq!['.'] + decimal(iteration as nat)
}

pub open spec fn is_dot(c: char) -> bool {
    c == '.'
}

impl View for Prerelease {
    type V = (Seq<char>, u64);

    open spec fn view(&self) -> (Seq<char>, u64) {
        (self.ident@, self.iteration)
    }
}

/// A valid pre-release renders as one more valid pre-release text, whose
/// last identifier is the iteration.
pub proof fn lemma_prerelease_text_valid(ident: Seq<char>, iteration: u64)
    requires
        valid_pre_ident(ident),
    ensures
        valid_pre_text(prerelease_text(ident, iteration)),
        split_dots(prerelease_text(ident, iteration)) == seq![ident, decimal(iteration as nat)],
        is_prerelease_split(prerelease_text(ident, iteration), ident, iteration),
{
    let d = decimal(iteration as nat);
    lemma_decimal_digits(iteration as nat);
    lemma_decimal_no_dot(iteration as nat);
    assert(no_char(ident, '.')) by {
        assert forall|i: int| 0 <= i < ident.len() implies ident[i] != '.' by {
            assert(is_ident_char(ident[i]));
        }
    }
    lemma_split_first_dot(ident, d);
    lemma_split_no_dot(d);
    assert(split_dots(prerelease_text(ident, iteration)) =~= seq![ident, d]);
    assert(ident_chars(d)) by {
        assert forall|i: int| 0 <= i < d.len() implies is_ident_char(d[i]) by {
            assert(is_digit(d[i]));
        }
    }
    assert(valid_pre_ident(d));
    assert(without_plus(d) == d) by {
        assert(is_digit(d[0]));
    }
    assert(u64_of_text(d) == Some(iteration));
    assert(is_prerelease_split(prerelease_text(ident, iteration), ident, iteration));
}

impl Prerelease {
    pub open spec fn text(&self) -> Seq<char> {
        prerelease_text(self.ident@, self.iteration)
    }

    /// The identifier is one SemVer pre-release identifier.
    pub open spec fn wf(&self) -> bool {
        valid_pre_ident(self.ident@)
    }

    /// Reads `ident.iteration`: exactly one dot, and an iteration that reads
    /// as a `u64`.
    pub fn parse(s: &str) -> (r: Result<Prerelease, VersionError>)
        ensures
            r is Ok <==> is_prerelease_text(s@),
            r matches Ok(p) ==> is_prerelease_split(s@, p.ident@, p.iteration),
            r matches Err(e) ==> e == VersionError::MalformedPrerelease,
    {
        let n = s.unicode_len();
        let mut i: usize = 0;
        while i < n && s.get_char(i) != '.'
            invariant
                i <= n,
                n == s@.len(),
                no_char(s@.subrange(0, i as int), '.'),
            decreases n - i,
        {
            assert(s@.subrange(0, i + 1) =~= s@.subrange(0, i as int).push(s@[i as int]));
            i = i + 1;
        }
        let ghost head = s@.subrange(0, i as int);
        if i == n {
            proof {
                assert(head =~= s@);
                assert forall|id: Seq<char>, k: u64| !#[trigger] is_prerelease_split(s@, id, k) by {
                    if is_prerelease_split(s@, id, k) {
                        let t = choose|t: Seq<char>|
                            no_char(id, '.') && no_char(t, '.') && s@ == #[trigger] (id + seq!['.'] + t)
                                && u64_of_text(t) == Some(k);
                        assert(s@[id.len() as int] == '.');
                    }
                }
            }
            return Err(VersionError::MalformedPrerelease);
        }
        let ident = s.substring_char(0, i);
        let rest = s.substring_char(i + 1, n);
        let ghost tail = s@.subrange(i as int, n as int);
        proof {
            assert(s@ =~= head + tail);
            assert(tail =~= seq!['.'] + rest@);
            assert(s@ =~= ident@ + seq!['.'] + rest@);
        }
        let m = rest.unicode_len();
        let mut j: usize = 0;
        while j < m && rest.get_char(j) != '.'
            invariant
                j <= m,
                m == rest@.len(),
                no_char(rest@.subrange(0, j as int), '.'),
            decreases m - j,
        {
            assert(rest@.subrange(0, j + 1) =~= rest@.subrange(0, j as int).push(rest@[j as int]));
            j = j + 1;
        }
        // Any split of `s` puts its dot where the first dot is.
        assert forall|id: Seq<char>, k: u64| #[trigger]
            is_prerelease_split(s@, id, k) implies id == ident@ && u64_of_text(rest@) == Some(k)
            && no_char(rest@, '.') by {
            let t = choose|t: Seq<char>|
                no_char(id, '.') && no_char(t, '.') && s@ == #[trigger] (id + seq!['.'] + t)
                    && u64_of_text(t) == Some(k);
            assert(id + seq!['.'] + t =~= id + (seq!['.'] + t));
            assert(ident@ + seq!['.'] + rest@ =~= ident@ + (seq!['.'] + rest@));
            lemma_split_at_stop(id, seq!['.'] + t, ident@, seq!['.'] + rest@, |c: char| is_dot(c));
            assert(t =~= (seq!['.'] + t).drop_first());
            assert(rest@ =~= (seq!['.'] + rest@).drop_first());
        }
        if j < m {
            return Err(VersionError::MalformedPrerelease);
        }
        assert(rest@.subrange(0, m as int) =~= rest@);
        match parse_u64(rest) {
            None => Err(VersionError::MalformedPrerelease),
            Some(iteration) => {
                let p = Prerelease { ident: ident.to_owned(), iteration };
                assert(is_prerelease_split(s@, p.ident@, p.iteration)) by {
                    assert(s@ == ident@ + seq!['.'] + rest@);
                }
                Ok(p)
            }
        }
    }

    /// The next iteration of the same identifier.
    pub fn increment(&self) -> (r: Self)
        requires
            self.iteration < u64::MAX,
        ensures
            r.ident@ == self.ident@,
            r.iteration == self.iteration + 1,
    {
        Prerelease { ident: self.ident.clone(), iteration: self.iteration + 1 }
    }

    /// `ident.iteration`.
    pub fn to_string(&self) -> (r: String)
        ensures
            r@ == self.text(),
    {
        let mut s = self.ident.clone();
        let dot = ".";
        proof {
            reveal_strlit(".");
        }
        s.append(dot);
        push_decimal(&mut s, self.iteration);
        s
    }

    /// Whether the identifier is one SemVer pre-release identifier.
    pub fn is_valid(&self) -> (r: bool)
        ensures
            r == self.wf(),
    {
        let n = self.ident.as_str().unicode_len();
        if n == 0 {
            return false;
        }
        let mut i: usize = 0;
        let mut numeric = true;
        while i < n
            invariant
                i <= n,
                n == self.ident@.len(),
                forall|k: int| 0 <= k < i ==> is_ident_char(#[trigger] self.ident@[k]),
                numeric == all_digits(self.ident@.subrange(0, i as int)),
            decreases n - i,
        {
            let c = self.ident.as_str().get_char(i);
            let ok = ('A' <= c && c <= 'Z') || ('a' <= c && c <= 'z') || ('0' <= c && c <= '9')
                || c == '-';
            if !ok {
                return false;
            }
            let ghost p0 = self.ident@.subrange(0, i as int);
            let ghost p1 = self.ident@.subrange(0, i + 1);
            assert(p1 =~= p0.push(c));
            assert(all_digits(p1) == (all_digits(p0) && is_digit(c))) by {
                if all_digits(p1) {
                    assert(is_digit(p1[i as int]));
                    assert forall|k: int| 0 <= k < p0.len() implies is_digit(p0[k]) by {
                        assert(p0[k] == p1[k]);
                    }
                }
            }
            numeric = numeric && '0' <= c && c <= '9';
            i = i + 1;
        }
        assert(self.ident@.subrange(0, n as int) =~= self.ident@);
        !(numeric && n > 1 && self.ident.as_str().get_char(0) == '0')
    }
}

/// What a version is: its numbers, its pre-release as identifier and
/// iteration, and its build metadata.
pub struct VersionModel {
    pub major: u64,
    pub minor: u64,
    pub patch: u64,
    pub pre: Option<(Seq<char>, u64)>,
    pub build: Option<Seq<char>>,
}

/// Release or pre-release: whether a version has a pre-release.
#[derive(Debug, Clone, Copy, PartialEq, Eq, Structural)]
pub enum State {
    Release,
    Prerelease,
}

impl VersionModel {
    /// The pre-release identifier and the build metadata follow SemVer.
    pub open spec fn wf(self) -> bool {
        &&& (self.pre matches Some(p) ==> valid_pre_ident(p.0))
        &&& (self.build matches Some(b) ==> valid_build_text(b))
    }

    pub open spec fn pre_text(self) -> Seq<char> {
        match self.pre {
            Some(p) => prerelease_text(p.0, p.1),
            None => Seq::empty(),
        }
    }

    pub open spec fn build_text(self) -> Seq<char> {
        match self.build {
            Some(b) => b,
            None => Seq::empty(),
        }
    }

    /// The canonical text: `MAJOR.MINOR.PATCH[-IDENT.ITERATION][+BUILD]`.
    pub open spec fn text(self) -> Seq<char> {
        version_text(self.major, self.minor, self.patch, self.pre_text(), self.build_text())
    }

    pub open spec fn state(self) -> State {
        if self.pre is Some {
            State::Prerelease
        } else {
            State::Release
        }
    }

    pub open spec fn cleared(self) -> VersionModel {
        VersionModel { pre: None, ..self }
    }

    pub open spec fn with_pre(self, ident: Seq<char>, iteration: u64) -> VersionModel {
        VersionModel { pre: Some((ident, iteration)), ..self }
    }

    /// The next version of the given level, with no pre-release and no build
    /// metadata; `None` where the number would pass the largest `u64`.
    pub open spec fn bumped(self, level: ReleaseLevel) -> Option<VersionModel> {
        match level {
            ReleaseLevel::Major => if self.major == u64::MAX {
                None
            } else {
                Some(
                    VersionModel {
                        major: (self.major + 1) as u64,
                        minor: 0,
                        patch: 0,
                        pre: None,
                        build: None,
                    },
                )
            },
            ReleaseLevel::Minor => if self.minor == u64::MAX {
                None
            } else {
                Some(
                    VersionModel {
                        minor: (self.minor + 1) as u64,
                        patch: 0,
                        pre: None,
                        build: None,
                        ..self
                    },
                )
            },
            ReleaseLevel::Patch => if self.patch == u64::MAX {
                None
            } else {
                Some(VersionModel { patch: (self.patch + 1) as u64, pre: None, build: None, ..self })
            },
        }
    }

    /// The version with its build metadata replaced: `None` or the empty text
    /// clear it, other text must be valid build metadata.
    pub open spec fn with_build(self, build: Option<Seq<char>>) -> Result<
        VersionModel,
        VersionError,
    > {
        match build {
            None => Ok(VersionModel { build: None, ..self }),
            Some(b) => if b.len() == 0 {
                Ok(VersionModel { build: None, ..self })
            } else if valid_build_text(b) {
                Ok(VersionModel { build: Some(b), ..self })
            } else {
                Err(VersionError::MalformedBuild)
            },
        }
    }

    /// SemVer precedence: by major, minor and patch, then a pre-release before
    /// its release, then pre-releases by their own precedence. Build metadata
    /// plays no part.
    pub open spec fn precedes(self, other: VersionModel) -> bool {
        if self.major != other.major {
            self.major < other.major
        } else if self.minor != other.minor {
            self.minor < other.minor
        } else if self.patch != other.patch {
            self.patch < other.patch
        } else {
            match (self.pre, other.pre) {
                (Some(_), None) => true,
                (Some(_), Some(_)) => pre_lt(self.pre_text(), other.pre_text()),
                _ => false,
            }
        }
    }
}

/// The text is a version without build metadata, then `+`, then text that is
/// not valid build metadata.
pub open spec fn has_bad_build(s: Seq<char>) -> bool {
    exists|head: Seq<char>, build: Seq<char>|
        no_char(head, '+') && s == #[trigger] (head + seq!['+'] + build) && is_version_text(head)
            && !valid_build_text(build)
}

pub open spec fn is_plus(c: char) -> bool {
    c == '+'
}

/// The text is the canonical text of some well-formed version.
pub open spec fn is_semantic_version_text(s: Seq<char>) -> bool {
    exists|m: VersionModel| m.wf() && #[trigger] m.text() == s
}

pub open spec fn opt_view(o: Option<String>) -> Option<Seq<char>> {
    match o {
        Some(s) => Some(s@),
        None => None,
    }
}

/// A version made of plain values.
#[derive(Debug, Clone)]
pub struct SemanticVersion {
    pub major: u64,
    pub minor: u64,
    pub patch: u64,
    pub pre: Option<Prerelease>,
    pub build: Option<String>,
}

impl View for SemanticVersion {
    type V = VersionModel;

    open spec fn view(&self) -> VersionModel {
        VersionModel {
            major: self.major,
            minor: self.minor,
            patch: self.patch,
            pre: match self.pre {
                Some(p) => Some(p@),
                None => None,
            },
            build: opt_view(self.build),
        }
    }
}

/// The model of a result that may hold a version.
pub open spec fn result_model(r: Result<SemanticVersion, VersionError>) -> Result<
    VersionModel,
    VersionError,
> {
    match r {
        Ok(v) => Ok(v@),
        Err(e) => Err(e),
    }
}

/// A well-formed version's text is a SemVer version text, and no other
/// parts give the same text.
pub proof fn lemma_text_parts(m: VersionModel)
    requires
        m.wf(),
    ensures
        m.pre_text().len() == 0 || valid_pre_text(m.pre_text()),
        m.build_text().len() == 0 || valid_build_text(m.build_text()),
        is_version_text(m.text()),
{
    if let Some(p) = m.pre {
        lemma_prerelease_text_valid(p.0, p.1);
    }
    assert(version_text(m.major, m.minor, m.patch, m.pre_text(), m.build_text()) == m.text());
}

/// Two well-formed versions with the same text are the same version.
pub proof fn lemma_text_injective(a: VersionModel, b: VersionModel)
    requires
        a.wf(),
        b.wf(),
        a.text() == b.text(),
    ensures
        a == b,
{
    lemma_text_parts(a);
    lemma_text_parts(b);
    lemma_version_text_injective(
        a.major,
        a.minor,
        a.patch,
        a.pre_text(),
        a.build_text(),
        b.major,
        b.minor,
        b.patch,
        b.pre_text(),
        b.build_text(),
    );
    match (a.pre, b.pre) {
        (Some(p), Some(q)) => {
            lemma_prerelease_text_valid(p.0, p.1);
            lemma_prerelease_text_valid(q.0, q.1);
            assert(seq![p.0, decimal(p.1 as nat)][0] == p.0);
            assert(seq![q.0, decimal(q.1 as nat)][1] == decimal(q.1 as nat));
            crate::text::lemma_decimal_injective(p.1 as nat, q.1 as nat);
        },
        (Some(p), None) => {
            assert(a.pre_text().len() > 0);
        },
        (None, Some(q)) => {
            assert(b.pre_text().len() > 0);
        },
        _ => {},
    }
    match (a.build, b.build) {
        (Some(x), None) => {
            assert(split_dots(x).len() >= 1) by {
                crate::text::lemma_split_dots_nonempty(x);
            }
            assert(valid_build_text(x));
            if x.len() == 0 {
                assert(split_dots(x) == seq![Seq::<char>::empty()]);
                assert(crate::grammar::valid_build_ident(split_dots(x)[0]));
            }
        },
        (None, Some(y)) => {
            crate::text::lemma_split_dots_nonempty(y);
            if y.len() == 0 {
                assert(split_dots(y) == seq![Seq::<char>::empty()]);
                assert(crate::grammar::valid_build_ident(split_dots(y)[0]));
            }
        },
        _ => {},
    }
}

/// A valid pre-release text that splits as `ident.t` is the canonical text
/// of that identifier and iteration.
proof fn lemma_parsed_prerelease(s: Seq<char>, ident: Seq<char>, iteration: u64)
    requires
        valid_pre_text(s),
        is_prerelease_split(s, ident, iteration),
    ensures
        valid_pre_ident(ident),
        s == prerelease_text(ident, iteration),
{
    let t = choose|t: Seq<char>|
        no_char(ident, '.') && no_char(t, '.') && s == #[trigger] (ident + seq!['.'] + t)
            && u64_of_text(t) == Some(iteration);
    lemma_split_first_dot(ident, t);
    lemma_split_no_dot(t);
    assert(split_dots(s) =~= seq![ident, t]);
    assert(valid_pre_ident(split_dots(s)[0]));
    assert(valid_pre_ident(split_dots(s)[1]));
    assert(is_ident_char(t[0]));
    assert(without_plus(t) == t);
    crate::text::lemma_decimal_canonical(t);
}

/// A version text whose build metadata is empty holds no `+`.
proof fn lemma_no_plus_no_build(
    major: u64,
    minor: u64,
    patch: u64,
    pre: Seq<char>,
    build: Seq<char>,
)
    requires
        no_char(version_text(major, minor, patch, pre, build), '+'),
    ensures
        build.len() == 0,
{
    let t = version_text(major, minor, patch, pre, build);
    if build.len() > 0 {
        assert(t[t.len() - build.len() - 1] == '+');
    }
}

/// Appending `+build` to a version text with no build metadata gives the
/// version text with that build metadata.
proof fn lemma_append_build(
    major: u64,
    minor: u64,
    patch: u64,
    pre: Seq<char>,
    build: Seq<char>,
)
    requires
        build.len() > 0,
    ensures
        version_text(major, minor, patch, pre, Seq::empty()) + seq!['+'] + build == version_text(
            major,
            minor,
            patch,
            pre,
            build,
        ),
{
    assert(version_text(major, minor, patch, pre, Seq::empty()) + seq!['+'] + build
        =~= version_text(major, minor, patch, pre, build));
}

/// Whether `text`, which is not a version text, fails only in its build
/// metadata: what precedes the first `+` reads as a version.
fn build_is_at_fault(text: &str) -> (r: bool)
    requires
        !is_version_text(text@),
    ensures
        r == has_bad_build(text@),
{
    let n = text.unicode_len();
    let mut i: usize = 0;
    while i < n && text.get_char(i) != '+'
        invariant
            i <= n,
            n == text@.len(),
            no_char(text@.subrange(0, i as int), '+'),
        decreases n - i,
    {
        assert(text@.subrange(0, i + 1) =~= text@.subrange(0, i as int).push(text@[i as int]));
        i = i + 1;
    }
    if i == n {
        proof {
            assert(text@.subrange(0, i as int) =~= text@);
            assert forall|h: Seq<char>, b: Seq<char>| !(no_char(h, '+') && text@ == #[trigger] (h
                + seq!['+'] + b) && is_version_text(h) && !valid_build_text(b)) by {
                if text@ == h + seq!['+'] + b {
                    assert(text@[h.len() as int] == '+');
                }
            }
        }
        return false;
    }
    let head = text.substring_char(0, i);
    let build = text.substring_char(i + 1, n);
    proof {
        assert(text@ =~= head@ + seq!['+'] + build@);
        // Any split at a `+` with no `+` before it is this one.
        assert forall|h: Seq<char>, b: Seq<char>|
            no_char(h, '+') && text@ == #[trigger] (h + seq!['+'] + b) implies h == head@ && b
            == build@ by {
            assert(h + seq!['+'] + b =~= h + (seq!['+'] + b));
            assert(head@ + seq!['+'] + build@ =~= head@ + (seq!['+'] + build@));
            lemma_split_at_stop(h, seq!['+'] + b, head@, seq!['+'] + build@, |c: char| is_plus(c));
            assert(b =~= (seq!['+'] + b).drop_first());
            assert(build@ =~= (seq!['+'] + build@).drop_first());
        }
    }
    match parse_version_parts(head) {
        Err(_) => false,
        Ok((major, minor, patch, pre, head_build)) => {
            proof {
                lemma_no_plus_no_build(major, minor, patch, pre@, head_build@);
                if build@.len() > 0 && valid_build_text(build@) {
                    assert(head_build@ =~= Seq::<char>::empty());
                    lemma_append_build(major, minor, patch, pre@, build@);
                    assert(is_version_text(text@));
                }
                if build@.len() == 0 {
                    crate::text::lemma_split_dots_nonempty(build@);
                    assert(split_dots(build@) == seq![Seq::<char>::empty()]);
                    assert(!crate::grammar::valid_build_ident(split_dots(build@)[0]));
                }
                assert(!valid_build_text(build@));
                assert(has_bad_build(text@));
            }
            true
        },
    }
}

impl SemanticVersion {
    /// Reads a SemVer 2.0 version whose pre-release, if any, is
    /// `ident.iteration`.
    pub fn parse(text: &str) -> (r: Result<SemanticVersion, VersionError>)
        ensures
            r is Ok <==> is_semantic_version_text(text@),
            r matches Ok(v) ==> v@.wf() && v@.text() == text@,
            r matches Err(e) ==> e == if is_version_text(text@) {
                VersionError::MalformedPrerelease
            } else if has_bad_build(text@) {
                VersionError::MalformedBuild
            } else {
                VersionError::InvalidVersion
            },
    {
        match parse_version_parts(text) {
            Err(_) => {
                proof {
                    assert forall|m: VersionModel| m.wf() implies #[trigger] m.text() != text@ by {
                        lemma_text_parts(m);
                    }
                }
                if build_is_at_fault(text) {
                    Err(VersionError::MalformedBuild)
                } else {
                    Err(VersionError::InvalidVersion)
                }
            },
            Ok((major, minor, patch, pre, build)) => {
                let pre_part = if pre.as_str().is_empty() {
                    None
                } else {
                    match Prerelease::parse(pre.as_str()) {
                        Ok(p) => Some(p),
                        Err(e) => {
                            proof {
                                assert forall|m: VersionModel| m.wf() implies #[trigger] m.text()
                                    != text@ by {
                                    if m.text() == text@ {
                                        lemma_text_parts(m);
                                        lemma_version_text_injective(
                                            major,
                                            minor,
                                            patch,
                                            pre@,
                                            build@,
                                            m.major,
                                            m.minor,
                                            m.patch,
                                            m.pre_text(),
                                            m.build_text(),
                                        );
                                        let q = m.pre->Some_0;
                                        lemma_prerelease_text_valid(q.0, q.1);
                                    }
                                }
                            }
                            return Err(e);
                        },
                    }
                };
                let build_part = if build.as_str().is_empty() {
                    None
                } else {
                    Some(build)
                };
                let v = SemanticVersion { major, minor, patch, pre: pre_part, build: build_part };
                proof {
                    if v.pre is Some {
                        let p = v.pre->Some_0;
                        lemma_parsed_prerelease(pre@, p.ident@, p.iteration);
                    }
                    assert(v@.pre_text() == pre@);
                    assert(v@.build_text() == build@);
                    assert(v@.wf() && v@.text() == text@);
                    assert(is_semantic_version_text(text@));
                }
                Ok(v)
            },
        }
    }

    /// The canonical text of the version.
    #[verifier::rlimit(40)]
    pub fn to_string(&self) -> (r: String)
        ensures
            r@ == self@.text(),
    {
        let mut s = String::new();
        let dot = ".";
        let dash = "-";
        let plus = "+";
        proof {
            reveal_strlit(".");
            reveal_strlit("-");
            reveal_strlit("+");
        }
        push_decimal(&mut s, self.major);
        s.append(dot);
        push_decimal(&mut s, self.minor);
        s.append(dot);
        push_decimal(&mut s, self.patch);
        let ghost head = s@;
        match &self.pre {
            Some(p) => {
                s.append(dash);
                s.append(p.ident.as_str());
                s.append(dot);
                push_decimal(&mut s, p.iteration);
            },
            None => {},
        }
        let ghost mid = s@;
        match &self.build {
            Some(b) => {
                if !b.as_str().is_empty() {
                    s.append(plus);
                    s.append(b.as_str());
                }
            },
            None => {},
        }
        proof {
            let m = self@;
            assert(mid =~= head + crate::grammar::pre_suffix(m.pre_text()));
            assert(s@ =~= mid + crate::grammar::build_suffix(m.build_text()));
            assert(s@ =~= m.text());
        }
        s
    }

    pub fn major(&self) -> (r: u64)
        ensures
            r == self.major,
    {
        self.major
    }

    pub fn minor(&self) -> (r: u64)
        ensures
            r == self.minor,
    {
        self.minor
    }

    pub fn patch(&self) -> (r: u64)
        ensures
            r == self.patch,
    {
        self.patch
    }

    /// The pre-release, if the version has one.
    pub fn prerelease(&self) -> (r: Option<Prerelease>)
        ensures
            r matches Some(p) ==> self@.pre == Some(p@),
            r is None <==> self@.pre is None,
    {
        match &self.pre {
            Some(p) => Some(Prerelease { ident: p.ident.clone(), iteration: p.iteration }),
            None => None,
        }
    }

    pub fn is_prerelease(&self) -> (r: bool)
        ensures
            r == (self@.state() == State::Prerelease),
    {
        self.pre.is_some()
    }

    /// Release or pre-release.
    pub fn state(&self) -> (r: State)
        ensures
            r == self@.state(),
    {
        if self.is_prerelease() {
            State::Prerelease
        } else {
            State::Release
        }
    }

    /// The build metadata, if the version has any.
    pub fn build(&self) -> (r: Option<String>)
        ensures
            opt_view(r) == self@.build,
    {
        match &self.build {
            Some(b) => Some(b.clone()),
            None => None,
        }
    }

    /// The same version without its pre-release.
    pub fn clear_prerelease(self) -> (r: Result<Self, VersionError>)
        ensures
            result_model(r) == Ok::<VersionModel, VersionError>(self@.cleared()),
    {
        Ok(SemanticVersion { pre: None, ..self })
    }

    /// The same version with its build metadata replaced; `None` or empty
    /// text clears it.
    pub fn with_build(self, metadata: Option<String>) -> (r: Result<Self, VersionError>)
        ensures
            result_model(r) == self@.with_build(opt_view(metadata)),
    {
        match metadata {
            None => Ok(SemanticVersion { build: None, ..self }),
            Some(m) => {
                match check_build_metadata(m.as_str()) {
                    Err(_) => Err(VersionError::MalformedBuild),
                    Ok(()) => {
                        if m.as_str().is_empty() {
                            Ok(SemanticVersion { build: None, ..self })
                        } else {
                            Ok(SemanticVersion { build: Some(m), ..self })
                        }
                    },
                }
            },
        }
    }

    /// The same version with the given pre-release, which must hold a valid
    /// identifier.
    pub fn with_prerelease(self, prerelease: Prerelease) -> (r: Result<Self, VersionError>)
        ensures
            result_model(r) == if prerelease.wf() {
                Ok::<VersionModel, VersionError>(
                    self@.with_pre(prerelease.ident@, prerelease.iteration),
                )
            } else {
                Err(VersionError::MalformedPrerelease)
            },
    {
        if !prerelease.is_valid() {
            return Err(VersionError::MalformedPrerelease);
        }
        Ok(SemanticVersion { pre: Some(prerelease), ..self })
    }

    /// The next major, minor or patch version, with no pre-release and no
    /// build metadata.
    pub fn bump_level(self, level: ReleaseLevel) -> (r: Result<Self, VersionError>)
        ensures
            result_model(r) == match self@.bumped(level) {
                Some(m) => Ok::<VersionModel, VersionError>(m),
                None => Err(VersionError::Overflow),
            },
    {
        match level {
            ReleaseLevel::Major => {
                if self.major == u64::MAX {
                    return Err(VersionError::Overflow);
                }
                Ok(
                    SemanticVersion {
                        major: self.major + 1,
                        minor: 0,
                        patch: 0,
                        pre: None,
                        build: None,
                    },
                )
            },
            ReleaseLevel::Minor => {
                if self.minor == u64::MAX {
                    return Err(VersionError::Overflow);
                }
                Ok(
                    SemanticVersion {
                        major: self.major,
                        minor: self.minor + 1,
                        patch: 0,
                        pre: None,
                        build: None,
                    },
                )
            },
            ReleaseLevel::Patch => {
                if self.patch == u64::MAX {
                    return Err(VersionError::Overflow);
                }
                Ok(
                    SemanticVersion {
                        major: self.major,
                        minor: self.minor,
                        patch: self.patch + 1,
                        pre: None,
                        build: None,
                    },
                )
            },
        }
    }
}

/// Canonical text round trip: the text of a well-formed version reads back
/// (some version has it), and only that version has it; so reading a text and
/// writing the result gives the text, and writing a version and reading the
/// text gives the version.
pub proof fn lemma_round_trip(v: VersionModel)
    requires
        v.wf(),
    ensures
        is_semantic_version_text(v.text()),
        forall|w: VersionModel| w.wf() && #[trigger] w.text() == v.text() ==> w == v,
{
    assert forall|w: VersionModel| w.wf() && #[trigger] w.text() == v.text() implies w == v by {
        lemma_text_injective(w, v);
    }
}

/// Clearing the pre-release twice is clearing it once.
pub proof fn lemma_clear_idempotent(v: VersionModel)
    ensures
        v.cleared().cleared() == v.cleared(),
        v.cleared().state() == State::Release,
{
}

/// A bump gives a version of higher precedence, with the lower numbers reset
/// to zero; it fails only where the bumped number is already the largest.
pub proof fn lemma_bump_monotonic(v: VersionModel, level: ReleaseLevel)
    requires
        v.bumped(level) is Some,
    ensures
        v.precedes(v.bumped(level)->Some_0),
        level == ReleaseLevel::Minor ==> v.bumped(level)->Some_0.patch == 0,
        level == ReleaseLevel::Major ==> v.bumped(level)->Some_0.minor == 0
            && v.bumped(level)->Some_0.patch == 0,
        v.bumped(level)->Some_0.wf(),
{
}

} // verus!
