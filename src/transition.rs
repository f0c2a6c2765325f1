//! The transitions between versions: which are allowed from which state, and
//! what each one makes of a version.
use crate::grammar::{pre_lt, valid_pre_ident};
use crate::semantic_version::{
    Prerelease, ReleaseLevel, SemanticVersion, State, VersionError, VersionModel,
    lemma_prerelease_text_valid, opt_view, prerelease_text, result_model,
};
use crate::semver_calls::prerelease_lt;
use vstd::prelude::*;

verus! {

/// A transition that the current version's state does not allow.
#[derive(Debug, Clone, Copy, PartialEq, Eq, Structural)]
pub enum TransitionError {
    StartPrereleaseFromPrerelease,
    IncrementPrereleaseFromRelease,
    FinalizeReleaseFromRelease,
    BumpReleaseFromPrerelease,
    TransitionPrereleaseFromRelease,
}

#[derive(Debug, Clone, Copy, PartialEq, Eq, Structural)]
pub enum TransitionKind {
    StartPrerelease,
    IncrementPrerelease,
    TransitionPrerelease,
    FinalizeRelease,
    BumpRelease,
}

/// A requested transition with what it needs; `metadata` replaces the build
/// metadata (`None` clears it).
#[derive(Debug)]
pub enum TransitionInput {
    /// Bump the level, then start pre-release `pre` at iteration 1.
    StartPrerelease { level: ReleaseLevel, pre: String, metadata: Option<String> },
    /// Next iteration of the current pre-release.
    IncrementPrerelease { metadata: Option<String> },
    /// Move on to pre-release `pre` at iteration 1.
    TransitionPrerelease { pre: String, metadata: Option<String> },
    /// Drop the pre-release.
    FinalizeRelease { metadata: Option<String> },
    /// Bump the level of a release.
    BumpRelease { level: ReleaseLevel, metadata: Option<String> },
}

pub type SemverTransition = TransitionInput;

/// The legality table: `None` where the transition is allowed from the
/// state, else the error that names the state it needs.
pub open spec fn grammar(from: State, kind: TransitionKind) -> Option<TransitionError> {
    match (from, kind) {
        (State::Release, TransitionKind::StartPrerelease) => None,
        (State::Release, TransitionKind::BumpRelease) => None,
        (State::Prerelease, TransitionKind::IncrementPrerelease) => None,
        (State::Prerelease, TransitionKind::TransitionPrerelease) => None,
        (State::Prerelease, TransitionKind::FinalizeRelease) => None,
        (State::Prerelease, TransitionKind::StartPrerelease) => Some(
            TransitionError::StartPrereleaseFromPrerelease,
        ),
        (State::Release, TransitionKind::IncrementPrerelease) => Some(
            TransitionError::IncrementPrereleaseFromRelease,
        ),
        (State::Release, TransitionKind::FinalizeRelease) => Some(
            TransitionError::FinalizeReleaseFromRelease,
        ),
        (State::Prerelease, TransitionKind::BumpRelease) => Some(
            TransitionError::BumpReleaseFromPrerelease,
        ),
        (State::Release, TransitionKind::TransitionPrerelease) => Some(
            TransitionError::TransitionPrereleaseFromRelease,
        ),
    }
}

impl TransitionInput {
    pub open spec fn kind_of(&self) -> TransitionKind {
        match self {
            TransitionInput::StartPrerelease { .. } => TransitionKind::StartPrerelease,
            TransitionInput::IncrementPrerelease { .. } => TransitionKind::IncrementPrerelease,
            TransitionInput::TransitionPrerelease { .. } => TransitionKind::TransitionPrerelease,
            TransitionInput::FinalizeRelease { .. } => TransitionKind::FinalizeRelease,
            TransitionInput::BumpRelease { .. } => TransitionKind::BumpRelease,
        }
    }

    pub fn kind(&self) -> (r: TransitionKind)
        ensures
            r == self.kind_of(),
    {
        match self {
            TransitionInput::BumpRelease { .. } => TransitionKind::BumpRelease,
            TransitionInput::FinalizeRelease { .. } => TransitionKind::FinalizeRelease,
            TransitionInput::IncrementPrerelease { .. } => TransitionKind::IncrementPrerelease,
            TransitionInput::StartPrerelease { .. } => TransitionKind::StartPrerelease,
            TransitionInput::TransitionPrerelease { .. } => TransitionKind::TransitionPrerelease,
        }
    }
}

/// What a transition makes of a version, the legality table aside.
pub open spec fn transform(m: VersionModel, t: TransitionInput) -> Result<VersionModel, VersionError> {
    match t {
        TransitionInput::StartPrerelease { level, pre, metadata } => match m.bumped(level) {
            None => Err(VersionError::Overflow),
            Some(b) => if valid_pre_ident(pre@) {
                b.with_pre(pre@, 1).with_build(opt_view(metadata))
            } else {
                Err(VersionError::MalformedPrerelease)
            },
        },
        TransitionInput::IncrementPrerelease { metadata } => match m.pre {
            None => Err(VersionError::Transition(TransitionError::IncrementPrereleaseFromRelease)),
            Some(p) => if p.1 == u64::MAX {
                Err(VersionError::Overflow)
            } else {
                m.with_pre(p.0, (p.1 + 1) as u64).with_build(opt_view(metadata))
            },
        },
        TransitionInput::TransitionPrerelease { pre, metadata } => match m.pre {
            None => Err(VersionError::Transition(TransitionError::TransitionPrereleaseFromRelease)),
            Some(p) => if !valid_pre_ident(pre@) {
                Err(VersionError::MalformedPrerelease)
            } else if !pre_lt(prerelease_text(p.0, p.1), prerelease_text(pre@, 1)) {
                Err(VersionError::PrereleaseNotAdvancing)
            } else {
                m.with_pre(pre@, 1).with_build(opt_view(metadata))
            },
        },
        TransitionInput::FinalizeRelease { metadata } => m.cleared().with_build(opt_view(metadata)),
        TransitionInput::BumpRelease { level, metadata } => match m.bumped(level) {
            None => Err(VersionError::Overflow),
            Some(b) => b.with_build(opt_view(metadata)),
        },
    }
}

/// A transition checked against the legality table, then applied.
pub open spec fn apply_transition(m: VersionModel, t: TransitionInput) -> Result<
    VersionModel,
    VersionError,
> {
    match grammar(m.state(), t.kind_of()) {
        Some(e) => Err(VersionError::Transition(e)),
        None => transform(m, t),
    }
}

/// Checks a transition kind against the legality table.
pub fn validate(from: &State, t: &TransitionKind) -> (r: Result<(), TransitionError>)
    ensures
        r == match grammar(*from, *t) {
            None => Ok::<(), TransitionError>(()),
            Some(e) => Err(e),
        },
{
    let err = match (from, t) {
        (State::Release, TransitionKind::StartPrerelease)
        | (State::Prerelease, TransitionKind::IncrementPrerelease)
        | (State::Prerelease, TransitionKind::TransitionPrerelease)
        | (State::Prerelease, TransitionKind::FinalizeRelease)
        | (State::Release, TransitionKind::BumpRelease) => return Ok(()),
        (State::Prerelease, TransitionKind::StartPrerelease) => {
            TransitionError::StartPrereleaseFromPrerelease
        },
        (State::Release, TransitionKind::IncrementPrerelease) => {
            TransitionError::IncrementPrereleaseFromRelease
        },
        (State::Release, TransitionKind::FinalizeRelease) => {
            TransitionError::FinalizeReleaseFromRelease
        },
        (State::Prerelease, TransitionKind::BumpRelease) => {
            TransitionError::BumpReleaseFromPrerelease
        },
        (State::Release, TransitionKind::TransitionPrerelease) => {
            TransitionError::TransitionPrereleaseFromRelease
        },
    };
    Err(err)
}

/// The explanation of each refusal.
pub open spec fn transition_message(e: TransitionError) -> Seq<char> {
    match e {
        TransitionError::StartPrereleaseFromPrerelease => "You can only start a new pre-release from a release-level version (e.g., 1.2.3)."@,
        TransitionError::IncrementPrereleaseFromRelease => "You can only increment a pre-release from an existing pre-release version."@,
        TransitionError::FinalizeReleaseFromRelease => "Can only finalize release from a prerelease version."@,
        TransitionError::BumpReleaseFromPrerelease => "Cannot bump version line of a pre-release version."@,
        TransitionError::TransitionPrereleaseFromRelease => "You can only transition from one prerelease to another prerelease."@,
    }
}

impl TransitionError {
    /// The explanation shown to the user.
    pub fn message(&self) -> (r: &'static str)
        ensures
            r@ == transition_message(*self),
    {
        match self {
            TransitionError::StartPrereleaseFromPrerelease => {
                "You can only start a new pre-release from a release-level version (e.g., 1.2.3)."
            },
            TransitionError::IncrementPrereleaseFromRelease => {
                "You can only increment a pre-release from an existing pre-release version."
            },
            TransitionError::FinalizeReleaseFromRelease => {
                "Can only finalize release from a prerelease version."
            },
            TransitionError::BumpReleaseFromPrerelease => {
                "Cannot bump version line of a pre-release version."
            },
            TransitionError::TransitionPrereleaseFromRelease => {
                "You can only transition from one prerelease to another prerelease."
            },
        }
    }
}

impl SemanticVersion {
    fn duplicate(&self) -> (r: SemanticVersion)
        ensures
            r@ == self@,
    {
        SemanticVersion {
            major: self.major,
            minor: self.minor,
            patch: self.patch,
            pre: self.prerelease(),
            build: self.build(),
        }
    }

    /// Checks the transition against the legality table from the version's
    /// state, then applies it.
    pub fn apply(&self, transition: TransitionInput) -> (r: Result<SemanticVersion, VersionError>)
        requires
            self@.wf(),
        ensures
            result_model(r) == apply_transition(self@, transition),
            r matches Ok(v) ==> v@.wf(),
    {
        let from = self.state();
        let kind = transition.kind();
        match validate(&from, &kind) {
            Err(e) => Err(VersionError::Transition(e)),
            Ok(()) => self.apply_unchecked(transition),
        }
    }

    /// Applies the transition without the legality table; a transition that
    /// needs a pre-release still fails on a release.
    pub fn apply_unchecked(&self, transition: TransitionInput) -> (r: Result<
        SemanticVersion,
        VersionError,
    >)
        requires
            self@.wf(),
        ensures
            result_model(r) == transform(self@, transition),
            r matches Ok(v) ==> v@.wf(),
    {
        match transition {
            TransitionInput::StartPrerelease { level, pre, metadata } => self.start_prerelease(
                level,
                pre,
                metadata,
            ),
            TransitionInput::IncrementPrerelease { metadata } => self.increment_prerelease(
                metadata,
            ),
            TransitionInput::TransitionPrerelease { pre, metadata } => self.transition_prerelease(
                pre,
                metadata,
            ),
            TransitionInput::FinalizeRelease { metadata } => self.finalize_release(metadata),
            TransitionInput::BumpRelease { level, metadata } => self.bump_release(level, metadata),
        }
    }

    fn start_prerelease(&self, level: ReleaseLevel, pre: String, metadata: Option<String>) -> (r:
        Result<Self, VersionError>)
        requires
            self@.wf(),
        ensures
            result_model(r) == transform(
                self@,
                TransitionInput::StartPrerelease { level, pre, metadata },
            ),
            r matches Ok(v) ==> v@.wf(),
    {
        let bumped = match self.duplicate().bump_level(level) {
            Ok(v) => v,
            Err(e) => return Err(e),
        };
        let with_pre = match bumped.with_prerelease(Prerelease { ident: pre, iteration: 1 }) {
            Ok(v) => v,
            Err(e) => return Err(e),
        };
        with_pre.with_build(metadata)
    }

    fn increment_prerelease(&self, metadata: Option<String>) -> (r: Result<Self, VersionError>)
        requires
            self@.wf(),
        ensures
            result_model(r) == transform(self@, TransitionInput::IncrementPrerelease { metadata }),
            r matches Ok(v) ==> v@.wf(),
    {
        let next = match self.prerelease() {
            Some(p) => {
                if p.iteration == u64::MAX {
                    return Err(VersionError::Overflow);
                }
                p.increment()
            },
            None => {
                return Err(
                    VersionError::Transition(TransitionError::IncrementPrereleaseFromRelease),
                );
            },
        };
        let with_pre = match self.duplicate().with_prerelease(next) {
            Ok(v) => v,
            Err(e) => return Err(e),
        };
        with_pre.with_build(metadata)
    }

    fn transition_prerelease(&self, pre: String, metadata: Option<String>) -> (r: Result<
        Self,
        VersionError,
    >)
        requires
            self@.wf(),
        ensures
            result_model(r) == transform(
                self@,
                TransitionInput::TransitionPrerelease { pre, metadata },
            ),
            r matches Ok(v) ==> v@.wf(),
    {
        let new_prerelease = Prerelease { ident: pre, iteration: 1 };
        let old_prerelease = match self.prerelease() {
            Some(p) => p,
            None => {
                return Err(
                    VersionError::Transition(TransitionError::TransitionPrereleaseFromRelease),
                );
            },
        };
        if !new_prerelease.is_valid() {
            return Err(VersionError::MalformedPrerelease);
        }
        let old_text = old_prerelease.to_string();
        let new_text = new_prerelease.to_string();
        proof {
            lemma_prerelease_text_valid(old_prerelease.ident@, old_prerelease.iteration);
            lemma_prerelease_text_valid(new_prerelease.ident@, new_prerelease.iteration);
        }
        if !prerelease_lt(old_text.as_str(), new_text.as_str()) {
            return Err(VersionError::PrereleaseNotAdvancing);
        }
        let with_pre = match self.duplicate().with_prerelease(new_prerelease) {
            Ok(v) => v,
            Err(e) => return Err(e),
        };
        with_pre.with_build(metadata)
    }

    fn finalize_release(&self, metadata: Option<String>) -> (r: Result<Self, VersionError>)
        requires
            self@.wf(),
        ensures
            result_model(r) == transform(self@, TransitionInput::FinalizeRelease { metadata }),
            r matches Ok(v) ==> v@.wf(),
    {
        let cleared = match self.duplicate().clear_prerelease() {
            Ok(v) => v,
            Err(e) => return Err(e),
        };
        cleared.with_build(metadata)
    }

    fn bump_release(&self, level: ReleaseLevel, metadata: Option<String>) -> (r: Result<
        Self,
        VersionError,
    >)
        requires
            self@.wf(),
        ensures
            result_model(r) == transform(self@, TransitionInput::BumpRelease { level, metadata }),
            r matches Ok(v) ==> v@.wf(),
    {
        let bumped = match self.duplicate().bump_level(level) {
            Ok(v) => v,
            Err(e) => return Err(e),
        };
        bumped.with_build(metadata)
    }
}

/// Each of the ten pairs of state and transition kind is either allowed or
/// refused with an error of its own: exactly the pairs (release, start a
/// pre-release), (release, bump), and the three pre-release transitions from
/// a pre-release are allowed, and no two refused pairs share an error.
pub proof fn lemma_grammar_total(s1: State, k1: TransitionKind, s2: State, k2: TransitionKind)
    ensures
        grammar(s1, k1) is None <==> ((s1 == State::Release) == (k1 == TransitionKind::StartPrerelease
            || k1 == TransitionKind::BumpRelease)),
        (grammar(s1, k1) is Some && grammar(s1, k1) == grammar(s2, k2)) ==> (s1 == s2 && k1 == k2),
{
}

/// From a pre-release, moving to pre-release `pre` succeeds exactly when
/// `pre.1` comes after the current pre-release (given a valid identifier and
/// valid build metadata), and then gives `pre.1`.
pub proof fn lemma_prerelease_advancement(m: VersionModel, pre: String, metadata: Option<String>)
    requires
        m.wf(),
        m.state() == State::Prerelease,
        valid_pre_ident(pre@),
        m.with_build(opt_view(metadata)) is Ok,
    ensures
        apply_transition(m, TransitionInput::TransitionPrerelease { pre, metadata }) is Ok
            <==> pre_lt(m.pre_text(), prerelease_text(pre@, 1)),
        apply_transition(m, TransitionInput::TransitionPrerelease { pre, metadata }) matches Ok(
            n,
        ) ==> n.pre == Some((pre@, 1u64)),
{
}

} // verus!
