//! The decisions of a bump across packages: compute every new version before
//! anything is written, then which dependents to update.
use crate::cli::{BumpArgs, transition_of};
use crate::semantic_version::{SemanticVersion, VersionError};
use crate::transition::apply_transition;
use vstd::prelude::*;

verus! {

/// The new version of every selected package, in order; the first failure
/// stops the whole batch, so that nothing is written from a partial one.
pub fn plan_bumps(current: &Vec<SemanticVersion>, args: &BumpArgs) -> (r: Result<
    Vec<SemanticVersion>,
    VersionError,
>)
    requires
        forall|i: int| 0 <= i < current@.len() ==> (#[trigger] current@[i])@.wf(),
    ensures
        r is Ok <==> forall|i: int|
            0 <= i < current@.len() ==> #[trigger] apply_transition(
                current@[i]@,
                transition_of(args.target),
            ) is Ok,
        r matches Ok(next) ==> {
            &&& next@.len() == current@.len()
            &&& forall|i: int|
                0 <= i < current@.len() ==> apply_transition(
                    #[trigger] current@[i]@,
                    transition_of(args.target),
                ) == Ok::<_, VersionError>(next@[i]@)
            &&& forall|i: int| 0 <= i < next@.len() ==> (#[trigger] next@[i])@.wf()
        },
        r matches Err(e) ==> exists|k: int|
            0 <= k < current@.len() && #[trigger] apply_transition(
                current@[k]@,
                transition_of(args.target),
            ) == Err::<crate::semantic_version::VersionModel, _>(e),
{
    let mut next: Vec<SemanticVersion> = Vec::new();
    let mut i: usize = 0;
    while i < current.len()
        invariant
            i <= current@.len(),
            next@.len() == i,
            forall|k: int| 0 <= k < current@.len() ==> (#[trigger] current@[k])@.wf(),
            forall|k: int|
                0 <= k < i ==> apply_transition(
                    #[trigger] current@[k]@,
                    transition_of(args.target),
                ) == Ok::<_, VersionError>(next@[k]@),
            forall|k: int| 0 <= k < next@.len() ==> (#[trigger] next@[k])@.wf(),
        decreases current@.len() - i,
    {
        let t = args.transition();
        match current[i].apply(t) {
            Ok(v) => {
                next.push(v);
            },
            Err(e) => {
                assert(apply_transition(current@[i as int]@, transition_of(args.target)) == Err::<
                    crate::semantic_version::VersionModel,
                    _,
                >(e));
                return Err(e);
            },
        }
        i = i + 1;
    }
    Ok(next)
}

/// Dependents are updated only for a workspace-wide bump or one of several
/// packages, and not when turned off.
pub fn should_propagate(no_propagate: bool, workspace: bool, selected: usize) -> (r: bool)
    ensures
        r == (!no_propagate && (workspace || selected > 1)),
{
    !no_propagate && (workspace || selected > 1)
}

/// Which bumped package a dependency entry refers to: the last of `bumped`
/// with the dependency's name, and only for a path dependency.
pub fn bumped_dependency(bumped: &Vec<String>, dep_name: &String, is_path_dep: bool) -> (r:
    Option<usize>)
    ensures
        !is_path_dep ==> r is None,
        is_path_dep ==> match r {
            Some(i) => i < bumped@.len() && bumped@[i as int]@ == dep_name@ && forall|k: int|
                i < k < bumped@.len() ==> (#[trigger] bumped@[k])@ != dep_name@,
            None => forall|k: int| 0 <= k < bumped@.len() ==> (#[trigger] bumped@[k])@ != dep_name@,
        },
{
    if !is_path_dep {
        return None;
    }
    let mut i: usize = bumped.len();
    while i > 0
        invariant
            i <= bumped@.len(),
            is_path_dep,
            forall|k: int| i <= k < bumped@.len() ==> (#[trigger] bumped@[k])@ != dep_name@,
        decreases i,
    {
        if bumped[i - 1] == *dep_name {
            return Some(i - 1);
        }
        i = i - 1;
    }
    None
}

} // verus!
