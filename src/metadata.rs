//! The packages of a workspace, and which of them a command selects.
use crate::current_version::SelectionError;
use vstd::prelude::*;

verus! {

/// One package: its name and whether it is a workspace member.
#[derive(Debug, Clone)]
pub struct PackageInfo {
    pub name: String,
    pub is_member: bool,
}

/// The packages that the workspace knows, and the root package, if any.
#[derive(Debug, Clone)]
pub struct Metadata {
    pub packages: Vec<PackageInfo>,
    pub root: Option<usize>,
}

/// The positions of the workspace members among the first `n` packages.
pub open spec fn members_upto(p: Seq<PackageInfo>, n: int) -> Seq<usize>
    decreases n,
{
    if n <= 0 {
        Seq::empty()
    } else if p[n - 1].is_member {
        members_upto(p, n - 1).push((n - 1) as usize)
    } else {
        members_upto(p, n - 1)
    }
}

pub open spec fn members(p: Seq<PackageInfo>) -> Seq<usize> {
    members_upto(p, p.len() as int)
}

/// `i` is the first package named `name`.
pub open spec fn first_named(p: Seq<PackageInfo>, name: Seq<char>, i: int) -> bool {
    0 <= i < p.len() && p[i].name@ == name && forall|k: int| 0 <= k < i ==> (#[trigger] p[k]).name@ != name
}

pub open spec fn has_named(p: Seq<PackageInfo>, name: Seq<char>) -> bool {
    exists|i: int| 0 <= i < p.len() && (#[trigger] p[i]).name@ == name
}

impl Metadata {
    /// The root package, if any, is one of the packages.
    pub open spec fn wf(&self) -> bool {
        self.root matches Some(i) ==> i < self.packages@.len()
    }

    fn workspace_members(&self) -> (r: Vec<usize>)
        ensures
            r@ == members(self.packages@),
    {
        let mut out: Vec<usize> = Vec::new();
        let mut i: usize = 0;
        while i < self.packages.len()
            invariant
                i <= self.packages@.len(),
                out@ == members_upto(self.packages@, i as int),
            decreases self.packages@.len() - i,
        {
            if self.packages[i].is_member {
                out.push(i);
            }
            i = i + 1;
        }
        out
    }

    fn find_package(&self, name: &String) -> (r: Option<usize>)
        ensures
            match r {
                Some(i) => first_named(self.packages@, name@, i as int),
                None => !has_named(self.packages@, name@),
            },
    {
        let mut i: usize = 0;
        while i < self.packages.len()
            invariant
                i <= self.packages@.len(),
                forall|k: int| 0 <= k < i ==> (#[trigger] self.packages@[k]).name@ != name@,
            decreases self.packages@.len() - i,
        {
            if self.packages[i].name == *name {
                return Some(i);
            }
            i = i + 1;
        }
        None
    }

    /// The packages a command works on: every member with `--workspace`;
    /// the named ones, in order, with `--package`; otherwise the root
    /// package, or every member where there is no root.
    pub fn select_packages(&self, workspace: bool, packages: &Vec<String>) -> (r: Result<
        Vec<usize>,
        SelectionError,
    >)
        requires
            self.wf(),
        ensures
            workspace && packages@.len() > 0 ==> r == Err::<Vec<usize>, SelectionError>(
                SelectionError::WorkspaceWithPackage,
            ),
            workspace && packages@.len() == 0 ==> (r matches Ok(v) && v@ == members(
                self.packages@,
            )),
            !workspace && packages@.len() == 0 ==> (r matches Ok(v) && v@ == match self.root {
                Some(i) => seq![i],
                None => members(self.packages@),
            }),
            !workspace && packages@.len() > 0 ==> match r {
                Ok(v) => v@.len() == packages@.len() && forall|j: int|
                    0 <= j < packages@.len() ==> first_named(
                        self.packages@,
                        (#[trigger] packages@[j])@,
                        v@[j] as int,
                    ),
                Err(e) => e matches SelectionError::PackageNotFound(j) && j < packages@.len()
                    && !has_named(self.packages@, packages@[j as int]@) && forall|k: int|
                    0 <= k < j ==> has_named(self.packages@, (#[trigger] packages@[k])@),
            },
    {
        if workspace {
            if packages.len() > 0 {
                return Err(SelectionError::WorkspaceWithPackage);
            }
            return Ok(self.workspace_members());
        }
        if packages.len() == 0 {
            return match self.root {
                Some(i) => Ok(vec![i]),
                None => Ok(self.workspace_members()),
            };
        }
        let mut out: Vec<usize> = Vec::new();
        let mut j: usize = 0;
        while j < packages.len()
            invariant
                j <= packages@.len(),
                !workspace,
                packages@.len() > 0,
                out@.len() == j,
                forall|k: int|
                    0 <= k < j ==> first_named(
                        self.packages@,
                        (#[trigger] packages@[k])@,
                        out@[k] as int,
                    ),
            decreases packages@.len() - j,
        {
            match self.find_package(&packages[j]) {
                Some(i) => out.push(i),
                None => {
                    assert forall|k: int| 0 <= k < j implies has_named(
                        self.packages@,
                        (#[trigger] packages@[k])@,
                    ) by {
                        assert(first_named(self.packages@, packages@[k]@, out@[k] as int));
                    }
                    return Err(SelectionError::PackageNotFound(j));
                },
            }
            j = j + 1;
        }
        Ok(out)
    }
}

} // verus!
