use vstd::prelude::*;
use vstd::string::*;

verus! {

/// `s` with every `-` turned into `_`.
pub open spec fn underscored(s: Seq<char>) -> Seq<char> {
    s.map_values(|c: char| if c == '-' { '_' } else { c })
}

/// Relies on `str::replace`: `s` with each `-` replaced by `_`.
#[verifier::external_body]
pub(crate) fn replace_hyphens(s: &str) -> (r: String)
    ensures
        r@ == underscored(s@),
{
    s.replace('-', "_")
}

/// A package of the workspace: its name, and the features that the build
/// resolved for it, when the metadata says.
#[derive(Clone, Debug)]
pub struct PackageInfo {
    pub name: String,
    pub features: Option<Vec<String>>,
}

/// What the library needs to know of a workspace: its root directory, its
/// build output directory, and its packages (members and dependencies).
#[derive(Clone, Debug)]
pub struct Workspace {
    pub root: String,
    pub target_dir: String,
    pub packages: Vec<PackageInfo>,
}

/// The first package named exactly `name`.
pub open spec fn exact_package(pkgs: Seq<PackageInfo>, name: Seq<char>) -> Option<int>
    decreases pkgs.len(),
{
    if pkgs.len() == 0 {
        None
    } else if pkgs[0].name@ == name {
        Some(0)
    } else {
        match exact_package(pkgs.drop_first(), name) {
            Some(i) => Some(i + 1),
            None => None,
        }
    }
}

/// The first package whose name, with `-` read as `_`, is `name`.
pub open spec fn underscored_package(pkgs: Seq<PackageInfo>, name: Seq<char>) -> Option<int>
    decreases pkgs.len(),
{
    if pkgs.len() == 0 {
        None
    } else if underscored(pkgs[0].name@) == name {
        Some(0)
    } else {
        match underscored_package(pkgs.drop_first(), name) {
            Some(i) => Some(i + 1),
            None => None,
        }
    }
}

/// The package a library name resolves to: an exact match first, else a
/// match after separator normalisation.
pub open spec fn resolve_package(pkgs: Seq<PackageInfo>, name: Seq<char>) -> Option<int> {
    match exact_package(pkgs, name) {
        Some(i) => Some(i),
        None => underscored_package(pkgs, name),
    }
}

impl Workspace {
    /// The names of all packages of the workspace, dependencies included.
    pub fn get_dependencies(&self) -> (r: Vec<String>)
        ensures
            r@.len() == self.packages@.len(),
            forall|i: int| 0 <= i < r@.len() ==> #[trigger] r@[i]@ == self.packages@[i].name@,
    {
        let mut r: Vec<String> = Vec::new();
        let mut i: usize = 0;
        while i < self.packages.len()
            invariant
                i <= self.packages.len(),
                r@.len() == i,
                forall|k: int| 0 <= k < i ==> #[trigger] r@[k]@ == self.packages@[k].name@,
            decreases self.packages.len() - i,
        {
            r.push(self.packages[i].name.clone());
            i = i + 1;
        }
        r
    }

    /// The package that `crate_name` resolves to.
    pub fn find_package(&self, crate_name: &str) -> (r: Option<usize>)
        ensures
            match r {
                Some(i) => resolve_package(self.packages@, crate_name@) == Some(i as int) && i
                    < self.packages@.len(),
                None => resolve_package(self.packages@, crate_name@) is None,
            },
    {
        let name = String::from_str(crate_name);
        let mut i: usize = 0;
        while i < self.packages.len()
            invariant
                i <= self.packages.len(),
                name@ == crate_name@,
                forall|k: int| 0 <= k < i ==> #[trigger] self.packages@[k].name@ != crate_name@,
            decreases self.packages.len() - i,
        {
            if self.packages[i].name == name {
                proof {
                    lemma_exact_first(self.packages@, crate_name@, i as int);
                }
                return Some(i);
            }
            i = i + 1;
        }
        proof {
            lemma_exact_none(self.packages@, crate_name@);
        }
        let mut j: usize = 0;
        while j < self.packages.len()
            invariant
                j <= self.packages.len(),
                name@ == crate_name@,
                exact_package(self.packages@, crate_name@) is None,
                forall|k: int| 0 <= k < j ==> underscored(#[trigger] self.packages@[k].name@) != crate_name@,
            decreases self.packages.len() - j,
        {
            let u = replace_hyphens(self.packages[j].name.as_str());
            if u == name {
                proof {
                    lemma_underscored_first(self.packages@, crate_name@, j as int);
                }
                return Some(j);
            }
            j = j + 1;
        }
        proof {
            lemma_underscored_none(self.packages@, crate_name@);
        }
        None
    }
}

proof fn lemma_exact_first(pkgs: Seq<PackageInfo>, name: Seq<char>, i: int)
    requires
        0 <= i < pkgs.len(),
        pkgs[i].name@ == name,
        forall|k: int| 0 <= k < i ==> #[trigger] pkgs[k].name@ != name,
    ensures
        exact_package(pkgs, name) == Some(i),
    decreases i,
{
    if i > 0 {
        lemma_exact_first(pkgs.drop_first(), name, i - 1);
    }
}

proof fn lemma_exact_none(pkgs: Seq<PackageInfo>, name: Seq<char>)
    requires
        forall|k: int| 0 <= k < pkgs.len() ==> #[trigger] pkgs[k].name@ != name,
    ensures
        exact_package(pkgs, name) is None,
    decreases pkgs.len(),
{
    if pkgs.len() > 0 {
        lemma_exact_none(pkgs.drop_first(), name);
    }
}

proof fn lemma_underscored_first(pkgs: Seq<PackageInfo>, name: Seq<char>, i: int)
    requires
        0 <= i < pkgs.len(),
        underscored(pkgs[i].name@) == name,
        forall|k: int| 0 <= k < i ==> underscored(#[trigger] pkgs[k].name@) != name,
    ensures
        underscored_package(pkgs, name) == Some(i),
    decreases i,
{
    if i > 0 {
        lemma_underscored_first(pkgs.drop_first(), name, i - 1);
    }
}

proof fn lemma_underscored_none(pkgs: Seq<PackageInfo>, name: Seq<char>)
    requires
        forall|k: int| 0 <= k < pkgs.len() ==> underscored(#[trigger] pkgs[k].name@) != name,
    ensures
        underscored_package(pkgs, name) is None,
    decreases pkgs.len(),
{
    if pkgs.len() > 0 {
        lemma_underscored_none(pkgs.drop_first(), name);
    }
}

} // verus!
