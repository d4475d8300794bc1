//! Source paths, which are the same where they agree component by component.
use vstd::prelude::*;

verus! {

/// One component of a path, as its platform takes the path apart. Separators are no part of it, so
/// doubled and trailing ones make no difference.
#[derive(Debug)]
pub enum PathPart {
    Prefix(String),
    RootDir,
    CurDir,
    ParentDir,
    Normal(String),
}

/// The mathematical value of a [`PathPart`].
pub enum PartModel {
    Prefix(Seq<char>),
    RootDir,
    CurDir,
    ParentDir,
    Normal(Seq<char>),
}

/// The mathematical value of a [`SourcePath`].
pub type PathModel = Seq<PartModel>;

impl View for PathPart {
    type V = PartModel;

    open spec fn view(&self) -> PartModel {
        match self {
            PathPart::Prefix(text) => PartModel::Prefix(text@),
            PathPart::RootDir => PartModel::RootDir,
            PathPart::CurDir => PartModel::CurDir,
            PathPart::ParentDir => PartModel::ParentDir,
            PathPart::Normal(text) => PartModel::Normal(text@),
        }
    }
}

impl PathPart {
    pub fn same_part(&self, other: &PathPart) -> (same: bool)
        ensures
            same == (self@ == other@),
    {
        match (self, other) {
            (PathPart::Prefix(left), PathPart::Prefix(right)) => *left == *right,
            (PathPart::RootDir, PathPart::RootDir) => true,
            (PathPart::CurDir, PathPart::CurDir) => true,
            (PathPart::ParentDir, PathPart::ParentDir) => true,
            (PathPart::Normal(left), PathPart::Normal(right)) => *left == *right,
            _ => false,
        }
    }
}

impl PartialEq for PathPart {
    fn eq(&self, other: &PathPart) -> (same: bool) {
        self.same_part(other)
    }
}

impl vstd::std_specs::cmp::PartialEqSpecImpl for PathPart {
    open spec fn obeys_eq_spec() -> bool {
        true
    }

    open spec fn eq_spec(&self, other: &PathPart) -> bool {
        self@ == other@
    }
}

impl Eq for PathPart {

}

impl Clone for PathPart {
    fn clone(&self) -> (copy: Self)
        ensures
            copy@ == self@,
    {
        match self {
            PathPart::Prefix(text) => PathPart::Prefix(text.clone()),
            PathPart::RootDir => PathPart::RootDir,
            PathPart::CurDir => PathPart::CurDir,
            PathPart::ParentDir => PathPart::ParentDir,
            PathPart::Normal(text) => PathPart::Normal(text.clone()),
        }
    }
}

/// The path of a source.
#[derive(Debug)]
pub struct SourcePath {
    pub parts: Vec<PathPart>,
}

impl View for SourcePath {
    type V = PathModel;

    open spec fn view(&self) -> PathModel {
        Seq::new(self.parts@.len(), |i: int| self.parts@[i]@)
    }
}

impl SourcePath {
    /// Whether two paths agree component by component.
    pub fn same_path(&self, other: &SourcePath) -> (same: bool)
        ensures
            same == (self@ == other@),
    {
        if self.parts.len() != other.parts.len() {
            assert(self@.len() != other@.len());
            return false;
        }
        let mut i: usize = 0;
        while i < self.parts.len()
            invariant
                i <= self.parts@.len(),
                self.parts@.len() == other.parts@.len(),
                forall|j: int| 0 <= j < i ==> (#[trigger] self@[j]) == other@[j],
            decreases self.parts@.len() - i,
        {
            if !self.parts[i].same_part(&other.parts[i]) {
                assert(self@[i as int] != other@[i as int]);
                return false;
            }
            assert(self@[i as int] == other@[i as int]);
            i += 1;
        }
        assert(self@ =~= other@);
        true
    }
}

impl PartialEq for SourcePath {
    fn eq(&self, other: &SourcePath) -> (same: bool) {
        self.same_path(other)
    }
}

impl vstd::std_specs::cmp::PartialEqSpecImpl for SourcePath {
    open spec fn obeys_eq_spec() -> bool {
        true
    }

    open spec fn eq_spec(&self, other: &SourcePath) -> bool {
        self@ == other@
    }
}

impl Eq for SourcePath {

}

impl Clone for SourcePath {
    fn clone(&self) -> (copy: Self)
        ensures
            copy@ == self@,
    {
        let mut parts: Vec<PathPart> = Vec::new();
        let mut i: usize = 0;
        while i < self.parts.len()
            invariant
                i <= self.parts@.len(),
                parts@.len() == i,
                forall|j: int| 0 <= j < i ==> (#[trigger] parts@[j])@ == self.parts@[j]@,
            decreases self.parts@.len() - i,
        {
            parts.push(self.parts[i].clone());
            i += 1;
        }
        let copy = SourcePath { parts };
        assert(copy@ =~= self@);
        copy
    }
}

/// Two paths are the same exactly where they have the same components in the same order: each of one kind,
/// and names and prefixes spelled alike.
pub proof fn law_paths_agree_by_component(left: &SourcePath, right: &SourcePath, same: bool, i: int)
    requires
        call_ensures(SourcePath::same_path, (left, right), same),
    ensures
        same ==> left.parts@.len() == right.parts@.len(),
        same && 0 <= i < left.parts@.len() ==> match (left.parts@[i], right.parts@[i]) {
            (PathPart::Prefix(a), PathPart::Prefix(b)) => a@ == b@,
            (PathPart::RootDir, PathPart::RootDir) => true,
            (PathPart::CurDir, PathPart::CurDir) => true,
            (PathPart::ParentDir, PathPart::ParentDir) => true,
            (PathPart::Normal(a), PathPart::Normal(b)) => a@ == b@,
            _ => false,
        },
        !same ==> left.parts@.len() != right.parts@.len() || exists|j: int|
            0 <= j < left.parts@.len() && (#[trigger] left.parts@[j])@ != right.parts@[j]@,
{
    if same && 0 <= i < left.parts@.len() {
        assert(left@.len() == right@.len());
        assert(left@[i] == left.parts@[i]@);
        assert(right@[i] == right.parts@[i]@);
    }
    if same {
        assert(left@.len() == right@.len());
    } else if left.parts@.len() == right.parts@.len() {
        if forall|j: int|
            0 <= j < left.parts@.len() ==> (#[trigger] left.parts@[j])@ == right.parts@[j]@ {
            assert(left@ =~= right@);
        }
    }
}

/// Parts of a path are the same exactly where they are of one kind and spelled alike.
pub proof fn law_parts_agree_by_kind_and_spelling(left: &PathPart, right: &PathPart, same: bool)
    requires
        call_ensures(PathPart::same_part, (left, right), same),
    ensures
        same <==> match (*left, *right) {
            (PathPart::Prefix(a), PathPart::Prefix(b)) => a@ == b@,
            (PathPart::RootDir, PathPart::RootDir) => true,
            (PathPart::CurDir, PathPart::CurDir) => true,
            (PathPart::ParentDir, PathPart::ParentDir) => true,
            (PathPart::Normal(a), PathPart::Normal(b)) => a@ == b@,
            _ => false,
        },
{
}

} // verus!
