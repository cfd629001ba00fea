use vstd::prelude::*;

verus! {

/// A tag that projects can carry.
#[derive(Debug, Clone, PartialEq, Eq)]
pub struct ProjectTag {
    pub id: i32,
    pub tag: String,
}

pub struct ProjectTagView {
    pub id: i32,
    pub tag: Seq<char>,
}

impl View for ProjectTag {
    type V = ProjectTagView;

    open spec fn view(&self) -> ProjectTagView {
        ProjectTagView { id: self.id, tag: self.tag@ }
    }
}

} // verus!
