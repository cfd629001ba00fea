use vstd::prelude::*;

verus! {

/// A place (a web page, a shop) that a project was taken from.
#[derive(Debug, Clone, PartialEq, Eq)]
pub struct ProjectSource {
    pub id: i32,
    pub url: String,
    pub project_id: i32,
    pub name: String,
}

pub struct ProjectSourceView {
    pub id: i32,
    pub url: Seq<char>,
    pub project_id: i32,
    pub name: Seq<char>,
}

impl View for ProjectSource {
    type V = ProjectSourceView;

    open spec fn view(&self) -> ProjectSourceView {
        ProjectSourceView { id: self.id, url: self.url@, project_id: self.project_id, name: self.name@ }
    }
}

} // verus!
