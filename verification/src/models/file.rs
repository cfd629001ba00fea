use vstd::prelude::*;

verus! {

/// A file that belongs to a project. `default` marks the file that the project
/// opens by default; saving a default file first makes every other file of its
/// project not default.
#[derive(Debug, Clone, PartialEq, Eq)]
pub struct ProjectFile {
    pub id: i32,
    pub path: String,
    pub notes: Option<String>,
    pub project_id: i32,
    pub default: bool,
}

pub struct ProjectFileView {
    pub id: i32,
    pub path: Seq<char>,
    pub notes: Option<Seq<char>>,
    pub project_id: i32,
    pub default: bool,
}

pub open spec fn opt_text_view(t: Option<String>) -> Option<Seq<char>> {
    match t {
        Some(s) => Some(s@),
        None => None,
    }
}

impl View for ProjectFile {
    type V = ProjectFileView;

    open spec fn view(&self) -> ProjectFileView {
        ProjectFileView {
            id: self.id,
            path: self.path@,
            notes: opt_text_view(self.notes),
            project_id: self.project_id,
            default: self.default,
        }
    }
}

} // verus!
