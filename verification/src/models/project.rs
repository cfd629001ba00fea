use vstd::prelude::*;

use crate::models::file::{ProjectFile, ProjectFileView};
use crate::models::project_source::{ProjectSource, ProjectSourceView};
use crate::models::project_tag::{ProjectTag, ProjectTagView};

verus! {

/// A print project: a directory on disk with its notes, files, tags and sources.
/// Its id and notes are always present, as the repositories read and write
/// them: a `projects` row whose notes are NULL does not decode
/// (`InvalidColumnType`).
#[derive(Debug, Clone, PartialEq, Eq)]
pub struct Project {
    pub id: i32,
    pub name: String,
    pub path: String,
    pub notes: String,
    pub tags: Vec<ProjectTag>,
    pub files: Vec<ProjectFile>,
    pub sources: Vec<ProjectSource>,
}

pub struct ProjectView {
    pub id: i32,
    pub name: Seq<char>,
    pub path: Seq<char>,
    pub notes: Seq<char>,
    pub tags: Seq<ProjectTagView>,
    pub files: Seq<ProjectFileView>,
    pub sources: Seq<ProjectSourceView>,
}

impl View for Project {
    type V = ProjectView;

    open spec fn view(&self) -> ProjectView {
        ProjectView {
            id: self.id,
            name: self.name@,
            path: self.path@,
            notes: self.notes@,
            tags: self.tags@.map_values(|t: ProjectTag| t@),
            files: self.files@.map_values(|f: ProjectFile| f@),
            sources: self.sources@.map_values(|s: ProjectSource| s@),
        }
    }
}

} // verus!
