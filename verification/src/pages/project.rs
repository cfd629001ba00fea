//! The project page of the application: what it shows and what its buttons do.
use vstd::prelude::*;

use crate::models::project::Project;

verus! {

/// What a button of a page asks the application to do.
#[derive(Debug, Clone, PartialEq, Eq)]
pub enum Message {
    /// Open the given directory in the system's file browser.
    OpenDirectory(String),
    /// Go back to the main page.
    ToMainPage,
}

/// A button: its label and the message it sends when pressed.
#[derive(Debug, Clone, PartialEq, Eq)]
pub struct PageButton {
    pub label: String,
    pub on_press: Message,
}

/// The content of the project page: a title of a given size beside a column
/// of buttons.
#[derive(Debug, Clone, PartialEq, Eq)]
pub struct ProjectPage {
    pub title: String,
    pub title_size: u16,
    pub buttons: Vec<PageButton>,
}

/// The state of the application that its pages are drawn from.
pub struct ThreeDPrintManager {
    pub selected_project: Option<Project>,
}

impl ThreeDPrintManager {
    /// The page of the selected project: its name as a title of size 50, a
    /// button that opens its directory and one that goes back to the main page.
    pub fn project(&self) -> (page: ProjectPage)
        requires
            self.selected_project is Some,
        ensures
            page.title@ == self.selected_project->Some_0.name@,
            page.title_size == 50,
            page.buttons@.len() == 2,
            page.buttons@[0].label@ == "Open Directory"@,
            page.buttons@[0].on_press matches Message::OpenDirectory(p) && p@ == self.selected_project->Some_0.path@,
            page.buttons@[1].label@ == "Back"@,
            page.buttons@[1].on_press is ToMainPage,
    {
        let proj = match &self.selected_project {
            Some(p) => p,
            None => {
                assert(false);
                return ProjectPage { title: String::new(), title_size: 0, buttons: Vec::new() };
            },
        };
        let open = PageButton { label: String::from_str("Open Directory"), on_press: Message::OpenDirectory(proj.path.clone()) };
        let back = PageButton { label: String::from_str("Back"), on_press: Message::ToMainPage };
        ProjectPage { title: proj.name.clone(), title_size: 50, buttons: vec![open, back] }
    }
}

} // verus!
