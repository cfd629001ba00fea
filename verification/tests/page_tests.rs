use print_manager::models::project::Project;
use print_manager::pages::project::{Message, ThreeDPrintManager};

#[test]
fn project_page_shows_the_selected_project() {
    let p = Project { id: 1, name: "Benchy".to_string(), path: "/prints/benchy".to_string(), notes: String::new(), tags: vec![], files: vec![], sources: vec![] };
    let app = ThreeDPrintManager { selected_project: Some(p) };
    let page = app.project();
    assert_eq!(page.title, "Benchy");
    assert_eq!(page.title_size, 50);
    assert_eq!(page.buttons.len(), 2);
    assert_eq!(page.buttons[0].label, "Open Directory");
    assert_eq!(page.buttons[0].on_press, Message::OpenDirectory("/prints/benchy".to_string()));
    assert_eq!(page.buttons[1].label, "Back");
    assert_eq!(page.buttons[1].on_press, Message::ToMainPage);
}
