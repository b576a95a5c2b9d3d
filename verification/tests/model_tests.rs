use todo_list::model::{App, Document, Mode, Section, Task};

#[test]
fn default_task_is_blank() {
    let t = Task::default();
    assert_eq!(t.text, "New task");
    assert!(!t.done);
    assert!(!t.is_editing);
}

#[test]
fn default_section_holds_one_default_task_under_edit() {
    let s = Section::default();
    assert_eq!(s.title, "New Section");
    assert!(s.is_editing);
    assert_eq!(s.tasks.len(), 1);
    assert_eq!(s.tasks[0], Task::default());
}

#[test]
fn default_app_bootstraps_into_section_editing() {
    let a = App::default();
    assert_eq!(a.doc.sections.len(), 1);
    assert_eq!(a.doc.sections[0].title, "New Section");
    assert_eq!(a.doc.sections[0].tasks.len(), 1);
    assert_eq!(a.doc.sections[0].tasks[0].text, "New task");
    assert_eq!(a.ui.mode, Mode::EditingSection);
    assert!(a.ui.pending_focus);
    assert_eq!(a.ui.zoom_tenths, 10);
    assert!(a.satisfies_inv());
}

#[test]
fn section_add_task_appends_in_order() {
    let mut s = Section::default();
    s.add_task("water the plants", false);
    s.add_task("buy milk", false);
    assert_eq!(s.tasks.len(), 3);
    assert_eq!(s.tasks[1].text, "water the plants");
    assert_eq!(s.tasks[2].text, "buy milk");
    assert!(!s.tasks[2].done);
    assert!(!s.tasks[2].is_editing);
}

#[test]
fn document_add_section_appends_empty_section() {
    let mut d = Document { sections: Vec::new() };
    d.add_section("errands", false);
    d.add_section("work", true);
    assert_eq!(d.sections.len(), 2);
    assert_eq!(d.sections[0].title, "errands");
    assert!(d.sections[0].tasks.is_empty());
    assert!(!d.sections[0].is_editing);
    assert!(d.sections[1].is_editing);
}

#[test]
fn document_add_task_picks_first_matching_title() {
    let mut d = Document { sections: Vec::new() };
    d.add_section("errands", false);
    d.add_section("work", false);
    d.add_section("errands", false);
    assert!(d.add_task("errands", "post office"));
    assert_eq!(d.sections[0].tasks.len(), 1);
    assert_eq!(d.sections[0].tasks[0].text, "post office");
    assert!(d.sections[2].tasks.is_empty());
}

#[test]
fn document_add_task_without_match_changes_nothing() {
    let mut d = Document { sections: Vec::new() };
    d.add_section("errands", false);
    let before = d.clone();
    assert!(!d.add_task("no such section", "post office"));
    assert_eq!(d, before);
}

#[test]
fn satisfies_inv_spots_flag_and_mode_mismatches() {
    let mut a = App::default();
    assert!(a.satisfies_inv());
    // A second section under edit breaks the one-entity rule.
    a.doc.add_section("extra", true);
    assert!(!a.satisfies_inv());
    let mut b = App::default();
    // An Idle mode beside a flagged section breaks the match.
    b.ui.mode = Mode::Idle;
    assert!(!b.satisfies_inv());
    b.doc.sections[0].is_editing = false;
    assert!(b.satisfies_inv());
    // A zoom factor outside [1.0, 3.0] is ill-formed.
    b.ui.zoom_tenths = 31;
    assert!(!b.satisfies_inv());
}
