use todo_list::controller::{ClickTarget, FrameInput};
use todo_list::model::{App, Mode};
use todo_list::render::DrawCmd;

fn no_input() -> FrameInput {
    FrameInput {
        arrow_up: false,
        arrow_down: false,
        enter: false,
        escape: false,
        lost_focus: false,
        edited_text: None,
        click: None,
    }
}

fn click(target: ClickTarget) -> FrameInput {
    FrameInput { click: Some(target), ..no_input() }
}

fn commit_with_enter() -> FrameInput {
    FrameInput { enter: true, lost_focus: true, ..no_input() }
}

/// An app that is browsing: one section "errands" with two tasks.
fn browsing_app() -> App {
    let mut a = App::default();
    a.ui.mode = Mode::Idle;
    a.ui.pending_focus = false;
    a.doc.sections[0].is_editing = false;
    a.doc.sections[0].title = "errands".to_string();
    a.doc.sections[0].tasks[0].text = "post office".to_string();
    a.doc.sections[0].add_task("buy milk", false);
    assert!(a.satisfies_inv());
    a
}

#[test]
fn default_app_commits_title_unchanged_on_enter() {
    let mut a = App::default();
    // The first frame draws the title field focused.
    let cmds = a.render();
    assert!(matches!(
        cmds[0],
        DrawCmd::TitleField { ref text, focused: true } if text.as_str() == "New Section"
    ));
    assert!(!a.ui.pending_focus);
    // Enter while the field loses focus commits the title unchanged.
    a.apply(&commit_with_enter());
    assert_eq!(a.ui.mode, Mode::Idle);
    assert_eq!(a.doc.sections[0].title, "New Section");
    assert!(!a.doc.sections[0].is_editing);
    assert!(a.satisfies_inv());
}

#[test]
fn clicking_task_label_begins_task_edit_with_focus_pending() {
    let mut a = browsing_app();
    a.apply(&click(ClickTarget::TaskLabel(0, 1)));
    assert_eq!(a.ui.mode, Mode::EditingTask);
    assert!(a.ui.pending_focus);
    assert!(a.doc.sections[0].tasks[1].is_editing);
    assert!(!a.doc.sections[0].tasks[0].is_editing);
    assert!(a.satisfies_inv());
    // The next frame draws exactly one editable field, focused, for that task.
    let cmds = a.render();
    let fields: Vec<&DrawCmd> = cmds
        .iter()
        .filter(|c| matches!(c, DrawCmd::TaskField { .. }))
        .collect();
    assert_eq!(fields.len(), 1);
    assert!(matches!(
        fields[0],
        DrawCmd::TaskField { text, done: false, focused: true } if text.as_str() == "buy milk"
    ));
    assert!(!a.ui.pending_focus);
    // A frame later the field no longer claims focus.
    let cmds2 = a.render();
    assert!(cmds2
        .iter()
        .any(|c| matches!(c, DrawCmd::TaskField { focused: false, .. })));
}

#[test]
fn clicking_section_title_begins_section_edit() {
    let mut a = browsing_app();
    a.apply(&click(ClickTarget::SectionTitle(0)));
    assert_eq!(a.ui.mode, Mode::EditingSection);
    assert!(a.doc.sections[0].is_editing);
    assert!(a.satisfies_inv());
}

#[test]
fn add_task_slot_appends_blank_editing_task() {
    let mut a = browsing_app();
    let before = a.doc.sections[0].tasks.len();
    a.apply(&click(ClickTarget::AddTask(0)));
    assert_eq!(a.doc.sections[0].tasks.len(), before + 1);
    let new_task = a.doc.sections[0].tasks.last().unwrap();
    assert_eq!(new_task.text, "");
    assert!(!new_task.done);
    assert!(new_task.is_editing);
    assert_eq!(a.ui.mode, Mode::EditingTask);
    assert!(a.ui.pending_focus);
    assert!(a.satisfies_inv());
}

#[test]
fn add_section_slot_appends_blank_editing_section() {
    let mut a = browsing_app();
    let before = a.doc.sections.len();
    a.apply(&click(ClickTarget::AddSection));
    assert_eq!(a.doc.sections.len(), before + 1);
    let new_section = a.doc.sections.last().unwrap();
    assert_eq!(new_section.title, "");
    assert!(new_section.tasks.is_empty());
    assert!(new_section.is_editing);
    assert_eq!(a.ui.mode, Mode::EditingSection);
    assert!(a.ui.pending_focus);
    assert!(a.satisfies_inv());
}

#[test]
fn twenty_zoom_ups_stop_exactly_at_the_ceiling() {
    let mut a = browsing_app();
    assert_eq!(a.ui.zoom_tenths, 10);
    for _ in 0..20 {
        let changed = a.apply(&FrameInput { arrow_up: true, ..no_input() });
        assert!(changed);
    }
    assert_eq!(a.ui.zoom_tenths, 30);
    // And the floor holds just the same.
    for _ in 0..20 {
        a.apply(&FrameInput { arrow_down: true, ..no_input() });
    }
    assert_eq!(a.ui.zoom_tenths, 10);
    assert!(a.satisfies_inv());
}

#[test]
fn zoom_keys_do_nothing_while_editing() {
    let mut a = browsing_app();
    a.apply(&click(ClickTarget::TaskLabel(0, 0)));
    let changed = a.apply(&FrameInput { arrow_up: true, ..no_input() });
    assert!(!changed);
    assert_eq!(a.ui.zoom_tenths, 10);
}

#[test]
fn typing_flows_into_the_task_under_edit_and_enter_commits() {
    let mut a = browsing_app();
    a.apply(&click(ClickTarget::TaskLabel(0, 0)));
    a.apply(&FrameInput {
        edited_text: Some("post office by noon".to_string()),
        ..no_input()
    });
    assert_eq!(a.doc.sections[0].tasks[0].text, "post office by noon");
    assert_eq!(a.ui.mode, Mode::EditingTask);
    a.apply(&commit_with_enter());
    assert_eq!(a.ui.mode, Mode::Idle);
    assert!(!a.doc.sections[0].tasks[0].is_editing);
    assert_eq!(a.doc.sections[0].tasks[0].text, "post office by noon");
    assert!(a.satisfies_inv());
}

#[test]
fn escape_commits_a_section_rename() {
    let mut a = browsing_app();
    a.apply(&click(ClickTarget::SectionTitle(0)));
    a.apply(&FrameInput {
        edited_text: Some("groceries".to_string()),
        ..no_input()
    });
    a.apply(&FrameInput { escape: true, lost_focus: true, ..no_input() });
    assert_eq!(a.ui.mode, Mode::Idle);
    assert_eq!(a.doc.sections[0].title, "groceries");
    assert!(!a.doc.sections[0].is_editing);
    assert!(a.satisfies_inv());
}

#[test]
fn a_key_without_losing_focus_commits_nothing() {
    let mut a = browsing_app();
    a.apply(&click(ClickTarget::TaskLabel(0, 0)));
    a.apply(&FrameInput { enter: true, ..no_input() });
    assert_eq!(a.ui.mode, Mode::EditingTask);
    assert!(a.doc.sections[0].tasks[0].is_editing);
}

#[test]
fn checkboxes_work_in_every_mode() {
    let mut a = browsing_app();
    a.apply(&click(ClickTarget::ToggleDone(0, 0)));
    assert!(a.doc.sections[0].tasks[0].done);
    a.apply(&click(ClickTarget::TaskLabel(0, 1)));
    a.apply(&click(ClickTarget::ToggleDone(0, 0)));
    assert!(!a.doc.sections[0].tasks[0].done);
    assert_eq!(a.ui.mode, Mode::EditingTask);
    assert!(a.satisfies_inv());
}

#[test]
fn out_of_range_clicks_change_nothing() {
    let mut a = browsing_app();
    let before = a.clone();
    a.apply(&click(ClickTarget::TaskLabel(5, 0)));
    a.apply(&click(ClickTarget::SectionTitle(3)));
    a.apply(&click(ClickTarget::AddTask(9)));
    a.apply(&click(ClickTarget::ToggleDone(0, 7)));
    assert_eq!(a, before);
}

#[test]
fn browsing_frame_draws_in_insertion_order() {
    let mut a = browsing_app();
    a.doc.add_section("work", false);
    let cmds = a.render();
    assert!(matches!(cmds[0], DrawCmd::ClickableHeading { ref text } if text.as_str() == "errands"));
    assert!(
        matches!(cmds[1], DrawCmd::ClickableTaskRow { ref text, done: false } if text.as_str() == "post office")
    );
    assert!(
        matches!(cmds[2], DrawCmd::ClickableTaskRow { ref text, done: false } if text.as_str() == "buy milk")
    );
    assert!(matches!(cmds[3], DrawCmd::AddTaskSlot));
    assert!(matches!(cmds[4], DrawCmd::ClickableHeading { ref text } if text.as_str() == "work"));
    assert!(matches!(cmds[5], DrawCmd::AddTaskSlot));
    assert!(matches!(cmds[6], DrawCmd::AddSectionSlot));
    assert_eq!(cmds.len(), 7);
    // Browsing consumes no pending focus and draws no field.
    assert!(!cmds.iter().any(|c| matches!(c, DrawCmd::TaskField { .. } | DrawCmd::TitleField { .. })));
}

#[test]
fn task_editing_frame_draws_static_headings() {
    let mut a = browsing_app();
    a.apply(&click(ClickTarget::TaskLabel(0, 0)));
    let cmds = a.render();
    assert!(matches!(cmds[0], DrawCmd::Heading { ref text } if text.as_str() == "errands"));
    assert!(matches!(cmds[1], DrawCmd::TaskField { .. }));
    assert!(matches!(cmds[2], DrawCmd::TaskRow { ref text, .. } if text.as_str() == "buy milk"));
    assert_eq!(cmds.len(), 3);
    assert!(!cmds.iter().any(|c| matches!(c, DrawCmd::AddTaskSlot | DrawCmd::AddSectionSlot)));
}
