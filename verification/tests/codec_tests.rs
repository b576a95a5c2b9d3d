use todo_list::codec::{decode, encode};
use todo_list::model::{App, Document, Mode, Section, Task, UIState};

fn task(text: &str, done: bool, is_editing: bool) -> Task {
    Task { text: text.to_string(), done, is_editing }
}

fn busy_app() -> App {
    let errands = Section {
        title: "errands".to_string(),
        tasks: vec![task("post office", true, false), task("buy milk +.", false, false)],
        is_editing: false,
    };
    let ideas = Section {
        title: "ideas — später".to_string(),
        tasks: vec![task("höhenmesser", false, true)],
        is_editing: false,
    };
    let empty = Section { title: String::new(), tasks: vec![], is_editing: false };
    App {
        doc: Document { sections: vec![errands, ideas, empty] },
        ui: UIState { mode: Mode::EditingTask, pending_focus: true, zoom_tenths: 24 },
    }
}

#[test]
fn round_trip_reproduces_the_state_exactly() {
    let a = busy_app();
    let blob = encode(&a);
    let back = decode(&blob).expect("a well-formed state decodes");
    assert_eq!(back, a);
}

#[test]
fn round_trip_of_the_default_state() {
    let a = App::default();
    let back = decode(&encode(&a)).expect("the bootstrap state decodes");
    assert_eq!(back, a);
}

#[test]
fn decoding_garbage_falls_back_to_none() {
    assert!(decode(&[]).is_none());
    let junk: Vec<char> = "not a saved state".chars().collect();
    assert!(decode(&junk).is_none());
    // A truncated blob is rejected too.
    let mut blob = encode(&busy_app());
    blob.pop();
    assert!(decode(&blob).is_none());
    // And so is one with trailing characters.
    let mut long = encode(&busy_app());
    long.push('x');
    assert!(decode(&long).is_none());
}

#[test]
fn an_ill_formed_state_is_treated_as_absent() {
    // Mode says browsing, yet a task claims to be under edit.
    let mut a = busy_app();
    a.ui.mode = Mode::Idle;
    assert!(decode(&encode(&a)).is_none());
    // A zoom factor above the ceiling is rejected by the decoder.
    let mut b = busy_app();
    b.ui.zoom_tenths = 31;
    assert!(decode(&encode(&b)).is_none());
}

#[test]
fn encoding_is_plain_text_markers() {
    let a = App {
        doc: Document {
            sections: vec![Section {
                title: "a".to_string(),
                tasks: vec![task("b", true, false)],
                is_editing: true,
            }],
        },
        ui: UIState { mode: Mode::EditingSection, pending_focus: false, zoom_tenths: 12 },
    };
    let blob: String = encode(&a).into_iter().collect();
    // mode, focus flag, zoom offset 2, one section: title "a", flag, one
    // task: text "b", done, not editing.
    assert_eq!(blob, "S0++.+.+a.1+.+b.10");
}
