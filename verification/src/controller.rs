//! The interaction controller: one invocation per frame.
//!
//! A frame's input events arrive as one immutable snapshot ([`FrameInput`]).
//! [`App::apply`] folds the snapshot into the document and interaction state,
//! exactly as [`spec_step`] describes; [`App::render`] then rebuilds the
//! frame's draw commands from the current state.

use vstd::prelude::*;

verus! {

use crate::model::{
    app_inv, doc_section_flags, doc_task_flags, lemma_doc_flags_push,
    lemma_doc_flags_update, lemma_doc_section_flags_pointwise, lemma_doc_section_flags_zero,
    lemma_doc_section_flags_zero_elem, lemma_doc_task_flags_pointwise, lemma_doc_task_flags_zero,
    lemma_doc_task_flags_zero_elem, lemma_task_flags_pointwise, lemma_task_flags_push,
    lemma_task_flags_update, lemma_task_flags_zero, lemma_task_flags_zero_elem, task_flags, App,
    AppModel, Document, Mode, SectionModel, TaskModel, ZOOM_MAX_TENTHS, ZOOM_MIN_TENTHS,
    ZOOM_STEP_TENTHS,
};

/// A pointer click, named by the region it landed on.  Sections and tasks
/// are addressed by their insertion-order indices.
#[derive(Clone, Copy, Debug, PartialEq, Eq, Structural)]
pub enum ClickTarget {
    /// A section's title label.
    SectionTitle(usize),
    /// A task's text label.
    TaskLabel(usize, usize),
    /// A task's completion checkbox.
    ToggleDone(usize, usize),
    /// The blank trailing slot of one section that appends a task.
    AddTask(usize),
    /// The blank trailing slot of the document that appends a section.
    AddSection,
}

/// Everything the frontend observed during one frame, delivered before any
/// mutation begins.  `edited_text` is the contents of the focused text field
/// after this frame's typing; `lost_focus` says that field lost keyboard
/// focus this frame.
pub struct FrameInput {
    pub arrow_up: bool,
    pub arrow_down: bool,
    pub enter: bool,
    pub escape: bool,
    pub lost_focus: bool,
    pub edited_text: Option<String>,
    pub click: Option<ClickTarget>,
}

/// Mathematical model of a [`FrameInput`].
#[verifier::ext_equal]
pub ghost struct InputModel {
    pub arrow_up: bool,
    pub arrow_down: bool,
    pub enter: bool,
    pub escape: bool,
    pub lost_focus: bool,
    pub edited_text: Option<Seq<char>>,
    pub click: Option<ClickTarget>,
}

impl View for FrameInput {
    type V = InputModel;

    open spec fn view(&self) -> InputModel {
        InputModel {
            arrow_up: self.arrow_up,
            arrow_down: self.arrow_down,
            enter: self.enter,
            escape: self.escape,
            lost_focus: self.lost_focus,
            edited_text: match self.edited_text {
                Some(s) => Some(s@),
                None => None,
            },
            click: self.click,
        }
    }
}

/// One zoom step up: add the step, clamped to the upper bound.
pub open spec fn zoom_up(z: u32) -> u32 {
    if z + ZOOM_STEP_TENTHS >= ZOOM_MAX_TENTHS {
        ZOOM_MAX_TENTHS
    } else {
        (z + ZOOM_STEP_TENTHS) as u32
    }
}

/// One zoom step down: subtract the step, clamped to the lower bound.
pub open spec fn zoom_down(z: u32) -> u32 {
    if z <= ZOOM_MIN_TENTHS + ZOOM_STEP_TENTHS {
        ZOOM_MIN_TENTHS
    } else {
        (z - ZOOM_STEP_TENTHS) as u32
    }
}

/// The blank task appended by the trailing slot: empty text, not done, and
/// immediately under edit.
pub open spec fn blank_editing_task() -> TaskModel {
    TaskModel { text: Seq::empty(), done: false, is_editing: true }
}

/// The blank section appended by the trailing slot: empty title, no tasks,
/// and its title immediately under edit.
pub open spec fn blank_editing_section() -> SectionModel {
    SectionModel { title: Seq::empty(), tasks: Seq::empty(), is_editing: true }
}

/// Flipping the done flag of task `j` of section `i`; out-of-range indices
/// leave the document unchanged.
pub open spec fn spec_toggle_done(ss: Seq<SectionModel>, i: int, j: int) -> Seq<SectionModel> {
    if 0 <= i < ss.len() && 0 <= j < ss[i].tasks.len() {
        ss.update(
            i,
            SectionModel {
                tasks: ss[i].tasks.update(j, TaskModel { done: !ss[i].tasks[j].done, ..ss[i].tasks[j] }),
                ..ss[i]
            },
        )
    } else {
        ss
    }
}

/// What one click does while browsing.  Out-of-range indices leave the state
/// unchanged.
pub open spec fn spec_idle_click(m: AppModel, c: ClickTarget) -> AppModel {
    match c {
        ClickTarget::SectionTitle(i) => if (i as int) < m.sections.len() {
            AppModel {
                sections: m.sections.update(
                    i as int,
                    SectionModel { is_editing: true, ..m.sections[i as int] },
                ),
                mode: Mode::EditingSection,
                ..m
            }
        } else {
            m
        },
        ClickTarget::TaskLabel(i, j) => if (i as int) < m.sections.len() && (j as int)
            < m.sections[i as int].tasks.len() {
            AppModel {
                sections: m.sections.update(
                    i as int,
                    SectionModel {
                        tasks: m.sections[i as int].tasks.update(
                            j as int,
                            TaskModel { is_editing: true, ..m.sections[i as int].tasks[j as int] },
                        ),
                        ..m.sections[i as int]
                    },
                ),
                mode: Mode::EditingTask,
                pending_focus: true,
                ..m
            }
        } else {
            m
        },
        ClickTarget::ToggleDone(i, j) => AppModel {
            sections: spec_toggle_done(m.sections, i as int, j as int),
            ..m
        },
        ClickTarget::AddTask(i) => if (i as int) < m.sections.len() {
            AppModel {
                sections: m.sections.update(
                    i as int,
                    SectionModel {
                        tasks: m.sections[i as int].tasks.push(blank_editing_task()),
                        ..m.sections[i as int]
                    },
                ),
                mode: Mode::EditingTask,
                pending_focus: true,
                ..m
            }
        } else {
            m
        },
        ClickTarget::AddSection => AppModel {
            sections: m.sections.push(blank_editing_section()),
            mode: Mode::EditingSection,
            pending_focus: true,
            ..m
        },
    }
}

/// Every task under edit takes the field's text.
pub open spec fn spec_set_task_texts(ss: Seq<SectionModel>, txt: Seq<char>) -> Seq<SectionModel> {
    ss.map_values(
        |s: SectionModel|
            SectionModel {
                tasks: s.tasks.map_values(
                    |t: TaskModel|
                        if t.is_editing {
                            TaskModel { text: txt, ..t }
                        } else {
                            t
                        },
                ),
                ..s
            },
    )
}

/// Every task's editing flag is cleared.
pub open spec fn spec_clear_task_flags(ss: Seq<SectionModel>) -> Seq<SectionModel> {
    ss.map_values(
        |s: SectionModel|
            SectionModel {
                tasks: s.tasks.map_values(|t: TaskModel| TaskModel { is_editing: false, ..t }),
                ..s
            },
    )
}

/// Every section under edit takes the field's text as its title.
pub open spec fn spec_set_section_titles(ss: Seq<SectionModel>, txt: Seq<char>) -> Seq<
    SectionModel,
> {
    ss.map_values(
        |s: SectionModel|
            if s.is_editing {
                SectionModel { title: txt, ..s }
            } else {
                s
            },
    )
}

/// Every section's editing flag is cleared.
pub open spec fn spec_clear_section_flags(ss: Seq<SectionModel>) -> Seq<SectionModel> {
    ss.map_values(|s: SectionModel| SectionModel { is_editing: false, ..s })
}

/// Whether this frame's input commits the edit in progress: the focused
/// field lost focus while Enter or Escape was pressed.
pub open spec fn commits(inp: InputModel) -> bool {
    inp.lost_focus && (inp.enter || inp.escape)
}

/// The whole state transition of one frame.
///
/// While browsing (`Idle`), arrow keys step the zoom factor and one click
/// may begin an edit, toggle a checkbox, or append a blank entity.  While
/// editing, checkbox clicks still land, the focused field's text flows into
/// the entity under edit, and Enter or Escape commits: the editing flag
/// clears and the mode returns to `Idle`.
pub open spec fn spec_step(m: AppModel, inp: InputModel) -> AppModel {
    match m.mode {
        Mode::Idle => {
            let z1 = if inp.arrow_up {
                zoom_up(m.zoom_tenths)
            } else {
                m.zoom_tenths
            };
            let z2 = if inp.arrow_down {
                zoom_down(z1)
            } else {
                z1
            };
            let mz = AppModel { zoom_tenths: z2, ..m };
            match inp.click {
                Some(c) => spec_idle_click(mz, c),
                None => mz,
            }
        },
        Mode::EditingTask => {
            let m1 = match inp.click {
                Some(ClickTarget::ToggleDone(i, j)) => AppModel {
                    sections: spec_toggle_done(m.sections, i as int, j as int),
                    ..m
                },
                _ => m,
            };
            let m2 = match inp.edited_text {
                Some(t) => AppModel { sections: spec_set_task_texts(m1.sections, t), ..m1 },
                None => m1,
            };
            if commits(inp) {
                AppModel { sections: spec_clear_task_flags(m2.sections), mode: Mode::Idle, ..m2 }
            } else {
                m2
            }
        },
        Mode::EditingSection => {
            let m1 = match inp.click {
                Some(ClickTarget::ToggleDone(i, j)) => AppModel {
                    sections: spec_toggle_done(m.sections, i as int, j as int),
                    ..m
                },
                _ => m,
            };
            let m2 = match inp.edited_text {
                Some(t) => AppModel { sections: spec_set_section_titles(m1.sections, t), ..m1 },
                None => m1,
            };
            if commits(inp) {
                AppModel {
                    sections: spec_clear_section_flags(m2.sections),
                    mode: Mode::Idle,
                    ..m2
                }
            } else {
                m2
            }
        },
    }
}

/// Flips one task's checkbox; out-of-range indices are ignored.
fn toggle_task_done(doc: &mut Document, i: usize, j: usize)
    ensures
        final(doc)@ == spec_toggle_done(old(doc)@, i as int, j as int),
{
    if i < doc.sections.len() {
        if j < doc.sections[i].tasks.len() {
            let was_done = doc.sections[i].tasks[j].done;
            doc.sections[i].tasks[j].done = !was_done;
            proof {
                assert(doc@ =~~= spec_toggle_done(old(doc)@, i as int, j as int));
            }
        }
    }
}

/// Writes the focused field's text into every task under edit.
fn set_editing_task_texts(doc: &mut Document, txt: &str)
    ensures
        final(doc)@ == spec_set_task_texts(old(doc)@, txt@),
{
    let ghost orig = old(doc)@;
    let ghost target = spec_set_task_texts(old(doc)@, txt@);
    let n = doc.sections.len();
    let mut i: usize = 0;
    while i < n
        invariant
            orig == old(doc)@,
            target == spec_set_task_texts(orig, txt@),
            n == doc.sections@.len(),
            orig.len() == n,
            i <= n,
            forall|k: int| 0 <= k < i ==> doc@[k] == target[k],
            forall|k: int| i <= k < n ==> doc@[k] == orig[k],
        decreases n - i,
    {
        let m = doc.sections[i].tasks.len();
        let mut j: usize = 0;
        while j < m
            invariant
                orig == old(doc)@,
                target == spec_set_task_texts(orig, txt@),
                n == doc.sections@.len(),
                orig.len() == n,
                0 <= i < n,
                j <= m,
                forall|k: int| 0 <= k < i ==> doc@[k] == target[k],
                forall|k: int| i < k < n ==> doc@[k] == orig[k],
                doc@[i as int].title == orig[i as int].title,
                doc@[i as int].is_editing == orig[i as int].is_editing,
                doc@[i as int].tasks.len() == orig[i as int].tasks.len(),
                m == orig[i as int].tasks.len(),
                forall|l: int|
                    0 <= l < j ==> doc@[i as int].tasks[l] == target[i as int].tasks[l],
                forall|l: int| j <= l < m ==> doc@[i as int].tasks[l] == orig[i as int].tasks[l],
            decreases m - j,
        {
            if doc.sections[i].tasks[j].is_editing {
                doc.sections[i].tasks[j].text = txt.to_owned();
            }
            proof {
                assert(doc@[i as int].tasks[j as int] == target[i as int].tasks[j as int]);
            }
            j += 1;
        }
        proof {
            assert(doc@[i as int] =~~= target[i as int]);
        }
        i += 1;
    }
    proof {
        assert(doc@ =~~= target);
    }
}

/// Clears every task's editing flag.
fn clear_all_task_flags(doc: &mut Document)
    ensures
        final(doc)@ == spec_clear_task_flags(old(doc)@),
{
    let ghost orig = old(doc)@;
    let ghost target = spec_clear_task_flags(old(doc)@);
    let n = doc.sections.len();
    let mut i: usize = 0;
    while i < n
        invariant
            orig == old(doc)@,
            target == spec_clear_task_flags(orig),
            n == doc.sections@.len(),
            orig.len() == n,
            i <= n,
            forall|k: int| 0 <= k < i ==> doc@[k] == target[k],
            forall|k: int| i <= k < n ==> doc@[k] == orig[k],
        decreases n - i,
    {
        let m = doc.sections[i].tasks.len();
        let mut j: usize = 0;
        while j < m
            invariant
                orig == old(doc)@,
                target == spec_clear_task_flags(orig),
                n == doc.sections@.len(),
                orig.len() == n,
                0 <= i < n,
                j <= m,
                forall|k: int| 0 <= k < i ==> doc@[k] == target[k],
                forall|k: int| i < k < n ==> doc@[k] == orig[k],
                doc@[i as int].title == orig[i as int].title,
                doc@[i as int].is_editing == orig[i as int].is_editing,
                doc@[i as int].tasks.len() == orig[i as int].tasks.len(),
                m == orig[i as int].tasks.len(),
                forall|l: int|
                    0 <= l < j ==> doc@[i as int].tasks[l] == target[i as int].tasks[l],
                forall|l: int| j <= l < m ==> doc@[i as int].tasks[l] == orig[i as int].tasks[l],
            decreases m - j,
        {
            doc.sections[i].tasks[j].is_editing = false;
            proof {
                assert(doc@[i as int].tasks[j as int] == target[i as int].tasks[j as int]);
            }
            j += 1;
        }
        proof {
            assert(doc@[i as int] =~~= target[i as int]);
        }
        i += 1;
    }
    proof {
        assert(doc@ =~~= target);
    }
}

/// Writes the focused field's text into every section title under edit.
fn set_editing_section_titles(doc: &mut Document, txt: &str)
    ensures
        final(doc)@ == spec_set_section_titles(old(doc)@, txt@),
{
    let ghost orig = old(doc)@;
    let ghost target = spec_set_section_titles(old(doc)@, txt@);
    let n = doc.sections.len();
    let mut i: usize = 0;
    while i < n
        invariant
            orig == old(doc)@,
            target == spec_set_section_titles(orig, txt@),
            n == doc.sections@.len(),
            orig.len() == n,
            i <= n,
            forall|k: int| 0 <= k < i ==> doc@[k] == target[k],
            forall|k: int| i <= k < n ==> doc@[k] == orig[k],
        decreases n - i,
    {
        if doc.sections[i].is_editing {
            doc.sections[i].title = txt.to_owned();
        }
        proof {
            assert(doc@[i as int] =~~= target[i as int]);
        }
        i += 1;
    }
    proof {
        assert(doc@ =~~= target);
    }
}

/// Clears every section's editing flag.
fn clear_all_section_flags(doc: &mut Document)
    ensures
        final(doc)@ == spec_clear_section_flags(old(doc)@),
{
    let ghost orig = old(doc)@;
    let ghost target = spec_clear_section_flags(old(doc)@);
    let n = doc.sections.len();
    let mut i: usize = 0;
    while i < n
        invariant
            orig == old(doc)@,
            target == spec_clear_section_flags(orig),
            n == doc.sections@.len(),
            orig.len() == n,
            i <= n,
            forall|k: int| 0 <= k < i ==> doc@[k] == target[k],
            forall|k: int| i <= k < n ==> doc@[k] == orig[k],
        decreases n - i,
    {
        doc.sections[i].is_editing = false;
        proof {
            assert(doc@[i as int] =~~= target[i as int]);
        }
        i += 1;
    }
    proof {
        assert(doc@ =~~= target);
    }
}

/// Toggling a checkbox moves no editing flag, so both counts stand.
proof fn lemma_toggle_preserves_counts(ss: Seq<SectionModel>, i: int, j: int)
    ensures
        doc_section_flags(spec_toggle_done(ss, i, j)) == doc_section_flags(ss),
        doc_task_flags(spec_toggle_done(ss, i, j)) == doc_task_flags(ss),
{
    if 0 <= i < ss.len() && 0 <= j < ss[i].tasks.len() {
        let t2 = TaskModel { done: !ss[i].tasks[j].done, ..ss[i].tasks[j] };
        lemma_task_flags_update(ss[i].tasks, j, t2);
        let s2 = SectionModel { tasks: ss[i].tasks.update(j, t2), ..ss[i] };
        lemma_doc_flags_update(ss, i, s2);
    }
}

/// Writing text into the tasks under edit moves no editing flag.
proof fn lemma_set_task_texts_preserves_counts(ss: Seq<SectionModel>, txt: Seq<char>)
    ensures
        doc_section_flags(spec_set_task_texts(ss, txt)) == doc_section_flags(ss),
        doc_task_flags(spec_set_task_texts(ss, txt)) == doc_task_flags(ss),
{
    let r = spec_set_task_texts(ss, txt);
    assert forall|i: int| 0 <= i < ss.len() implies task_flags(r[i].tasks) == task_flags(
        ss[i].tasks,
    ) by {
        lemma_task_flags_pointwise(r[i].tasks, ss[i].tasks);
    }
    lemma_doc_section_flags_pointwise(r, ss);
    lemma_doc_task_flags_pointwise(r, ss);
}

/// After the commit of a task edit no task is flagged, and the sections'
/// own flags stand.
proof fn lemma_clear_task_flags_counts(ss: Seq<SectionModel>)
    ensures
        doc_task_flags(spec_clear_task_flags(ss)) == 0,
        doc_section_flags(spec_clear_task_flags(ss)) == doc_section_flags(ss),
{
    let r = spec_clear_task_flags(ss);
    assert forall|i: int| 0 <= i < r.len() implies task_flags(r[i].tasks) == 0 by {
        lemma_task_flags_zero(r[i].tasks);
    }
    lemma_doc_task_flags_zero(r);
    lemma_doc_section_flags_pointwise(r, ss);
}

/// Writing a title into the sections under edit moves no editing flag.
proof fn lemma_set_section_titles_preserves_counts(ss: Seq<SectionModel>, txt: Seq<char>)
    ensures
        doc_section_flags(spec_set_section_titles(ss, txt)) == doc_section_flags(ss),
        doc_task_flags(spec_set_section_titles(ss, txt)) == doc_task_flags(ss),
{
    let r = spec_set_section_titles(ss, txt);
    lemma_doc_section_flags_pointwise(r, ss);
    lemma_doc_task_flags_pointwise(r, ss);
}

/// After the commit of a section edit no section is flagged, and the task
/// count stands.
proof fn lemma_clear_section_flags_counts(ss: Seq<SectionModel>)
    ensures
        doc_section_flags(spec_clear_section_flags(ss)) == 0,
        doc_task_flags(spec_clear_section_flags(ss)) == doc_task_flags(ss),
{
    let r = spec_clear_section_flags(ss);
    lemma_doc_section_flags_zero(r);
    lemma_doc_task_flags_pointwise(r, ss);
}

/// A click while browsing leads to a well-formed state again.
proof fn lemma_idle_click_preserves_inv(m: AppModel, c: ClickTarget)
    requires
        app_inv(m),
        m.mode == Mode::Idle,
    ensures
        app_inv(spec_idle_click(m, c)),
{
    match c {
        ClickTarget::SectionTitle(i) => {
            let ii = i as int;
            if ii < m.sections.len() {
                lemma_doc_section_flags_zero_elem(m.sections, ii);
                let s2 = SectionModel { is_editing: true, ..m.sections[ii] };
                lemma_doc_flags_update(m.sections, ii, s2);
            }
        },
        ClickTarget::TaskLabel(i, j) => {
            let ii = i as int;
            let jj = j as int;
            if ii < m.sections.len() && jj < m.sections[ii].tasks.len() {
                lemma_doc_task_flags_zero_elem(m.sections, ii);
                lemma_task_flags_zero_elem(m.sections[ii].tasks, jj);
                let t2 = TaskModel { is_editing: true, ..m.sections[ii].tasks[jj] };
                lemma_task_flags_update(m.sections[ii].tasks, jj, t2);
                let s2 = SectionModel {
                    tasks: m.sections[ii].tasks.update(jj, t2),
                    ..m.sections[ii]
                };
                lemma_doc_flags_update(m.sections, ii, s2);
            }
        },
        ClickTarget::ToggleDone(i, j) => {
            lemma_toggle_preserves_counts(m.sections, i as int, j as int);
        },
        ClickTarget::AddTask(i) => {
            let ii = i as int;
            if ii < m.sections.len() {
                lemma_doc_task_flags_zero_elem(m.sections, ii);
                lemma_task_flags_push(m.sections[ii].tasks, blank_editing_task());
                let s2 = SectionModel {
                    tasks: m.sections[ii].tasks.push(blank_editing_task()),
                    ..m.sections[ii]
                };
                lemma_doc_flags_update(m.sections, ii, s2);
            }
        },
        ClickTarget::AddSection => {
            lemma_doc_flags_push(m.sections, blank_editing_section());
            assert(task_flags(Seq::<TaskModel>::empty()) == 0);
        },
    }
}

/// Law: every frame ends in a well-formed state — at most one entity is
/// under edit, and the mode names its kind.
pub proof fn lemma_step_preserves_inv(m: AppModel, inp: InputModel)
    requires
        app_inv(m),
    ensures
        app_inv(spec_step(m, inp)),
{
    match m.mode {
        Mode::Idle => {
            let z1 = if inp.arrow_up {
                zoom_up(m.zoom_tenths)
            } else {
                m.zoom_tenths
            };
            let z2 = if inp.arrow_down {
                zoom_down(z1)
            } else {
                z1
            };
            let mz = AppModel { zoom_tenths: z2, ..m };
            assert(ZOOM_MIN_TENTHS <= z2 <= ZOOM_MAX_TENTHS);
            match inp.click {
                Some(c) => lemma_idle_click_preserves_inv(mz, c),
                None => {},
            }
        },
        Mode::EditingTask => {
            let m1 = match inp.click {
                Some(ClickTarget::ToggleDone(i, j)) => {
                    lemma_toggle_preserves_counts(m.sections, i as int, j as int);
                    AppModel { sections: spec_toggle_done(m.sections, i as int, j as int), ..m }
                },
                _ => m,
            };
            let m2 = match inp.edited_text {
                Some(t) => {
                    lemma_set_task_texts_preserves_counts(m1.sections, t);
                    AppModel { sections: spec_set_task_texts(m1.sections, t), ..m1 }
                },
                None => m1,
            };
            if commits(inp) {
                lemma_clear_task_flags_counts(m2.sections);
            }
        },
        Mode::EditingSection => {
            let m1 = match inp.click {
                Some(ClickTarget::ToggleDone(i, j)) => {
                    lemma_toggle_preserves_counts(m.sections, i as int, j as int);
                    AppModel { sections: spec_toggle_done(m.sections, i as int, j as int), ..m }
                },
                _ => m,
            };
            let m2 = match inp.edited_text {
                Some(t) => {
                    lemma_set_section_titles_preserves_counts(m1.sections, t);
                    AppModel { sections: spec_set_section_titles(m1.sections, t), ..m1 }
                },
                None => m1,
            };
            if commits(inp) {
                lemma_clear_section_flags_counts(m2.sections);
            }
        },
    }
}

/// Law: clicking a section's blank trailing slot appends exactly one blank
/// task to that section, leaves every other section alone, and enters task
/// editing with focus pending.
pub proof fn lemma_slot_click_appends_task(m: AppModel, inp: InputModel, i: usize)
    requires
        app_inv(m),
        m.mode == Mode::Idle,
        inp.click == Some(ClickTarget::AddTask(i)),
        (i as int) < m.sections.len(),
    ensures
        spec_step(m, inp).sections.len() == m.sections.len(),
        spec_step(m, inp).sections[i as int].tasks.len() == m.sections[i as int].tasks.len() + 1,
        spec_step(m, inp).sections[i as int].tasks.last() == blank_editing_task(),
        spec_step(m, inp).sections[i as int].tasks.drop_last() == m.sections[i as int].tasks,
        forall|k: int|
            0 <= k < m.sections.len() && k != i as int ==> spec_step(m, inp).sections[k]
                == m.sections[k],
        spec_step(m, inp).mode == Mode::EditingTask,
        spec_step(m, inp).pending_focus,
{
    assert(spec_step(m, inp).sections[i as int].tasks.drop_last() =~~= m.sections[i as int].tasks);
}

/// Law: clicking the document's blank trailing slot appends exactly one
/// blank section, leaves the others alone, and enters section editing with
/// focus pending.
pub proof fn lemma_slot_click_appends_section(m: AppModel, inp: InputModel)
    requires
        app_inv(m),
        m.mode == Mode::Idle,
        inp.click == Some(ClickTarget::AddSection),
    ensures
        spec_step(m, inp).sections.len() == m.sections.len() + 1,
        spec_step(m, inp).sections.last() == blank_editing_section(),
        forall|k: int|
            0 <= k < m.sections.len() ==> spec_step(m, inp).sections[k] == m.sections[k],
        spec_step(m, inp).mode == Mode::EditingSection,
        spec_step(m, inp).pending_focus,
{
}

/// Law: committing an edit (the focused field lost focus while Enter or
/// Escape was down) always returns the mode to `Idle` and leaves no entity
/// flagged as being edited.
pub proof fn lemma_commit_returns_to_idle(m: AppModel, inp: InputModel)
    requires
        app_inv(m),
        m.mode == Mode::EditingTask || m.mode == Mode::EditingSection,
        commits(inp),
    ensures
        spec_step(m, inp).mode == Mode::Idle,
        doc_section_flags(spec_step(m, inp).sections) == 0,
        doc_task_flags(spec_step(m, inp).sections) == 0,
        forall|k: int|
            0 <= k < spec_step(m, inp).sections.len() ==> !spec_step(m, inp).sections[k].is_editing,
        forall|k: int, l: int|
            0 <= k < spec_step(m, inp).sections.len() && 0 <= l < spec_step(
                m,
                inp,
            ).sections[k].tasks.len() ==> !spec_step(m, inp).sections[k].tasks[l].is_editing,
        app_inv(spec_step(m, inp)),
{
    lemma_step_preserves_inv(m, inp);
    let r = spec_step(m, inp);
    assert forall|k: int| 0 <= k < r.sections.len() implies !r.sections[k].is_editing by {
        lemma_doc_section_flags_zero_elem(r.sections, k);
    }
    assert forall|k: int, l: int|
        0 <= k < r.sections.len() && 0 <= l < r.sections[k].tasks.len() implies !r.sections[k].tasks[l].is_editing by {
        lemma_doc_task_flags_zero_elem(r.sections, k);
        lemma_task_flags_zero_elem(r.sections[k].tasks, l);
    }
}

impl App {
    /// Folds one frame's input snapshot into the state, as [`spec_step`]
    /// describes, and reports whether the zoom factor was stepped (so the
    /// frontend can forward the new scale to the window).
    pub fn apply(&mut self, input: &FrameInput) -> (zoom_changed: bool)
        requires
            app_inv(old(self)@),
        ensures
            final(self)@ == spec_step(old(self)@, input@),
            app_inv(final(self)@),
            zoom_changed == (old(self)@.mode == Mode::Idle && (input@.arrow_up
                || input@.arrow_down)),
    {
        proof {
            lemma_step_preserves_inv(old(self)@, input@);
        }
        let mut zoom_changed = false;
        match self.ui.mode {
            Mode::Idle => {
                if input.arrow_up {
                    let z = self.ui.zoom_tenths;
                    self.ui.zoom_tenths = if z + ZOOM_STEP_TENTHS >= ZOOM_MAX_TENTHS {
                        ZOOM_MAX_TENTHS
                    } else {
                        z + ZOOM_STEP_TENTHS
                    };
                    zoom_changed = true;
                }
                if input.arrow_down {
                    let z = self.ui.zoom_tenths;
                    self.ui.zoom_tenths = if z <= ZOOM_MIN_TENTHS + ZOOM_STEP_TENTHS {
                        ZOOM_MIN_TENTHS
                    } else {
                        z - ZOOM_STEP_TENTHS
                    };
                    zoom_changed = true;
                }
                match input.click {
                    None => {},
                    Some(ClickTarget::SectionTitle(i)) => {
                        if i < self.doc.sections.len() {
                            self.doc.sections[i].is_editing = true;
                            self.ui.mode = Mode::EditingSection;
                        }
                    },
                    Some(ClickTarget::TaskLabel(i, j)) => {
                        if i < self.doc.sections.len() {
                            if j < self.doc.sections[i].tasks.len() {
                                self.doc.sections[i].tasks[j].is_editing = true;
                                self.ui.mode = Mode::EditingTask;
                                self.ui.pending_focus = true;
                            }
                        }
                    },
                    Some(ClickTarget::ToggleDone(i, j)) => {
                        toggle_task_done(&mut self.doc, i, j);
                    },
                    Some(ClickTarget::AddTask(i)) => {
                        if i < self.doc.sections.len() {
                            self.doc.sections[i].add_task("", true);
                            self.ui.mode = Mode::EditingTask;
                            self.ui.pending_focus = true;
                        }
                    },
                    Some(ClickTarget::AddSection) => {
                        self.doc.add_section("", true);
                        self.ui.mode = Mode::EditingSection;
                        self.ui.pending_focus = true;
                    },
                }
                proof {
                    reveal_strlit("");
                    assert(""@ =~= Seq::<char>::empty());
                    assert(self@ =~~= spec_step(old(self)@, input@));
                }
            },
            Mode::EditingTask => {
                if let Some(ClickTarget::ToggleDone(i, j)) = input.click {
                    toggle_task_done(&mut self.doc, i, j);
                }
                if let Some(t) = &input.edited_text {
                    set_editing_task_texts(&mut self.doc, t.as_str());
                }
                if input.lost_focus && (input.enter || input.escape) {
                    clear_all_task_flags(&mut self.doc);
                    self.ui.mode = Mode::Idle;
                }
                proof {
                    assert(self@ =~~= spec_step(old(self)@, input@));
                }
            },
            Mode::EditingSection => {
                if let Some(ClickTarget::ToggleDone(i, j)) = input.click {
                    toggle_task_done(&mut self.doc, i, j);
                }
                if let Some(t) = &input.edited_text {
                    set_editing_section_titles(&mut self.doc, t.as_str());
                }
                if input.lost_focus && (input.enter || input.escape) {
                    clear_all_section_flags(&mut self.doc);
                    self.ui.mode = Mode::Idle;
                }
                proof {
                    assert(self@ =~~= spec_step(old(self)@, input@));
                }
            },
        }
        zoom_changed
    }
}

} // verus!
