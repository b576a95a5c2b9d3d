//! The document tree (sections of tasks), the interaction state next to it,
//! and the invariant that ties the two together: at most one entity is being
//! edited, and the mode says which kind it is.

use vstd::prelude::*;

verus! {

use vstd::string::StrSliceExecFns;

/// Lower bound of the zoom factor, in tenths (1.0).
pub const ZOOM_MIN_TENTHS: u32 = 10;

/// Upper bound of the zoom factor, in tenths (3.0).
pub const ZOOM_MAX_TENTHS: u32 = 30;

/// One arrow-key press changes the zoom factor by this many tenths (0.2).
pub const ZOOM_STEP_TENTHS: u32 = 2;

/// The discrete interaction state of the editor.
#[derive(Clone, Copy, Debug, PartialEq, Eq, Structural)]
pub enum Mode {
    Idle,
    EditingTask,
    EditingSection,
}

/// A single checkable to-do item.
#[derive(Clone, Debug, PartialEq)]
pub struct Task {
    pub text: String,
    pub done: bool,
    pub is_editing: bool,
}

/// A named group of tasks, kept in insertion order.
#[derive(Clone, Debug, PartialEq)]
pub struct Section {
    pub title: String,
    pub tasks: Vec<Task>,
    pub is_editing: bool,
}

/// The whole to-do tree: sections kept in insertion order.
#[derive(Clone, Debug, PartialEq)]
pub struct Document {
    pub sections: Vec<Section>,
}

/// Interaction state beside the document: the mode, a one-shot flag asking
/// the next-drawn edit field to claim keyboard focus, and the zoom factor,
/// stored in tenths so that it stays exact (10 means 1.0, 30 means 3.0).
#[derive(Clone, Debug, PartialEq)]
pub struct UIState {
    pub mode: Mode,
    pub pending_focus: bool,
    pub zoom_tenths: u32,
}

/// Document and interaction state together: everything the editor owns.
#[derive(Clone, Debug, PartialEq)]
pub struct App {
    pub doc: Document,
    pub ui: UIState,
}

/// Mathematical model of a [`Task`].
#[verifier::ext_equal]
pub ghost struct TaskModel {
    pub text: Seq<char>,
    pub done: bool,
    pub is_editing: bool,
}

/// Mathematical model of a [`Section`].
#[verifier::ext_equal]
pub ghost struct SectionModel {
    pub title: Seq<char>,
    pub tasks: Seq<TaskModel>,
    pub is_editing: bool,
}

/// Mathematical model of the whole application state.
#[verifier::ext_equal]
pub ghost struct AppModel {
    pub sections: Seq<SectionModel>,
    pub mode: Mode,
    pub pending_focus: bool,
    pub zoom_tenths: u32,
}

impl View for Task {
    type V = TaskModel;

    open spec fn view(&self) -> TaskModel {
        TaskModel { text: self.text@, done: self.done, is_editing: self.is_editing }
    }
}

impl View for Section {
    type V = SectionModel;

    open spec fn view(&self) -> SectionModel {
        SectionModel {
            title: self.title@,
            tasks: self.tasks@.map_values(|t: Task| t@),
            is_editing: self.is_editing,
        }
    }
}

impl View for Document {
    type V = Seq<SectionModel>;

    open spec fn view(&self) -> Seq<SectionModel> {
        self.sections@.map_values(|s: Section| s@)
    }
}

impl View for App {
    type V = AppModel;

    open spec fn view(&self) -> AppModel {
        AppModel {
            sections: self.doc@,
            mode: self.ui.mode,
            pending_focus: self.ui.pending_focus,
            zoom_tenths: self.ui.zoom_tenths,
        }
    }
}

/// How many tasks of one section carry the editing flag.
pub open spec fn task_flags(ts: Seq<TaskModel>) -> nat
    decreases ts.len(),
{
    if ts.len() == 0 {
        0
    } else {
        task_flags(ts.drop_last()) + if ts.last().is_editing {
            1nat
        } else {
            0nat
        }
    }
}

/// How many tasks across all sections carry the editing flag.
pub open spec fn doc_task_flags(ss: Seq<SectionModel>) -> nat
    decreases ss.len(),
{
    if ss.len() == 0 {
        0
    } else {
        doc_task_flags(ss.drop_last()) + task_flags(ss.last().tasks)
    }
}

/// How many sections carry the editing flag.
pub open spec fn doc_section_flags(ss: Seq<SectionModel>) -> nat
    decreases ss.len(),
{
    if ss.len() == 0 {
        0
    } else {
        doc_section_flags(ss.drop_last()) + if ss.last().is_editing {
            1nat
        } else {
            0nat
        }
    }
}

/// How one task weighs in [`task_flags`].
pub open spec fn flag_of(editing: bool) -> nat {
    if editing {
        1nat
    } else {
        0nat
    }
}

/// Appending a task adds its flag to the section's count.
pub proof fn lemma_task_flags_push(ts: Seq<TaskModel>, t: TaskModel)
    ensures
        task_flags(ts.push(t)) == task_flags(ts) + flag_of(t.is_editing),
{
    assert(ts.push(t).drop_last() =~= ts);
}

/// Replacing one task swaps its flag for the new one in the section's count.
pub proof fn lemma_task_flags_update(ts: Seq<TaskModel>, i: int, t: TaskModel)
    requires
        0 <= i < ts.len(),
    ensures
        task_flags(ts.update(i, t)) + flag_of(ts[i].is_editing) == task_flags(ts) + flag_of(
            t.is_editing,
        ),
    decreases ts.len(),
{
    if i == ts.len() - 1 {
        assert(ts.update(i, t).drop_last() =~= ts.drop_last());
    } else {
        assert(ts.update(i, t).drop_last() =~= ts.drop_last().update(i, t));
        lemma_task_flags_update(ts.drop_last(), i, t);
    }
}

/// The count reads nothing of a task but its editing flag.
pub proof fn lemma_task_flags_pointwise(a: Seq<TaskModel>, b: Seq<TaskModel>)
    requires
        a.len() == b.len(),
        forall|i: int| 0 <= i < a.len() ==> a[i].is_editing == b[i].is_editing,
    ensures
        task_flags(a) == task_flags(b),
    decreases a.len(),
{
    if a.len() > 0 {
        lemma_task_flags_pointwise(a.drop_last(), b.drop_last());
    }
}

/// A section where no task is flagged counts zero.
pub proof fn lemma_task_flags_zero(ts: Seq<TaskModel>)
    requires
        forall|i: int| 0 <= i < ts.len() ==> !ts[i].is_editing,
    ensures
        task_flags(ts) == 0,
    decreases ts.len(),
{
    if ts.len() > 0 {
        lemma_task_flags_zero(ts.drop_last());
    }
}

/// Appending a section adds its own flag and its tasks' flags to the
/// document-wide counts.
pub proof fn lemma_doc_flags_push(ss: Seq<SectionModel>, s: SectionModel)
    ensures
        doc_section_flags(ss.push(s)) == doc_section_flags(ss) + flag_of(s.is_editing),
        doc_task_flags(ss.push(s)) == doc_task_flags(ss) + task_flags(s.tasks),
{
    assert(ss.push(s).drop_last() =~~= ss);
}

/// Replacing one section swaps its contributions in the document-wide counts.
pub proof fn lemma_doc_flags_update(ss: Seq<SectionModel>, i: int, s: SectionModel)
    requires
        0 <= i < ss.len(),
    ensures
        doc_section_flags(ss.update(i, s)) + flag_of(ss[i].is_editing) == doc_section_flags(ss)
            + flag_of(s.is_editing),
        doc_task_flags(ss.update(i, s)) + task_flags(ss[i].tasks) == doc_task_flags(ss)
            + task_flags(s.tasks),
    decreases ss.len(),
{
    if i == ss.len() - 1 {
        assert(ss.update(i, s).drop_last() =~~= ss.drop_last());
    } else {
        assert(ss.update(i, s).drop_last() =~~= ss.drop_last().update(i, s));
        lemma_doc_flags_update(ss.drop_last(), i, s);
    }
}

/// The section count reads nothing of a section but its own flag.
pub proof fn lemma_doc_section_flags_pointwise(a: Seq<SectionModel>, b: Seq<SectionModel>)
    requires
        a.len() == b.len(),
        forall|i: int| 0 <= i < a.len() ==> a[i].is_editing == b[i].is_editing,
    ensures
        doc_section_flags(a) == doc_section_flags(b),
    decreases a.len(),
{
    if a.len() > 0 {
        lemma_doc_section_flags_pointwise(a.drop_last(), b.drop_last());
    }
}

/// The task count reads nothing of a section but its tasks' flag count.
pub proof fn lemma_doc_task_flags_pointwise(a: Seq<SectionModel>, b: Seq<SectionModel>)
    requires
        a.len() == b.len(),
        forall|i: int| 0 <= i < a.len() ==> task_flags(a[i].tasks) == task_flags(b[i].tasks),
    ensures
        doc_task_flags(a) == doc_task_flags(b),
    decreases a.len(),
{
    if a.len() > 0 {
        lemma_doc_task_flags_pointwise(a.drop_last(), b.drop_last());
    }
}

/// A section counting zero has no flagged task.
pub proof fn lemma_task_flags_zero_elem(ts: Seq<TaskModel>, i: int)
    requires
        task_flags(ts) == 0,
        0 <= i < ts.len(),
    ensures
        !ts[i].is_editing,
    decreases ts.len(),
{
    if i < ts.len() - 1 {
        lemma_task_flags_zero_elem(ts.drop_last(), i);
    }
}

/// A document counting zero sections under edit has no flagged section.
pub proof fn lemma_doc_section_flags_zero_elem(ss: Seq<SectionModel>, i: int)
    requires
        doc_section_flags(ss) == 0,
        0 <= i < ss.len(),
    ensures
        !ss[i].is_editing,
    decreases ss.len(),
{
    if i < ss.len() - 1 {
        lemma_doc_section_flags_zero_elem(ss.drop_last(), i);
    }
}

/// A document counting zero tasks under edit has none in any section.
pub proof fn lemma_doc_task_flags_zero_elem(ss: Seq<SectionModel>, i: int)
    requires
        doc_task_flags(ss) == 0,
        0 <= i < ss.len(),
    ensures
        task_flags(ss[i].tasks) == 0,
    decreases ss.len(),
{
    if i < ss.len() - 1 {
        lemma_doc_task_flags_zero_elem(ss.drop_last(), i);
    }
}

/// A document where no section is flagged has a zero section count.
pub proof fn lemma_doc_section_flags_zero(ss: Seq<SectionModel>)
    requires
        forall|i: int| 0 <= i < ss.len() ==> !ss[i].is_editing,
    ensures
        doc_section_flags(ss) == 0,
    decreases ss.len(),
{
    if ss.len() > 0 {
        lemma_doc_section_flags_zero(ss.drop_last());
    }
}

/// A document where no section contains a flagged task has a zero task count.
pub proof fn lemma_doc_task_flags_zero(ss: Seq<SectionModel>)
    requires
        forall|i: int| 0 <= i < ss.len() ==> task_flags(ss[i].tasks) == 0,
    ensures
        doc_task_flags(ss) == 0,
    decreases ss.len(),
{
    if ss.len() > 0 {
        lemma_doc_task_flags_zero(ss.drop_last());
    }
}

/// Well-formedness of the whole state: the zoom factor is in range, and the
/// mode matches the editing flags — no entity is marked as being edited in
/// `Idle`, exactly one task (and no section) in `EditingTask`, and exactly
/// one section (and no task) in `EditingSection`.
pub open spec fn app_inv(m: AppModel) -> bool {
    &&& ZOOM_MIN_TENTHS <= m.zoom_tenths <= ZOOM_MAX_TENTHS
    &&& (m.mode == Mode::Idle ==> doc_section_flags(m.sections) == 0 && doc_task_flags(m.sections)
        == 0)
    &&& (m.mode == Mode::EditingTask ==> doc_section_flags(m.sections) == 0 && doc_task_flags(
        m.sections,
    ) == 1)
    &&& (m.mode == Mode::EditingSection ==> doc_section_flags(m.sections) == 1 && doc_task_flags(
        m.sections,
    ) == 0)
}

/// The task a fresh document starts with.
pub open spec fn default_task_model() -> TaskModel {
    TaskModel { text: "New task"@, done: false, is_editing: false }
}

/// The section a fresh document starts with: placeholder title, one default
/// task, already being renamed.
pub open spec fn default_section_model() -> SectionModel {
    SectionModel { title: "New Section"@, tasks: seq![default_task_model()], is_editing: true }
}

impl Task {
    /// A fresh task: placeholder text, not done, not being edited.
    pub fn default() -> (t: Task)
        ensures
            t@ == default_task_model(),
    {
        let t = Task { text: "New task".to_owned(), done: false, is_editing: false };
        proof {
            assert(t@ =~~= default_task_model());
        }
        t
    }
}

impl Section {
    /// A fresh section: placeholder title, one default task, and the title
    /// already being edited so the user can name it at once.
    pub fn default() -> (s: Section)
        ensures
            s@ == default_section_model(),
    {
        let mut tasks: Vec<Task> = Vec::new();
        tasks.push(Task::default());
        let s = Section { title: "New Section".to_owned(), tasks, is_editing: true };
        proof {
            assert(s@.tasks =~~= seq![default_task_model()]);
            assert(s@ =~~= default_section_model());
        }
        s
    }

    /// Appends a task with the given text to this section.
    pub fn add_task(&mut self, task: &str, edit: bool)
        ensures
            final(self)@.title == old(self)@.title,
            final(self)@.is_editing == old(self)@.is_editing,
            final(self)@.tasks == old(self)@.tasks.push(
                TaskModel { text: task@, done: false, is_editing: edit },
            ),
    {
        self.tasks.push(Task { text: task.to_owned(), done: false, is_editing: edit });
        proof {
            assert(self@.tasks =~~= old(self)@.tasks.push(
                TaskModel { text: task@, done: false, is_editing: edit },
            ));
        }
    }
}

/// Character-by-character string comparison, so that equality of the views
/// is established by the verifier rather than assumed of the standard
/// library's comparison.
pub fn str_eq(a: &str, b: &str) -> (r: bool)
    ensures
        r == (a@ == b@),
{
    let na = a.unicode_len();
    let nb = b.unicode_len();
    if na != nb {
        return false;
    }
    let mut i: usize = 0;
    while i < na
        invariant
            na == a@.len(),
            nb == b@.len(),
            na == nb,
            i <= na,
            forall|k: int| 0 <= k < i ==> a@[k] == b@[k],
        decreases na - i,
    {
        if a.get_char(i) != b.get_char(i) {
            return false;
        }
        i += 1;
    }
    proof {
        assert(a@ =~= b@);
    }
    true
}

impl Document {
    /// Appends a section with the given title and an empty task list.
    pub fn add_section(&mut self, title: &str, edit: bool)
        ensures
            final(self)@ == old(self)@.push(
                SectionModel { title: title@, tasks: Seq::empty(), is_editing: edit },
            ),
    {
        self.sections.push(Section { title: title.to_owned(), tasks: Vec::new(), is_editing: edit });
        proof {
            assert(self@ =~~= old(self)@.push(
                SectionModel { title: title@, tasks: Seq::empty(), is_editing: edit },
            ));
        }
    }

    /// Appends a task to the first section whose title matches, preserving
    /// everything else; a document with no matching section is left unchanged
    /// and the call reports failure.
    pub fn add_task(&mut self, section_title: &str, text: &str) -> (added: bool)
        ensures
            added == exists|i: int|
                0 <= i < old(self)@.len() && old(self)@[i].title == section_title@,
            !added ==> final(self)@ == old(self)@,
            added ==> exists|i: int|
                {
                    &&& 0 <= i < old(self)@.len()
                    &&& old(self)@[i].title == section_title@
                    &&& (forall|k: int| 0 <= k < i ==> old(self)@[k].title != section_title@)
                    &&& final(self)@ == old(self)@.update(
                        i,
                        SectionModel {
                            tasks: old(self)@[i].tasks.push(
                                TaskModel { text: text@, done: false, is_editing: false },
                            ),
                            ..old(self)@[i]
                        },
                    )
                },
    {
        let ghost old_doc = self@;
        let n = self.sections.len();
        let mut i: usize = 0;
        while i < n
            invariant
                n == self.sections.len(),
                i <= n,
                old_doc == old(self)@,
                self@ == old_doc,
                forall|k: int| 0 <= k < i ==> old_doc[k].title != section_title@,
            decreases n - i,
        {
            let matches_title = str_eq(self.sections[i].title.as_str(), section_title);
            if matches_title {
                self.sections[i].add_task(text, false);
                proof {
                    let w = i as int;
                    let updated = SectionModel {
                        tasks: old_doc[w].tasks.push(
                            TaskModel { text: text@, done: false, is_editing: false },
                        ),
                        ..old_doc[w]
                    };
                    assert(self@ =~~= old_doc.update(w, updated));
                    assert(0 <= w < old(self)@.len() && old(self)@[w].title == section_title@);
                    assert(exists|j: int|
                        0 <= j < old(self)@.len() && old(self)@[j].title == section_title@);
                    assert((forall|k: int| 0 <= k < w ==> old(self)@[k].title != section_title@)
                        && self@ == old(self)@.update(
                        w,
                        SectionModel {
                            tasks: old(self)@[w].tasks.push(
                                TaskModel { text: text@, done: false, is_editing: false },
                            ),
                            ..old(self)@[w]
                        },
                    ));
                }
                return true;
            }
            i += 1;
        }
        false
    }
}

/// A count capped at two: all the invariant ever asks of one.
pub open spec fn cap2(n: nat) -> nat {
    if n >= 2 {
        2
    } else {
        n
    }
}

/// Counts the sections under edit, stopping at two.
fn count_section_flags_capped(doc: &Document) -> (c: u8)
    ensures
        c as nat == cap2(doc_section_flags(doc@)),
{
    let n = doc.sections.len();
    let mut c: u8 = 0;
    let mut i: usize = 0;
    while i < n
        invariant
            n == doc.sections@.len(),
            i <= n,
            c as nat == cap2(doc_section_flags(doc@.take(i as int))),
            c <= 2,
        decreases n - i,
    {
        if doc.sections[i].is_editing && c < 2 {
            c += 1;
        }
        proof {
            assert(doc@.take(i + 1).drop_last() =~~= doc@.take(i as int));
            assert(doc@.take(i + 1).last() == doc@[i as int]);
        }
        i += 1;
    }
    proof {
        assert(doc@.take(n as int) =~~= doc@);
    }
    c
}

/// Counts the tasks under edit across the document, stopping at two.
fn count_task_flags_capped(doc: &Document) -> (c: u8)
    ensures
        c as nat == cap2(doc_task_flags(doc@)),
{
    let n = doc.sections.len();
    let mut c: u8 = 0;
    let mut i: usize = 0;
    while i < n
        invariant
            n == doc.sections@.len(),
            i <= n,
            c as nat == cap2(doc_task_flags(doc@.take(i as int))),
            c <= 2,
        decreases n - i,
    {
        let m = doc.sections[i].tasks.len();
        let mut j: usize = 0;
        while j < m
            invariant
                n == doc.sections@.len(),
                0 <= i < n,
                m == doc@[i as int].tasks.len(),
                j <= m,
                c as nat == cap2(
                    doc_task_flags(doc@.take(i as int)) + task_flags(
                        doc@[i as int].tasks.take(j as int),
                    ),
                ),
                c <= 2,
            decreases m - j,
        {
            if doc.sections[i].tasks[j].is_editing && c < 2 {
                c += 1;
            }
            proof {
                let ts = doc@[i as int].tasks;
                assert(ts.take(j + 1).drop_last() =~~= ts.take(j as int));
                assert(ts.take(j + 1).last() == ts[j as int]);
            }
            j += 1;
        }
        proof {
            assert(doc@[i as int].tasks.take(m as int) =~~= doc@[i as int].tasks);
            assert(doc@.take(i + 1).drop_last() =~~= doc@.take(i as int));
            assert(doc@.take(i + 1).last() == doc@[i as int]);
        }
        i += 1;
    }
    proof {
        assert(doc@.take(n as int) =~~= doc@);
    }
    c
}

impl App {
    /// The bootstrap state used when nothing was persisted: one default
    /// section (title under edit, focus pending) holding one default task,
    /// at normal zoom.
    pub fn default() -> (a: App)
        ensures
            a@.sections == seq![default_section_model()],
            a@.mode == Mode::EditingSection,
            a@.pending_focus,
            a@.zoom_tenths == ZOOM_MIN_TENTHS,
            app_inv(a@),
    {
        let mut sections: Vec<Section> = Vec::new();
        sections.push(Section::default());
        let a = App {
            doc: Document { sections },
            ui: UIState {
                mode: Mode::EditingSection,
                pending_focus: true,
                zoom_tenths: ZOOM_MIN_TENTHS,
            },
        };
        proof {
            assert(a@.sections =~~= seq![default_section_model()]);
            assert(task_flags(Seq::<TaskModel>::empty()) == 0);
            lemma_task_flags_push(Seq::<TaskModel>::empty(), default_task_model());
            assert(doc_section_flags(Seq::<SectionModel>::empty()) == 0);
            assert(doc_task_flags(Seq::<SectionModel>::empty()) == 0);
            lemma_doc_flags_push(Seq::<SectionModel>::empty(), default_section_model());
        }
        a
    }

    /// Whether the state is well-formed, exactly as [`app_inv`] asks.
    pub fn satisfies_inv(&self) -> (r: bool)
        ensures
            r == app_inv(self@),
    {
        let zoom_ok = ZOOM_MIN_TENTHS <= self.ui.zoom_tenths && self.ui.zoom_tenths
            <= ZOOM_MAX_TENTHS;
        let s = count_section_flags_capped(&self.doc);
        let t = count_task_flags_capped(&self.doc);
        match self.ui.mode {
            Mode::Idle => zoom_ok && s == 0 && t == 0,
            Mode::EditingTask => zoom_ok && s == 0 && t == 1,
            Mode::EditingSection => zoom_ok && s == 1 && t == 0,
        }
    }
}

} // verus!
