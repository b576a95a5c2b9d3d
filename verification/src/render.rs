//! The frame output: the ordered list of draw commands rebuilt every frame
//! from the current state, strictly in document insertion order.

use vstd::prelude::*;

verus! {

use crate::model::{app_inv, App, Document, Mode, SectionModel, TaskModel};

/// One widget of a frame, in draw order.
pub enum DrawCmd {
    /// A static section title.
    Heading { text: String },
    /// A clickable section title, shown while browsing.
    ClickableHeading { text: String },
    /// A static task row: checkbox and label.
    TaskRow { text: String, done: bool },
    /// A clickable task row, shown while browsing.
    ClickableTaskRow { text: String, done: bool },
    /// The task under edit: checkbox and a text field.
    TaskField { text: String, done: bool, focused: bool },
    /// The section title under edit: a text field.
    TitleField { text: String, focused: bool },
    /// The blank trailing slot of a section that appends a task.
    AddTaskSlot,
    /// The blank trailing slot of the document that appends a section.
    AddSectionSlot,
}

/// Mathematical model of a [`DrawCmd`].
#[verifier::ext_equal]
pub ghost enum DrawModel {
    Heading { text: Seq<char> },
    ClickableHeading { text: Seq<char> },
    TaskRow { text: Seq<char>, done: bool },
    ClickableTaskRow { text: Seq<char>, done: bool },
    TaskField { text: Seq<char>, done: bool, focused: bool },
    TitleField { text: Seq<char>, focused: bool },
    AddTaskSlot,
    AddSectionSlot,
}

impl View for DrawCmd {
    type V = DrawModel;

    open spec fn view(&self) -> DrawModel {
        match self {
            DrawCmd::Heading { text } => DrawModel::Heading { text: text@ },
            DrawCmd::ClickableHeading { text } => DrawModel::ClickableHeading { text: text@ },
            DrawCmd::TaskRow { text, done } => DrawModel::TaskRow { text: text@, done: *done },
            DrawCmd::ClickableTaskRow { text, done } => DrawModel::ClickableTaskRow {
                text: text@,
                done: *done,
            },
            DrawCmd::TaskField { text, done, focused } => DrawModel::TaskField {
                text: text@,
                done: *done,
                focused: *focused,
            },
            DrawCmd::TitleField { text, focused } => DrawModel::TitleField {
                text: text@,
                focused: *focused,
            },
            DrawCmd::AddTaskSlot => DrawModel::AddTaskSlot,
            DrawCmd::AddSectionSlot => DrawModel::AddSectionSlot,
        }
    }
}

/// The views of a command list, for contracts.
pub open spec fn cmd_views(cs: Seq<DrawCmd>) -> Seq<DrawModel> {
    cs.map_values(|c: DrawCmd| c@)
}

/// Drawing one more command appends its view to the frame's list.
proof fn lemma_cmd_views_push(cs: Seq<DrawCmd>, c: DrawCmd)
    ensures
        cmd_views(cs.push(c)) == cmd_views(cs).push(c@),
{
    assert(cmd_views(cs.push(c)) =~~= cmd_views(cs).push(c@));
}

/// Browsing: every task is a clickable row.
pub open spec fn idle_task_rows(ts: Seq<TaskModel>) -> Seq<DrawModel>
    decreases ts.len(),
{
    if ts.len() == 0 {
        Seq::empty()
    } else {
        idle_task_rows(ts.drop_last()).push(
            DrawModel::ClickableTaskRow { text: ts.last().text, done: ts.last().done },
        )
    }
}

/// Browsing: a clickable title, the task rows, then the blank slot that
/// appends a task.
pub open spec fn idle_section_cmds(s: SectionModel) -> Seq<DrawModel> {
    seq![DrawModel::ClickableHeading { text: s.title }] + idle_task_rows(s.tasks) + seq![
        DrawModel::AddTaskSlot,
    ]
}

/// Browsing: the sections in insertion order.
pub open spec fn idle_cmds(ss: Seq<SectionModel>) -> Seq<DrawModel>
    decreases ss.len(),
{
    if ss.len() == 0 {
        Seq::empty()
    } else {
        idle_cmds(ss.drop_last()) + idle_section_cmds(ss.last())
    }
}

/// While a task is edited: static rows, except the task under edit, whose
/// row is a text field (focused when focus is pending).
pub open spec fn edit_task_rows(ts: Seq<TaskModel>, pending: bool) -> Seq<DrawModel>
    decreases ts.len(),
{
    if ts.len() == 0 {
        Seq::empty()
    } else {
        edit_task_rows(ts.drop_last(), pending).push(
            if ts.last().is_editing {
                DrawModel::TaskField {
                    text: ts.last().text,
                    done: ts.last().done,
                    focused: pending,
                }
            } else {
                DrawModel::TaskRow { text: ts.last().text, done: ts.last().done }
            },
        )
    }
}

/// While a task is edited: a static heading and the section's rows.
pub open spec fn edit_task_section_cmds(s: SectionModel, pending: bool) -> Seq<DrawModel> {
    seq![DrawModel::Heading { text: s.title }] + edit_task_rows(s.tasks, pending)
}

/// While a task is edited: the sections in insertion order.
pub open spec fn edit_task_cmds(ss: Seq<SectionModel>, pending: bool) -> Seq<DrawModel>
    decreases ss.len(),
{
    if ss.len() == 0 {
        Seq::empty()
    } else {
        edit_task_cmds(ss.drop_last(), pending) + edit_task_section_cmds(ss.last(), pending)
    }
}

/// While a section is edited: every task is a static row.
pub open spec fn static_task_rows(ts: Seq<TaskModel>) -> Seq<DrawModel>
    decreases ts.len(),
{
    if ts.len() == 0 {
        Seq::empty()
    } else {
        static_task_rows(ts.drop_last()).push(
            DrawModel::TaskRow { text: ts.last().text, done: ts.last().done },
        )
    }
}

/// While a section is edited: the title is a text field for the section
/// under edit (focused when focus is pending) and a static heading
/// otherwise, then the section's rows.
pub open spec fn edit_section_section_cmds(s: SectionModel, pending: bool) -> Seq<DrawModel> {
    (if s.is_editing {
        seq![DrawModel::TitleField { text: s.title, focused: pending }]
    } else {
        seq![DrawModel::Heading { text: s.title }]
    }) + static_task_rows(s.tasks)
}

/// While a section is edited: the sections in insertion order.
pub open spec fn edit_section_cmds(ss: Seq<SectionModel>, pending: bool) -> Seq<DrawModel>
    decreases ss.len(),
{
    if ss.len() == 0 {
        Seq::empty()
    } else {
        edit_section_cmds(ss.drop_last(), pending) + edit_section_section_cmds(ss.last(), pending)
    }
}

/// Everything one frame draws, top to bottom, for the given mode and
/// pending-focus flag.
pub open spec fn spec_render(ss: Seq<SectionModel>, mode: Mode, pending: bool) -> Seq<DrawModel> {
    match mode {
        Mode::Idle => idle_cmds(ss) + seq![DrawModel::AddSectionSlot],
        Mode::EditingTask => edit_task_cmds(ss, pending),
        Mode::EditingSection => edit_section_cmds(ss, pending),
    }
}

/// Builds the frame's draw commands from the document, in insertion order.
fn render_cmds(doc: &Document, mode: Mode, pending: bool) -> (cmds: Vec<DrawCmd>)
    ensures
        cmd_views(cmds@) == spec_render(doc@, mode, pending),
{
    let mut cmds: Vec<DrawCmd> = Vec::new();
    let n = doc.sections.len();
    let mut i: usize = 0;
    match mode {
        Mode::Idle => {
            while i < n
                invariant
                    n == doc.sections@.len(),
                    i <= n,
                    cmd_views(cmds@) == idle_cmds(doc@.take(i as int)),
                decreases n - i,
            {
                let ghost prefix = cmd_views(cmds@);
                cmds.push(DrawCmd::ClickableHeading { text: doc.sections[i].title.clone() });
                let m = doc.sections[i].tasks.len();
                let mut j: usize = 0;
                while j < m
                    invariant
                        n == doc.sections@.len(),
                        0 <= i < n,
                        m == doc@[i as int].tasks.len(),
                        j <= m,
                        prefix == idle_cmds(doc@.take(i as int)),
                        cmd_views(cmds@) =~~= prefix + seq![
                            DrawModel::ClickableHeading { text: doc@[i as int].title },
                        ] + idle_task_rows(doc@[i as int].tasks.take(j as int)),
                    decreases m - j,
                {
                    let ghost pre = cmds@;
                    let row = DrawCmd::ClickableTaskRow {
                        text: doc.sections[i].tasks[j].text.clone(),
                        done: doc.sections[i].tasks[j].done,
                    };
                    proof {
                        lemma_cmd_views_push(pre, row);
                    }
                    cmds.push(row);
                    proof {
                        let ts = doc@[i as int].tasks;
                        let h = seq![DrawModel::ClickableHeading { text: doc@[i as int].title }];
                        assert(ts.take(j + 1).drop_last() =~~= ts.take(j as int));
                        assert(ts.take(j + 1).last() == ts[j as int]);
                        assert(idle_task_rows(ts.take(j + 1)) == idle_task_rows(
                            ts.take(j as int),
                        ).push(row@));
                        assert(cmd_views(cmds@) =~~= prefix + h + idle_task_rows(ts.take(j + 1)));
                    }
                    j += 1;
                }
                let ghost pre_slot = cmds@;
                proof {
                    lemma_cmd_views_push(pre_slot, DrawCmd::AddTaskSlot);
                }
                cmds.push(DrawCmd::AddTaskSlot);
                proof {
                    let ss = doc@;
                    let s = ss[i as int];
                    let h = seq![DrawModel::ClickableHeading { text: s.title }];
                    assert(s.tasks.take(m as int) =~~= s.tasks);
                    assert(ss.take(i + 1).drop_last() =~~= ss.take(i as int));
                    assert(ss.take(i + 1).last() == s);
                    assert(idle_cmds(ss.take(i + 1)) == idle_cmds(ss.take(i as int))
                        + idle_section_cmds(s));
                    assert(cmd_views(cmds@) =~~= prefix + (h + idle_task_rows(s.tasks) + seq![
                        DrawModel::AddTaskSlot,
                    ]));
                    assert(cmd_views(cmds@) =~~= idle_cmds(ss.take(i + 1)));
                }
                i += 1;
            }
            proof {
                assert(doc@.take(n as int) =~~= doc@);
                lemma_cmd_views_push(cmds@, DrawCmd::AddSectionSlot);
            }
            cmds.push(DrawCmd::AddSectionSlot);
            proof {
                assert(cmd_views(cmds@) =~~= idle_cmds(doc@) + seq![DrawModel::AddSectionSlot]);
            }
        },
        Mode::EditingTask => {
            while i < n
                invariant
                    n == doc.sections@.len(),
                    i <= n,
                    cmd_views(cmds@) == edit_task_cmds(doc@.take(i as int), pending),
                decreases n - i,
            {
                let ghost prefix = cmd_views(cmds@);
                cmds.push(DrawCmd::Heading { text: doc.sections[i].title.clone() });
                let m = doc.sections[i].tasks.len();
                let mut j: usize = 0;
                while j < m
                    invariant
                        n == doc.sections@.len(),
                        0 <= i < n,
                        m == doc@[i as int].tasks.len(),
                        j <= m,
                        prefix == edit_task_cmds(doc@.take(i as int), pending),
                        cmd_views(cmds@) =~~= prefix + seq![
                            DrawModel::Heading { text: doc@[i as int].title },
                        ] + edit_task_rows(doc@[i as int].tasks.take(j as int), pending),
                    decreases m - j,
                {
                    let ghost pre = cmds@;
                    let row = if doc.sections[i].tasks[j].is_editing {
                        DrawCmd::TaskField {
                            text: doc.sections[i].tasks[j].text.clone(),
                            done: doc.sections[i].tasks[j].done,
                            focused: pending,
                        }
                    } else {
                        DrawCmd::TaskRow {
                            text: doc.sections[i].tasks[j].text.clone(),
                            done: doc.sections[i].tasks[j].done,
                        }
                    };
                    proof {
                        lemma_cmd_views_push(pre, row);
                    }
                    cmds.push(row);
                    proof {
                        let ts = doc@[i as int].tasks;
                        let h = seq![DrawModel::Heading { text: doc@[i as int].title }];
                        assert(ts.take(j + 1).drop_last() =~~= ts.take(j as int));
                        assert(ts.take(j + 1).last() == ts[j as int]);
                        assert(edit_task_rows(ts.take(j + 1), pending) == edit_task_rows(
                            ts.take(j as int),
                            pending,
                        ).push(row@));
                        assert(cmd_views(cmds@) =~~= prefix + h + edit_task_rows(
                            ts.take(j + 1),
                            pending,
                        ));
                    }
                    j += 1;
                }
                proof {
                    let ss = doc@;
                    let s = ss[i as int];
                    let h = seq![DrawModel::Heading { text: s.title }];
                    assert(s.tasks.take(m as int) =~~= s.tasks);
                    assert(ss.take(i + 1).drop_last() =~~= ss.take(i as int));
                    assert(ss.take(i + 1).last() == s);
                    assert(edit_task_cmds(ss.take(i + 1), pending) == edit_task_cmds(
                        ss.take(i as int),
                        pending,
                    ) + edit_task_section_cmds(s, pending));
                    assert(cmd_views(cmds@) =~~= prefix + (h + edit_task_rows(s.tasks, pending)));
                    assert(cmd_views(cmds@) =~~= edit_task_cmds(ss.take(i + 1), pending));
                }
                i += 1;
            }
            proof {
                assert(doc@.take(n as int) =~~= doc@);
            }
        },
        Mode::EditingSection => {
            while i < n
                invariant
                    n == doc.sections@.len(),
                    i <= n,
                    cmd_views(cmds@) == edit_section_cmds(doc@.take(i as int), pending),
                decreases n - i,
            {
                let ghost prefix = cmd_views(cmds@);
                let title_cmd = if doc.sections[i].is_editing {
                    DrawCmd::TitleField { text: doc.sections[i].title.clone(), focused: pending }
                } else {
                    DrawCmd::Heading { text: doc.sections[i].title.clone() }
                };
                proof {
                    lemma_cmd_views_push(cmds@, title_cmd);
                }
                cmds.push(title_cmd);
                let ghost head = cmd_views(cmds@);
                let m = doc.sections[i].tasks.len();
                let mut j: usize = 0;
                while j < m
                    invariant
                        n == doc.sections@.len(),
                        0 <= i < n,
                        m == doc@[i as int].tasks.len(),
                        j <= m,
                        prefix == edit_section_cmds(doc@.take(i as int), pending),
                        head =~~= prefix + (if doc@[i as int].is_editing {
                            seq![
                                DrawModel::TitleField {
                                    text: doc@[i as int].title,
                                    focused: pending,
                                },
                            ]
                        } else {
                            seq![DrawModel::Heading { text: doc@[i as int].title }]
                        }),
                        cmd_views(cmds@) =~~= head + static_task_rows(
                            doc@[i as int].tasks.take(j as int),
                        ),
                    decreases m - j,
                {
                    let ghost pre = cmds@;
                    let row = DrawCmd::TaskRow {
                        text: doc.sections[i].tasks[j].text.clone(),
                        done: doc.sections[i].tasks[j].done,
                    };
                    proof {
                        lemma_cmd_views_push(pre, row);
                    }
                    cmds.push(row);
                    proof {
                        let ts = doc@[i as int].tasks;
                        assert(ts.take(j + 1).drop_last() =~~= ts.take(j as int));
                        assert(ts.take(j + 1).last() == ts[j as int]);
                        assert(static_task_rows(ts.take(j + 1)) == static_task_rows(
                            ts.take(j as int),
                        ).push(row@));
                        assert(cmd_views(cmds@) =~~= head + static_task_rows(ts.take(j + 1)));
                    }
                    j += 1;
                }
                proof {
                    let ss = doc@;
                    let s = ss[i as int];
                    assert(s.tasks.take(m as int) =~~= s.tasks);
                    assert(ss.take(i + 1).drop_last() =~~= ss.take(i as int));
                    assert(ss.take(i + 1).last() == s);
                    assert(edit_section_cmds(ss.take(i + 1), pending) == edit_section_cmds(
                        ss.take(i as int),
                        pending,
                    ) + edit_section_section_cmds(s, pending));
                    assert(head =~~= prefix + (if s.is_editing {
                        seq![DrawModel::TitleField { text: s.title, focused: pending }]
                    } else {
                        seq![DrawModel::Heading { text: s.title }]
                    }));
                    assert(cmd_views(cmds@) =~~= head + static_task_rows(s.tasks));
                    assert(cmd_views(cmds@) =~~= edit_section_cmds(ss.take(i + 1), pending));
                }
                i += 1;
            }
            proof {
                assert(doc@.take(n as int) =~~= doc@);
            }
        },
    }
    cmds
}

impl App {
    /// Rebuilds the frame's draw commands from the current state.  While an
    /// edit field is on screen (any editing mode) the one-shot focus flag is
    /// consumed: the field claims focus this frame and the flag clears.
    pub fn render(&mut self) -> (cmds: Vec<DrawCmd>)
        ensures
            cmd_views(cmds@) == spec_render(
                old(self)@.sections,
                old(self)@.mode,
                old(self)@.pending_focus,
            ),
            final(self)@.sections == old(self)@.sections,
            final(self)@.mode == old(self)@.mode,
            final(self)@.zoom_tenths == old(self)@.zoom_tenths,
            final(self)@.pending_focus == (old(self)@.mode == Mode::Idle
                && old(self)@.pending_focus),
            app_inv(old(self)@) ==> app_inv(final(self)@),
    {
        let pending = self.ui.pending_focus;
        let cmds = render_cmds(&self.doc, self.ui.mode, pending);
        if !(matches!(self.ui.mode, Mode::Idle)) {
            self.ui.pending_focus = false;
        }
        cmds
    }
}

} // verus!
