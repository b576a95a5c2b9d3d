//! The persistence codec: the whole state as one sequence of characters.
//!
//! The format needs no escaping: every variable-length run (a text, a count)
//! is a row of `'+'`-marked items closed by `'.'`, so a decoder always knows
//! from the next marker whether the run goes on.  Texts carry one character
//! after each `'+'`; counts carry none.  Decoding accepts exactly the
//! well-formed states: anything else comes back as `None`.

use vstd::prelude::*;

verus! {

use crate::model::{app_inv, App, AppModel, Document, Mode, Section, SectionModel, Task, TaskModel,
    UIState, ZOOM_MAX_TENTHS, ZOOM_MIN_TENTHS};
use vstd::slice::{slice_index_get, slice_subrange};
use vstd::string::StrSliceExecFns;

/// A run of `n` plus markers.
pub open spec fn plus_seq(n: nat) -> Seq<char>
    decreases n,
{
    if n == 0 {
        Seq::empty()
    } else {
        plus_seq((n - 1) as nat).push('+')
    }
}

/// A count: its markers, then the closing dot.
pub open spec fn enc_nat(n: nat) -> Seq<char> {
    plus_seq(n) + seq!['.']
}

/// A flag: one digit.
pub open spec fn enc_bool(b: bool) -> Seq<char> {
    if b {
        seq!['1']
    } else {
        seq!['0']
    }
}

/// The mode: one letter.
pub open spec fn enc_mode(m: Mode) -> Seq<char> {
    match m {
        Mode::Idle => seq!['I'],
        Mode::EditingTask => seq!['T'],
        Mode::EditingSection => seq!['S'],
    }
}

/// A text's characters, each behind a marker.
pub open spec fn enc_text_body(t: Seq<char>) -> Seq<char>
    decreases t.len(),
{
    if t.len() == 0 {
        Seq::empty()
    } else {
        enc_text_body(t.drop_last()) + seq!['+', t.last()]
    }
}

/// A text: its marked characters, then the closing dot.
pub open spec fn enc_text(t: Seq<char>) -> Seq<char> {
    enc_text_body(t) + seq!['.']
}

/// One task: text, done flag, editing flag.
pub open spec fn enc_task(t: TaskModel) -> Seq<char> {
    enc_text(t.text) + enc_bool(t.done) + enc_bool(t.is_editing)
}

/// The tasks of one section, in order.
pub open spec fn enc_task_list(ts: Seq<TaskModel>) -> Seq<char>
    decreases ts.len(),
{
    if ts.len() == 0 {
        Seq::empty()
    } else {
        enc_task_list(ts.drop_last()) + enc_task(ts.last())
    }
}

/// A task list: its count, then the tasks.
pub open spec fn enc_tasks(ts: Seq<TaskModel>) -> Seq<char> {
    enc_nat(ts.len()) + enc_task_list(ts)
}

/// One section: title, editing flag, tasks.
pub open spec fn enc_section(s: SectionModel) -> Seq<char> {
    enc_text(s.title) + enc_bool(s.is_editing) + enc_tasks(s.tasks)
}

/// The sections of the document, in order.
pub open spec fn enc_section_list(ss: Seq<SectionModel>) -> Seq<char>
    decreases ss.len(),
{
    if ss.len() == 0 {
        Seq::empty()
    } else {
        enc_section_list(ss.drop_last()) + enc_section(ss.last())
    }
}

/// A section list: its count, then the sections.
pub open spec fn enc_sections(ss: Seq<SectionModel>) -> Seq<char> {
    enc_nat(ss.len()) + enc_section_list(ss)
}

/// The zoom factor's offset above its lower bound.
pub open spec fn zoom_offset(z: u32) -> nat {
    if z >= ZOOM_MIN_TENTHS {
        (z - ZOOM_MIN_TENTHS) as nat
    } else {
        0
    }
}

/// The whole state: mode, focus flag, zoom offset, sections.
pub open spec fn spec_encode(m: AppModel) -> Seq<char> {
    enc_mode(m.mode) + enc_bool(m.pending_focus) + enc_nat(zoom_offset(m.zoom_tenths))
        + enc_sections(m.sections)
}

/// Reads one flag; what follows stays.
pub open spec fn spec_dec_bool(s: Seq<char>) -> Option<(bool, Seq<char>)> {
    if s.len() >= 1 && (s[0] == '0' || s[0] == '1') {
        Some(((s[0] == '1'), s.skip(1)))
    } else {
        None
    }
}

/// Reads the mode letter.
pub open spec fn spec_dec_mode(s: Seq<char>) -> Option<(Mode, Seq<char>)> {
    if s.len() >= 1 && s[0] == 'I' {
        Some((Mode::Idle, s.skip(1)))
    } else if s.len() >= 1 && s[0] == 'T' {
        Some((Mode::EditingTask, s.skip(1)))
    } else if s.len() >= 1 && s[0] == 'S' {
        Some((Mode::EditingSection, s.skip(1)))
    } else {
        None
    }
}

/// Reads a count: markers up to the closing dot.
pub open spec fn spec_dec_nat(s: Seq<char>) -> Option<(nat, Seq<char>)>
    decreases s.len(),
{
    if s.len() == 0 {
        None
    } else if s[0] == '.' {
        Some((0, s.skip(1)))
    } else if s[0] == '+' {
        match spec_dec_nat(s.skip(1)) {
            Some((n, r)) => Some((n + 1, r)),
            None => None,
        }
    } else {
        None
    }
}

/// Reads a text: marked characters up to the closing dot.
pub open spec fn spec_dec_text(s: Seq<char>) -> Option<(Seq<char>, Seq<char>)>
    decreases s.len(),
{
    if s.len() == 0 {
        None
    } else if s[0] == '.' {
        Some((Seq::empty(), s.skip(1)))
    } else if s[0] == '+' && s.len() >= 2 {
        match spec_dec_text(s.skip(2)) {
            Some((t, r)) => Some((seq![s[1]] + t, r)),
            None => None,
        }
    } else {
        None
    }
}

/// Reads one task.
pub open spec fn spec_dec_task(s: Seq<char>) -> Option<(TaskModel, Seq<char>)> {
    match spec_dec_text(s) {
        None => None,
        Some((text, s1)) => match spec_dec_bool(s1) {
            None => None,
            Some((done, s2)) => match spec_dec_bool(s2) {
                None => None,
                Some((editing, s3)) => Some(
                    (TaskModel { text, done, is_editing: editing }, s3),
                ),
            },
        },
    }
}

/// Reads exactly `n` tasks.
pub open spec fn spec_dec_task_list(s: Seq<char>, n: nat) -> Option<(Seq<TaskModel>, Seq<char>)>
    decreases n,
{
    if n == 0 {
        Some((Seq::empty(), s))
    } else {
        match spec_dec_task(s) {
            None => None,
            Some((t, r)) => match spec_dec_task_list(r, (n - 1) as nat) {
                None => None,
                Some((ts, r2)) => Some((seq![t] + ts, r2)),
            },
        }
    }
}

/// Reads a counted task list.
pub open spec fn spec_dec_tasks(s: Seq<char>) -> Option<(Seq<TaskModel>, Seq<char>)> {
    match spec_dec_nat(s) {
        None => None,
        Some((n, r)) => spec_dec_task_list(r, n),
    }
}

/// Reads one section.
pub open spec fn spec_dec_section(s: Seq<char>) -> Option<(SectionModel, Seq<char>)> {
    match spec_dec_text(s) {
        None => None,
        Some((title, s1)) => match spec_dec_bool(s1) {
            None => None,
            Some((editing, s2)) => match spec_dec_tasks(s2) {
                None => None,
                Some((ts, s3)) => Some(
                    (SectionModel { title, tasks: ts, is_editing: editing }, s3),
                ),
            },
        },
    }
}

/// Reads exactly `n` sections.
pub open spec fn spec_dec_section_list(s: Seq<char>, n: nat) -> Option<
    (Seq<SectionModel>, Seq<char>),
>
    decreases n,
{
    if n == 0 {
        Some((Seq::empty(), s))
    } else {
        match spec_dec_section(s) {
            None => None,
            Some((sec, r)) => match spec_dec_section_list(r, (n - 1) as nat) {
                None => None,
                Some((ss, r2)) => Some((seq![sec] + ss, r2)),
            },
        }
    }
}

/// Reads a counted section list.
pub open spec fn spec_dec_sections(s: Seq<char>) -> Option<(Seq<SectionModel>, Seq<char>)> {
    match spec_dec_nat(s) {
        None => None,
        Some((n, r)) => spec_dec_section_list(r, n),
    }
}

/// The whole decoder: a state comes back exactly when the characters spell
/// a complete, well-formed state — nothing may trail, the zoom factor must
/// be in range, and the editing flags must match the mode.
pub open spec fn spec_decode(s: Seq<char>) -> Option<AppModel> {
    match spec_dec_mode(s) {
        None => None,
        Some((mode, s1)) => match spec_dec_bool(s1) {
            None => None,
            Some((pending, s2)) => match spec_dec_nat(s2) {
                None => None,
                Some((zoff, s3)) => if zoff > (ZOOM_MAX_TENTHS - ZOOM_MIN_TENTHS) as nat {
                    None
                } else {
                    match spec_dec_sections(s3) {
                        None => None,
                        Some((ss, s4)) => if s4.len() == 0 {
                            let m = AppModel {
                                sections: ss,
                                mode,
                                pending_focus: pending,
                                zoom_tenths: (ZOOM_MIN_TENTHS + zoff) as u32,
                            };
                            if app_inv(m) {
                                Some(m)
                            } else {
                                None
                            }
                        } else {
                            None
                        },
                    }
                },
            },
        },
    }
}

/// A marker run, read from the front.
proof fn lemma_plus_seq_cons(n: nat)
    requires
        n > 0,
    ensures
        plus_seq(n) == seq!['+'] + plus_seq((n - 1) as nat),
    decreases n,
{
    if n > 1 {
        lemma_plus_seq_cons((n - 1) as nat);
    }
    assert(plus_seq(n) =~= seq!['+'] + plus_seq((n - 1) as nat));
}

/// A count decodes back to itself, leaving what follows.
proof fn lemma_dec_nat_enc(n: nat, rest: Seq<char>)
    ensures
        spec_dec_nat(enc_nat(n) + rest) == Some((n, rest)),
    decreases n,
{
    let s = enc_nat(n) + rest;
    if n == 0 {
        assert(plus_seq(0nat) =~= Seq::<char>::empty());
        assert(s[0] == '.');
        assert(s.skip(1) =~= rest);
    } else {
        lemma_plus_seq_cons(n);
        assert(s[0] == '+');
        assert(s.skip(1) =~= enc_nat((n - 1) as nat) + rest);
        lemma_dec_nat_enc((n - 1) as nat, rest);
    }
}

/// A flag decodes back to itself.
proof fn lemma_dec_bool_enc(b: bool, rest: Seq<char>)
    ensures
        spec_dec_bool(enc_bool(b) + rest) == Some((b, rest)),
{
    let s = enc_bool(b) + rest;
    assert(s.skip(1) =~= rest);
}

/// The mode letter decodes back to itself.
proof fn lemma_dec_mode_enc(m: Mode, rest: Seq<char>)
    ensures
        spec_dec_mode(enc_mode(m) + rest) == Some((m, rest)),
{
    let s = enc_mode(m) + rest;
    assert(s.skip(1) =~= rest);
}

/// A text's marked characters, read from the front.
proof fn lemma_text_body_cons(t: Seq<char>)
    requires
        t.len() > 0,
    ensures
        enc_text_body(t) == seq!['+', t[0]] + enc_text_body(t.skip(1)),
    decreases t.len(),
{
    if t.len() == 1 {
        assert(t.drop_last() =~= Seq::<char>::empty());
        assert(t.skip(1) =~= Seq::<char>::empty());
        assert(enc_text_body(t) =~= seq!['+', t[0]] + enc_text_body(t.skip(1)));
    } else {
        lemma_text_body_cons(t.drop_last());
        assert(t.drop_last()[0] == t[0]);
        assert(t.drop_last().skip(1) =~= t.skip(1).drop_last());
        assert(t.skip(1).last() == t.last());
        assert(enc_text_body(t) =~= seq!['+', t[0]] + enc_text_body(t.skip(1)));
    }
}

/// A text decodes back to itself, leaving what follows.
proof fn lemma_dec_text_enc(t: Seq<char>, rest: Seq<char>)
    ensures
        spec_dec_text(enc_text(t) + rest) == Some((t, rest)),
    decreases t.len(),
{
    let s = enc_text(t) + rest;
    if t.len() == 0 {
        assert(enc_text_body(t) =~= Seq::<char>::empty());
        assert(s[0] == '.');
        assert(s.skip(1) =~= rest);
        assert(Seq::<char>::empty() =~= t);
    } else {
        lemma_text_body_cons(t);
        assert(s[0] == '+');
        assert(s[1] == t[0]);
        assert(s.skip(2) =~= enc_text(t.skip(1)) + rest);
        lemma_dec_text_enc(t.skip(1), rest);
        assert(seq![s[1]] + t.skip(1) =~= t);
    }
}

/// A task decodes back to itself.
proof fn lemma_dec_task_enc(t: TaskModel, rest: Seq<char>)
    ensures
        spec_dec_task(enc_task(t) + rest) == Some((t, rest)),
{
    let s = enc_task(t) + rest;
    assert(s =~= enc_text(t.text) + (enc_bool(t.done) + (enc_bool(t.is_editing) + rest)));
    lemma_dec_text_enc(t.text, enc_bool(t.done) + (enc_bool(t.is_editing) + rest));
    lemma_dec_bool_enc(t.done, enc_bool(t.is_editing) + rest);
    lemma_dec_bool_enc(t.is_editing, rest);
    assert((TaskModel { text: t.text, done: t.done, is_editing: t.is_editing }) =~~= t);
}

/// A task list's characters, read from the front.
proof fn lemma_task_list_cons(ts: Seq<TaskModel>)
    requires
        ts.len() > 0,
    ensures
        enc_task_list(ts) == enc_task(ts[0]) + enc_task_list(ts.skip(1)),
    decreases ts.len(),
{
    if ts.len() == 1 {
        assert(ts.drop_last() =~~= Seq::<TaskModel>::empty());
        assert(ts.skip(1) =~~= Seq::<TaskModel>::empty());
        assert(enc_task_list(ts) =~= enc_task(ts[0]) + enc_task_list(ts.skip(1)));
    } else {
        lemma_task_list_cons(ts.drop_last());
        assert(ts.drop_last()[0] == ts[0]);
        assert(ts.drop_last().skip(1) =~~= ts.skip(1).drop_last());
        assert(ts.skip(1).last() == ts.last());
        assert(enc_task_list(ts) =~= enc_task(ts[0]) + enc_task_list(ts.skip(1)));
    }
}

/// A task list decodes back to itself under its own count.
proof fn lemma_dec_task_list_enc(ts: Seq<TaskModel>, rest: Seq<char>)
    ensures
        spec_dec_task_list(enc_task_list(ts) + rest, ts.len()) == Some((ts, rest)),
    decreases ts.len(),
{
    if ts.len() == 0 {
        assert(enc_task_list(ts) + rest =~= rest);
        assert(Seq::<TaskModel>::empty() =~~= ts);
    } else {
        lemma_task_list_cons(ts);
        assert(enc_task_list(ts) + rest =~= enc_task(ts[0]) + (enc_task_list(ts.skip(1)) + rest));
        lemma_dec_task_enc(ts[0], enc_task_list(ts.skip(1)) + rest);
        lemma_dec_task_list_enc(ts.skip(1), rest);
        assert(seq![ts[0]] + ts.skip(1) =~~= ts);
    }
}

/// A counted task list decodes back to itself.
proof fn lemma_dec_tasks_enc(ts: Seq<TaskModel>, rest: Seq<char>)
    ensures
        spec_dec_tasks(enc_tasks(ts) + rest) == Some((ts, rest)),
{
    assert(enc_tasks(ts) + rest =~= enc_nat(ts.len()) + (enc_task_list(ts) + rest));
    lemma_dec_nat_enc(ts.len(), enc_task_list(ts) + rest);
    lemma_dec_task_list_enc(ts, rest);
}

/// A section decodes back to itself.
proof fn lemma_dec_section_enc(sec: SectionModel, rest: Seq<char>)
    ensures
        spec_dec_section(enc_section(sec) + rest) == Some((sec, rest)),
{
    let s = enc_section(sec) + rest;
    assert(s =~= enc_text(sec.title) + (enc_bool(sec.is_editing) + (enc_tasks(sec.tasks) + rest)));
    lemma_dec_text_enc(sec.title, enc_bool(sec.is_editing) + (enc_tasks(sec.tasks) + rest));
    lemma_dec_bool_enc(sec.is_editing, enc_tasks(sec.tasks) + rest);
    lemma_dec_tasks_enc(sec.tasks, rest);
    assert((SectionModel { title: sec.title, tasks: sec.tasks, is_editing: sec.is_editing })
        =~~= sec);
}

/// A section list's characters, read from the front.
proof fn lemma_section_list_cons(ss: Seq<SectionModel>)
    requires
        ss.len() > 0,
    ensures
        enc_section_list(ss) == enc_section(ss[0]) + enc_section_list(ss.skip(1)),
    decreases ss.len(),
{
    if ss.len() == 1 {
        assert(ss.drop_last() =~~= Seq::<SectionModel>::empty());
        assert(ss.skip(1) =~~= Seq::<SectionModel>::empty());
        assert(enc_section_list(ss) =~= enc_section(ss[0]) + enc_section_list(ss.skip(1)));
    } else {
        lemma_section_list_cons(ss.drop_last());
        assert(ss.drop_last()[0] == ss[0]);
        assert(ss.drop_last().skip(1) =~~= ss.skip(1).drop_last());
        assert(ss.skip(1).last() == ss.last());
        assert(enc_section_list(ss) =~= enc_section(ss[0]) + enc_section_list(ss.skip(1)));
    }
}

/// A section list decodes back to itself under its own count.
proof fn lemma_dec_section_list_enc(ss: Seq<SectionModel>, rest: Seq<char>)
    ensures
        spec_dec_section_list(enc_section_list(ss) + rest, ss.len()) == Some((ss, rest)),
    decreases ss.len(),
{
    if ss.len() == 0 {
        assert(enc_section_list(ss) + rest =~= rest);
        assert(Seq::<SectionModel>::empty() =~~= ss);
    } else {
        lemma_section_list_cons(ss);
        assert(enc_section_list(ss) + rest =~= enc_section(ss[0]) + (enc_section_list(ss.skip(1))
            + rest));
        lemma_dec_section_enc(ss[0], enc_section_list(ss.skip(1)) + rest);
        lemma_dec_section_list_enc(ss.skip(1), rest);
        assert(seq![ss[0]] + ss.skip(1) =~~= ss);
    }
}

/// A counted section list decodes back to itself.
proof fn lemma_dec_sections_enc(ss: Seq<SectionModel>, rest: Seq<char>)
    ensures
        spec_dec_sections(enc_sections(ss) + rest) == Some((ss, rest)),
{
    assert(enc_sections(ss) + rest =~= enc_nat(ss.len()) + (enc_section_list(ss) + rest));
    lemma_dec_nat_enc(ss.len(), enc_section_list(ss) + rest);
    lemma_dec_section_list_enc(ss, rest);
}

/// Relies on the standard library's `collect` for `String` (`FromIterator`):
/// the collected string holds exactly the characters of the vector, in order.
#[verifier::external_body]
fn chars_to_string(v: &Vec<char>) -> (s: String)
    ensures
        s@ == v@,
{
    v.iter().collect()
}

/// Appends one flag.
fn push_bool(out: &mut Vec<char>, b: bool)
    ensures
        final(out)@ == old(out)@ + enc_bool(b),
{
    if b {
        out.push('1');
    } else {
        out.push('0');
    }
    proof {
        assert(out@ =~= old(out)@ + enc_bool(b));
    }
}

/// Appends one count.
fn push_count(out: &mut Vec<char>, n: usize)
    ensures
        final(out)@ == old(out)@ + enc_nat(n as nat),
{
    let mut k: usize = 0;
    proof {
        assert(out@ =~= old(out)@ + plus_seq(0nat));
    }
    while k < n
        invariant
            k <= n,
            out@ == old(out)@ + plus_seq(k as nat),
        decreases n - k,
    {
        out.push('+');
        proof {
            assert(out@ =~= old(out)@ + plus_seq((k + 1) as nat));
        }
        k += 1;
    }
    out.push('.');
    proof {
        assert(out@ =~= old(out)@ + enc_nat(n as nat));
    }
}

/// Appends one text.
fn push_text(out: &mut Vec<char>, s: &str)
    ensures
        final(out)@ == old(out)@ + enc_text(s@),
{
    let n = s.unicode_len();
    let mut i: usize = 0;
    proof {
        assert(out@ =~= old(out)@ + enc_text_body(s@.take(0)));
    }
    while i < n
        invariant
            n == s@.len(),
            i <= n,
            out@ == old(out)@ + enc_text_body(s@.take(i as int)),
        decreases n - i,
    {
        out.push('+');
        out.push(s.get_char(i));
        proof {
            assert(s@.take(i + 1).drop_last() =~= s@.take(i as int));
            assert(s@.take(i + 1).last() == s@[i as int]);
            assert(enc_text_body(s@.take(i + 1)) == enc_text_body(s@.take(i as int)) + seq![
                '+',
                s@[i as int],
            ]);
            assert(out@ =~= old(out)@ + enc_text_body(s@.take(i + 1)));
        }
        i += 1;
    }
    proof {
        assert(s@.take(n as int) =~= s@);
    }
    out.push('.');
    proof {
        assert(out@ =~= old(out)@ + enc_text(s@));
    }
}

/// Appends one task.
fn push_task(out: &mut Vec<char>, t: &Task)
    ensures
        final(out)@ == old(out)@ + enc_task(t@),
{
    push_text(out, t.text.as_str());
    push_bool(out, t.done);
    push_bool(out, t.is_editing);
    proof {
        assert(out@ =~= old(out)@ + enc_task(t@));
    }
}

/// Appends one section: title, flag, counted tasks.
fn push_section(out: &mut Vec<char>, sec: &Section)
    ensures
        final(out)@ == old(out)@ + enc_section(sec@),
{
    push_text(out, sec.title.as_str());
    push_bool(out, sec.is_editing);
    push_count(out, sec.tasks.len());
    let ghost tsm = sec@.tasks;
    let ghost base = out@;
    let m = sec.tasks.len();
    let mut j: usize = 0;
    proof {
        assert(base =~= base + enc_task_list(tsm.take(0)));
    }
    while j < m
        invariant
            m == sec.tasks@.len(),
            tsm == sec@.tasks,
            tsm.len() == m,
            j <= m,
            out@ == base + enc_task_list(tsm.take(j as int)),
        decreases m - j,
    {
        push_task(out, &sec.tasks[j]);
        proof {
            assert(tsm.take(j + 1).drop_last() =~~= tsm.take(j as int));
            assert(tsm.take(j + 1).last() == tsm[j as int]);
            assert(enc_task_list(tsm.take(j + 1)) == enc_task_list(tsm.take(j as int)) + enc_task(
                tsm[j as int],
            ));
            assert(out@ =~= base + enc_task_list(tsm.take(j + 1)));
        }
        j += 1;
    }
    proof {
        assert(tsm.take(m as int) =~~= tsm);
        assert(out@ =~= old(out)@ + enc_section(sec@));
    }
}

/// Writes the whole state as characters, exactly as [`spec_encode`] says.
pub fn encode(app: &App) -> (out: Vec<char>)
    ensures
        out@ == spec_encode(app@),
{
    let mut out: Vec<char> = Vec::new();
    match app.ui.mode {
        Mode::Idle => out.push('I'),
        Mode::EditingTask => out.push('T'),
        Mode::EditingSection => out.push('S'),
    }
    proof {
        assert(out@ =~= enc_mode(app@.mode));
    }
    push_bool(&mut out, app.ui.pending_focus);
    let zoff: u32 = if app.ui.zoom_tenths >= ZOOM_MIN_TENTHS {
        app.ui.zoom_tenths - ZOOM_MIN_TENTHS
    } else {
        0
    };
    push_count(&mut out, zoff as usize);
    proof {
        assert(zoff as nat == zoom_offset(app@.zoom_tenths));
    }
    push_count(&mut out, app.doc.sections.len());
    let ghost ssm = app@.sections;
    let ghost base = out@;
    let n = app.doc.sections.len();
    let mut i: usize = 0;
    proof {
        assert(base =~= base + enc_section_list(ssm.take(0)));
    }
    while i < n
        invariant
            n == app.doc.sections@.len(),
            ssm == app@.sections,
            ssm.len() == n,
            i <= n,
            out@ == base + enc_section_list(ssm.take(i as int)),
        decreases n - i,
    {
        push_section(&mut out, &app.doc.sections[i]);
        proof {
            assert(ssm.take(i + 1).drop_last() =~~= ssm.take(i as int));
            assert(ssm.take(i + 1).last() == ssm[i as int]);
            assert(enc_section_list(ssm.take(i + 1)) == enc_section_list(ssm.take(i as int))
                + enc_section(ssm[i as int]));
            assert(out@ =~= base + enc_section_list(ssm.take(i + 1)));
        }
        i += 1;
    }
    proof {
        assert(ssm.take(n as int) =~~= ssm);
        assert(out@ =~= spec_encode(app@));
    }
    out
}

/// A decoded count never exceeds the characters it was read from.
proof fn lemma_dec_nat_bound(s: Seq<char>)
    ensures
        match spec_dec_nat(s) {
            Some(p) => p.0 + p.1.len() <= s.len(),
            None => true,
        },
    decreases s.len(),
{
    if s.len() > 0 && s[0] == '+' {
        lemma_dec_nat_bound(s.skip(1));
    }
}

/// Reads one flag.
fn dec_bool<'a>(s: &'a [char]) -> (r: Option<(bool, &'a [char])>)
    ensures
        match r {
            Some(p) => spec_dec_bool(s@) == Some((p.0, p.1@)),
            None => spec_dec_bool(s@) is None,
        },
{
    if s.len() >= 1 {
        let c = *slice_index_get(s, 0);
        if c == '0' || c == '1' {
            let rest = slice_subrange(s, 1, s.len());
            proof {
                assert(rest@ =~= s@.skip(1));
            }
            return Some((c == '1', rest));
        }
    }
    None
}

/// Reads the mode letter.
fn dec_mode<'a>(s: &'a [char]) -> (r: Option<(Mode, &'a [char])>)
    ensures
        match r {
            Some(p) => spec_dec_mode(s@) == Some((p.0, p.1@)),
            None => spec_dec_mode(s@) is None,
        },
{
    if s.len() >= 1 {
        let c = *slice_index_get(s, 0);
        if c == 'I' || c == 'T' || c == 'S' {
            let rest = slice_subrange(s, 1, s.len());
            proof {
                assert(rest@ =~= s@.skip(1));
            }
            let mode = if c == 'I' {
                Mode::Idle
            } else if c == 'T' {
                Mode::EditingTask
            } else {
                Mode::EditingSection
            };
            return Some((mode, rest));
        }
    }
    None
}

/// Reads one count.
fn dec_nat<'a>(s: &'a [char]) -> (r: Option<(usize, &'a [char])>)
    ensures
        match r {
            Some(p) => spec_dec_nat(s@) == Some((p.0 as nat, p.1@)),
            None => spec_dec_nat(s@) is None,
        },
    decreases s@.len(),
{
    if s.len() == 0 {
        return None;
    }
    let c = *slice_index_get(s, 0);
    let rest = slice_subrange(s, 1, s.len());
    proof {
        assert(rest@ =~= s@.skip(1));
    }
    if c == '.' {
        return Some((0, rest));
    }
    if c == '+' {
        match dec_nat(rest) {
            Some((n, r2)) => {
                proof {
                    lemma_dec_nat_bound(rest@);
                }
                return Some((n + 1, r2));
            },
            None => {
                return None;
            },
        }
    }
    None
}

/// Reads one text.
fn dec_text<'a>(s: &'a [char]) -> (r: Option<(Vec<char>, &'a [char])>)
    ensures
        match r {
            Some(p) => spec_dec_text(s@) == Some((p.0@, p.1@)),
            None => spec_dec_text(s@) is None,
        },
    decreases s@.len(),
{
    if s.len() == 0 {
        return None;
    }
    let c0 = *slice_index_get(s, 0);
    if c0 == '.' {
        let rest = slice_subrange(s, 1, s.len());
        let v: Vec<char> = Vec::new();
        proof {
            assert(rest@ =~= s@.skip(1));
            assert(v@ =~= Seq::<char>::empty());
        }
        return Some((v, rest));
    }
    if c0 == '+' && s.len() >= 2 {
        let c1 = *slice_index_get(s, 1);
        let rest = slice_subrange(s, 2, s.len());
        proof {
            assert(rest@ =~= s@.skip(2));
        }
        match dec_text(rest) {
            Some((tail, r2)) => {
                let mut v = tail;
                v.insert(0, c1);
                proof {
                    assert(v@ =~= seq![s@[1]] + spec_dec_text(s@.skip(2))->Some_0.0);
                }
                return Some((v, r2));
            },
            None => {
                return None;
            },
        }
    }
    None
}

/// Reads one task.
fn dec_task<'a>(s: &'a [char]) -> (r: Option<(Task, &'a [char])>)
    ensures
        match r {
            Some(p) => spec_dec_task(s@) == Some((p.0@, p.1@)),
            None => spec_dec_task(s@) is None,
        },
{
    match dec_text(s) {
        None => None,
        Some((text, s1)) => match dec_bool(s1) {
            None => None,
            Some((done, s2)) => match dec_bool(s2) {
                None => None,
                Some((editing, s3)) => {
                    let t = Task { text: chars_to_string(&text), done, is_editing: editing };
                    proof {
                        assert(t@ =~~= spec_dec_task(s@)->Some_0.0);
                    }
                    Some((t, s3))
                },
            },
        },
    }
}

/// Reads exactly `n` tasks.
fn dec_task_list<'a>(s: &'a [char], n: usize) -> (r: Option<(Vec<Task>, &'a [char])>)
    ensures
        match r {
            Some(p) => spec_dec_task_list(s@, n as nat) == Some(
                (p.0@.map_values(|t: Task| t@), p.1@),
            ),
            None => spec_dec_task_list(s@, n as nat) is None,
        },
    decreases n,
{
    if n == 0 {
        let v: Vec<Task> = Vec::new();
        proof {
            assert(v@.map_values(|t: Task| t@) =~~= Seq::<TaskModel>::empty());
        }
        return Some((v, s));
    }
    match dec_task(s) {
        None => None,
        Some((t, r1)) => match dec_task_list(r1, n - 1) {
            None => None,
            Some((tail, r2)) => {
                let mut v = tail;
                v.insert(0, t);
                proof {
                    assert(v@.map_values(|t: Task| t@) =~~= seq![t@] + spec_dec_task_list(
                        r1@,
                        (n - 1) as nat,
                    )->Some_0.0);
                }
                Some((v, r2))
            },
        },
    }
}

/// Reads a counted task list.
fn dec_tasks<'a>(s: &'a [char]) -> (r: Option<(Vec<Task>, &'a [char])>)
    ensures
        match r {
            Some(p) => spec_dec_tasks(s@) == Some((p.0@.map_values(|t: Task| t@), p.1@)),
            None => spec_dec_tasks(s@) is None,
        },
{
    match dec_nat(s) {
        None => None,
        Some((n, r1)) => dec_task_list(r1, n),
    }
}

/// Reads one section.
fn dec_section<'a>(s: &'a [char]) -> (r: Option<(Section, &'a [char])>)
    ensures
        match r {
            Some(p) => spec_dec_section(s@) == Some((p.0@, p.1@)),
            None => spec_dec_section(s@) is None,
        },
{
    match dec_text(s) {
        None => None,
        Some((title, s1)) => match dec_bool(s1) {
            None => None,
            Some((editing, s2)) => match dec_tasks(s2) {
                None => None,
                Some((tasks, s3)) => {
                    let sec = Section {
                        title: chars_to_string(&title),
                        tasks,
                        is_editing: editing,
                    };
                    proof {
                        assert(sec@ =~~= spec_dec_section(s@)->Some_0.0);
                    }
                    Some((sec, s3))
                },
            },
        },
    }
}

/// Reads exactly `n` sections.
fn dec_section_list<'a>(s: &'a [char], n: usize) -> (r: Option<(Vec<Section>, &'a [char])>)
    ensures
        match r {
            Some(p) => spec_dec_section_list(s@, n as nat) == Some(
                (p.0@.map_values(|sec: Section| sec@), p.1@),
            ),
            None => spec_dec_section_list(s@, n as nat) is None,
        },
    decreases n,
{
    if n == 0 {
        let v: Vec<Section> = Vec::new();
        proof {
            assert(v@.map_values(|sec: Section| sec@) =~~= Seq::<SectionModel>::empty());
        }
        return Some((v, s));
    }
    match dec_section(s) {
        None => None,
        Some((sec, r1)) => match dec_section_list(r1, n - 1) {
            None => None,
            Some((tail, r2)) => {
                let mut v = tail;
                v.insert(0, sec);
                proof {
                    assert(v@.map_values(|sec: Section| sec@) =~~= seq![sec@]
                        + spec_dec_section_list(r1@, (n - 1) as nat)->Some_0.0);
                }
                Some((v, r2))
            },
        },
    }
}

/// Reads a counted section list.
fn dec_sections<'a>(s: &'a [char]) -> (r: Option<(Vec<Section>, &'a [char])>)
    ensures
        match r {
            Some(p) => spec_dec_sections(s@) == Some((p.0@.map_values(|sec: Section| sec@), p.1@)),
            None => spec_dec_sections(s@) is None,
        },
{
    match dec_nat(s) {
        None => None,
        Some((n, r1)) => dec_section_list(r1, n),
    }
}

/// Reads a whole state back, exactly as [`spec_decode`] says: `None` unless
/// the characters spell a complete, well-formed state.
pub fn decode(data: &[char]) -> (r: Option<App>)
    ensures
        match r {
            Some(a) => spec_decode(data@) == Some(a@) && app_inv(a@),
            None => spec_decode(data@) is None,
        },
{
    match dec_mode(data) {
        None => None,
        Some((mode, s1)) => match dec_bool(s1) {
            None => None,
            Some((pending, s2)) => match dec_nat(s2) {
                None => None,
                Some((zoff, s3)) => {
                    if zoff > (ZOOM_MAX_TENTHS - ZOOM_MIN_TENTHS) as usize {
                        return None;
                    }
                    match dec_sections(s3) {
                        None => None,
                        Some((sections, s4)) => {
                            if s4.len() > 0 {
                                return None;
                            }
                            let app = App {
                                doc: Document { sections },
                                ui: UIState {
                                    mode,
                                    pending_focus: pending,
                                    zoom_tenths: ZOOM_MIN_TENTHS + zoff as u32,
                                },
                            };
                            proof {
                                assert(app@ =~~= (match spec_decode(data@) {
                                    Some(m) => m,
                                    None => app@,
                                }));
                            }
                            if app.satisfies_inv() {
                                Some(app)
                            } else {
                                None
                            }
                        },
                    }
                },
            },
        },
    }
}

/// Law (round trip): decoding what was encoded from any well-formed state
/// gives exactly that state back — section and task order, texts, done
/// flags, the mode and the zoom factor all included.
pub proof fn lemma_encode_decode_round_trip(m: AppModel)
    requires
        app_inv(m),
    ensures
        spec_decode(spec_encode(m)) == Some(m),
{
    let r3 = enc_sections(m.sections);
    let r2 = enc_nat(zoom_offset(m.zoom_tenths)) + r3;
    let r1 = enc_bool(m.pending_focus) + r2;
    assert(spec_encode(m) =~= enc_mode(m.mode) + r1);
    lemma_dec_mode_enc(m.mode, r1);
    lemma_dec_bool_enc(m.pending_focus, r2);
    lemma_dec_nat_enc(zoom_offset(m.zoom_tenths), r3);
    assert(r3 =~= enc_sections(m.sections) + Seq::<char>::empty());
    lemma_dec_sections_enc(m.sections, Seq::empty());
    assert((ZOOM_MIN_TENTHS + zoom_offset(m.zoom_tenths)) as u32 == m.zoom_tenths);
    assert((AppModel {
        sections: m.sections,
        mode: m.mode,
        pending_focus: m.pending_focus,
        zoom_tenths: m.zoom_tenths,
    }) =~~= m);
}

} // verus!
