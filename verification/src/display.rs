//! The texts the screens show, built from the timer's state.

use vstd::prelude::*;

use crate::app::{phase_label, HistoryEntry, HistoryView, Outcome, Phase, SetupField};
use crate::store::{format_hours, format_mmss, hours_text, mmss};
use crate::text::{chars_of, dec, dec_len, push_char, push_chars, push_dec};

verus! {

/// `n` spaces.
pub open spec fn spaces(n: nat) -> Seq<char> {
    Seq::new(n, |i: int| ' ')
}

/// `s` left-aligned in a field of `w` characters, as `{:<w}` prints it.
pub open spec fn pad_right(s: Seq<char>, w: nat) -> Seq<char> {
    if s.len() < w {
        s + spaces((w - s.len()) as nat)
    } else {
        s
    }
}

/// `s` right-aligned in a field of `w` characters, as `{:>w}` prints it.
pub open spec fn pad_left(s: Seq<char>, w: nat) -> Seq<char> {
    if s.len() < w {
        spaces((w - s.len()) as nat) + s
    } else {
        s
    }
}

fn push_spaces(s: &mut String, k: usize)
    ensures
        final(s)@ == old(s)@ + spaces(k as nat),
{
    let mut i: usize = 0;
    while i < k
        invariant
            i <= k,
            s@ == old(s)@ + spaces(i as nat),
        decreases k - i,
    {
        push_char(s, ' ');
        i = i + 1;
        assert(spaces(i as nat) == spaces((i - 1) as nat).push(' '));
    }
}

/// Appends `t` left-aligned in `w` characters.
fn push_left_aligned(s: &mut String, t: &str, w: usize)
    ensures
        final(s)@ == old(s)@ + pad_right(t@, w as nat),
{
    let v = chars_of(t);
    push_chars(s, v.as_slice());
    if v.len() < w {
        push_spaces(s, w - v.len());
    }
    assert(final(s)@ =~= old(s)@ + pad_right(t@, w as nat));
}

/// Appends `n` in decimal, left-aligned in `w` characters.
fn push_dec_left_aligned(s: &mut String, n: u64, w: usize)
    ensures
        final(s)@ == old(s)@ + pad_right(dec(n as nat), w as nat),
{
    let k = dec_len(n);
    push_dec(s, n);
    if k < w as u64 {
        push_spaces(s, w - k as usize);
    }
    assert(final(s)@ =~= old(s)@ + pad_right(dec(n as nat), w as nat));
}

/// Appends `t` right-aligned in `w` characters.
fn push_left_padded(s: &mut String, t: &str, w: usize)
    ensures
        final(s)@ == old(s)@ + pad_left(t@, w as nat),
{
    let v = chars_of(t);
    if v.len() < w {
        push_spaces(s, w - v.len());
    }
    push_chars(s, v.as_slice());
    assert(final(s)@ =~= old(s)@ + pad_left(t@, w as nat));
}

/// Whether two character slices are equal.
fn slices_equal(a: &[char], b: &[char]) -> (r: bool)
    ensures
        r == (a@ == b@),
{
    if a.len() != b.len() {
        return false;
    }
    let mut i: usize = 0;
    while i < a.len()
        invariant
            i <= a@.len(),
            a@.len() == b@.len(),
            forall|j: int| 0 <= j < i ==> a@[j] == b@[j],
        decreases a@.len() - i,
    {
        if a[i] != b[i] {
            return false;
        }
        i = i + 1;
    }
    assert(a@ =~= b@);
    true
}

/// Appends `n` in decimal, right-aligned in `w` characters.
fn push_dec_right_aligned(s: &mut String, n: u64, w: usize)
    ensures
        final(s)@ == old(s)@ + pad_left(dec(n as nat), w as nat),
{
    let k = dec_len(n);
    if k < w as u64 {
        push_spaces(s, w - k as usize);
    }
    push_dec(s, n);
    assert(final(s)@ =~= old(s)@ + pad_left(dec(n as nat), w as nat));
}

// ---------------------------------------------------------------------------
// Setup screen
// ---------------------------------------------------------------------------

/// A setting's row: the cursor mark, the name in 16 columns, the value in 3, the unit.
pub open spec fn setup_row(label: Seq<char>, value: nat, unit: Seq<char>, selected: bool) -> Seq<char> {
    (if selected {
        "▸ "@
    } else {
        "  "@
    }) + pad_right(label, 16) + pad_left(dec(value), 3) + seq![' '] + unit
}

fn setup_row_text(label: &str, value: u64, unit: &str, selected: bool) -> (r: String)
    ensures
        r@ == setup_row(label@, value as nat, unit@, selected),
{
    let mut s = String::new();
    if selected {
        s.append("▸ ");
    } else {
        s.append("  ");
    }
    push_left_aligned(&mut s, label, 16);
    push_dec_right_aligned(&mut s, value, 3);
    push_char(&mut s, ' ');
    s.append(unit);
    s
}

/// The four rows of the setup screen.
pub open spec fn setup_rows_text(
    work_secs: u64,
    break_secs: u64,
    long_break_secs: u64,
    sessions_before_long: u32,
    selected: SetupField,
) -> Seq<Seq<char>> {
    seq![
        setup_row("Work"@, (work_secs / 60) as nat, "min"@, selected == SetupField::Work),
        setup_row("Break"@, (break_secs / 60) as nat, "min"@, selected == SetupField::Break),
        setup_row("Long Break"@, (long_break_secs / 60) as nat, "min"@, selected == SetupField::LongBreak),
        setup_row("Cycle"@, sessions_before_long as nat, "sessions"@, selected == SetupField::SessionsBeforeLong),
    ]
}

/// The views of a list of strings.
pub open spec fn texts(v: Seq<String>) -> Seq<Seq<char>> {
    v.map_values(|s: String| s@)
}

/// The rows of the setup screen: work, break and long break in minutes, and the
/// cycle length in sessions, the selected one marked.
pub fn setup_rows(
    work_secs: u64,
    break_secs: u64,
    long_break_secs: u64,
    sessions_before_long: u32,
    selected: SetupField,
) -> (r: Vec<String>)
    ensures
        texts(r@) == setup_rows_text(work_secs, break_secs, long_break_secs, sessions_before_long, selected),
{
    let mut r: Vec<String> = Vec::new();
    r.push(setup_row_text("Work", work_secs / 60, "min", selected == SetupField::Work));
    r.push(setup_row_text("Break", break_secs / 60, "min", selected == SetupField::Break));
    r.push(setup_row_text("Long Break", long_break_secs / 60, "min", selected == SetupField::LongBreak));
    r.push(
        setup_row_text("Cycle", sessions_before_long as u64, "sessions", selected == SetupField::SessionsBeforeLong),
    );
    assert(texts(r@) =~= setup_rows_text(work_secs, break_secs, long_break_secs, sessions_before_long, selected));
    r
}

// ---------------------------------------------------------------------------
// Timer screen
// ---------------------------------------------------------------------------

/// The time the timer shows: once a work phase has run its length, its overtime
/// after a `+`; otherwise the time left. Both as `MM:SS`.
pub open spec fn clock_face(overtime: bool, overtime_secs: u64, remaining_secs: u64) -> Seq<char> {
    if overtime {
        seq!['+'] + mmss(overtime_secs)
    } else {
        mmss(remaining_secs)
    }
}

/// The time the timer shows (see `clock_face`).
pub fn clock_text(overtime: bool, overtime_secs: u64, remaining_secs: u64) -> (r: String)
    ensures
        r@ == clock_face(overtime, overtime_secs, remaining_secs),
{
    if overtime {
        let mut s = String::new();
        push_char(&mut s, '+');
        s.append(format_mmss(overtime_secs).as_str());
        s
    } else {
        format_mmss(remaining_secs)
    }
}

/// `Session #n`.
pub fn session_text(session: u32) -> (r: String)
    ensures
        r@ == "Session #"@ + dec(session as nat),
{
    let mut s = String::new();
    s.append("Session #");
    push_dec(&mut s, session as u64);
    s
}

/// The line under the timer: whether it is paused, or that a work phase has run its length.
pub open spec fn status_line(paused: bool, overtime: bool) -> Seq<char> {
    if paused {
        "⏸  PAUSED"@
    } else if overtime {
        "⏰ Time's up! Press Enter for break"@
    } else {
        ""@
    }
}

/// The line under the timer (see `status_line`).
pub fn status_text(paused: bool, overtime: bool) -> (r: &'static str)
    ensures
        r@ == status_line(paused, overtime),
{
    if paused {
        "⏸  PAUSED"
    } else if overtime {
        "⏰ Time's up! Press Enter for break"
    } else {
        ""
    }
}

// ---------------------------------------------------------------------------
// Session log
// ---------------------------------------------------------------------------

/// A line of the session log, column by column.
pub struct LogLine {
    pub icon: String,
    pub session: String,
    pub phase: String,
    pub times: String,
    pub status: String,
    pub wall: String,
    pub task: String,
}

/// A log line as a mathematical value.
pub struct LogLineView {
    pub icon: Seq<char>,
    pub session: Seq<char>,
    pub phase: Seq<char>,
    pub times: Seq<char>,
    pub status: Seq<char>,
    pub wall: Seq<char>,
    pub task: Seq<char>,
}

impl View for LogLine {
    type V = LogLineView;

    open spec fn view(&self) -> LogLineView {
        LogLineView {
            icon: self.icon@,
            session: self.session@,
            phase: self.phase@,
            times: self.times@,
            status: self.status@,
            wall: self.wall@,
            task: self.task@,
        }
    }
}

/// The session column: `#` and the number in 3 columns, then a space.
pub open spec fn session_column(session: u32) -> Seq<char> {
    seq!['#'] + pad_right(dec(session as nat), 3) + seq![' ']
}

/// The phase column: the phase's name in 11 columns.
pub open spec fn phase_column(p: Phase) -> Seq<char> {
    pad_right(phase_label(p), 11)
}

/// The task column: the task after two spaces, or nothing.
pub open spec fn task_column(task: Seq<char>) -> Seq<char> {
    if task.len() > 0 {
        "  "@ + task
    } else {
        ""@
    }
}

/// The line of the running phase: its state (paused, overtime or running), the
/// time shown over the phase's length, and the task of a work phase.
pub open spec fn current_line_view(
    session: u32,
    phase: Phase,
    paused: bool,
    overtime: bool,
    overtime_secs: u64,
    remaining_secs: u64,
    total_secs: u64,
    task: Seq<char>,
) -> LogLineView {
    LogLineView {
        icon: "  "@ + (if paused {
            "⏸"@
        } else if overtime {
            "⏰"@
        } else {
            "▶"@
        }) + " "@,
        session: session_column(session),
        phase: phase_column(phase),
        times: clock_face(overtime, overtime_secs, remaining_secs) + " / "@ + mmss(total_secs) + "  "@,
        status: if paused {
            "paused"@
        } else if overtime {
            "overtime"@
        } else {
            "running"@
        },
        wall: ""@,
        task: if phase == Phase::Work {
            task_column(task)
        } else {
            ""@
        },
    }
}

fn session_column_text(session: u32) -> (r: String)
    ensures
        r@ == session_column(session),
{
    let mut s = String::new();
    push_char(&mut s, '#');
    push_dec_left_aligned(&mut s, session as u64, 3);
    push_char(&mut s, ' ');
    s
}

fn phase_column_text(p: Phase) -> (r: String)
    ensures
        r@ == phase_column(p),
{
    let mut s = String::new();
    push_left_aligned(&mut s, p.label(), 11);
    s
}

fn task_column_text(task: &str) -> (r: String)
    ensures
        r@ == task_column(task@),
{
    proof {
        reveal_strlit("");
    }
    let mut s = String::new();
    if !task.is_empty() {
        s.append("  ");
        s.append(task);
    }
    s
}

/// The log line of the running phase (see `current_line_view`).
pub fn current_log_line(
    session: u32,
    phase: Phase,
    paused: bool,
    overtime: bool,
    overtime_secs: u64,
    remaining_secs: u64,
    total_secs: u64,
    task: &str,
) -> (r: LogLine)
    ensures
        r@ == current_line_view(session, phase, paused, overtime, overtime_secs, remaining_secs, total_secs, task@),
{
    proof {
        reveal_strlit("");
    }
    let mut icon = String::new();
    icon.append("  ");
    icon.append(if paused { "⏸" } else if overtime { "⏰" } else { "▶" });
    icon.append(" ");
    let mut times = clock_text(overtime, overtime_secs, remaining_secs);
    times.append(" / ");
    times.append(format_mmss(total_secs).as_str());
    times.append("  ");
    let status = if paused { "paused" } else if overtime { "overtime" } else { "running" };
    let ghost v = current_line_view(session, phase, paused, overtime, overtime_secs, remaining_secs, total_secs, task@);
    assert(icon@ =~= v.icon);
    assert(times@ =~= v.times);
    let status_s = status.to_string();
    assert(status_s@ == v.status);
    let wall = String::new();
    assert(wall@ =~= v.wall);
    let task_s = if phase == Phase::Work { task_column_text(task) } else { String::new() };
    assert(task_s@ =~= v.task);
    LogLine {
        icon: icon,
        session: session_column_text(session),
        phase: phase_column_text(phase),
        times: times,
        status: status_s,
        wall: wall,
        task: task_s,
    }
}

/// The mark of how a phase ended.
pub open spec fn outcome_icon(o: Outcome) -> Seq<char> {
    match o {
        Outcome::Completed => "✓"@,
        Outcome::Skipped => "⏭"@,
        Outcome::Helping => "🤝"@,
    }
}

/// The word for how a phase ended.
pub open spec fn outcome_name(o: Outcome) -> Seq<char> {
    match o {
        Outcome::Completed => "completed"@,
        Outcome::Skipped => "skipped"@,
        Outcome::Helping => "helping"@,
    }
}

/// The line of a finished phase: how it ended, the time it ran over its length, the
/// wall-clock times of a work phase, and its task.
pub open spec fn history_line_view(e: HistoryView) -> LogLineView {
    LogLineView {
        icon: "  "@ + outcome_icon(e.outcome) + " "@,
        session: session_column(e.session),
        phase: phase_column(e.phase),
        times: mmss(e.elapsed_secs) + " / "@ + mmss(e.total_secs) + "  "@,
        status: outcome_name(e.outcome),
        wall: if e.phase == Phase::Work && e.start_time.len() > 0 {
            "  "@ + e.start_time + "–"@ + e.end_time
        } else {
            ""@
        },
        task: task_column(e.task),
    }
}

/// The log line of a finished phase (see `history_line_view`).
pub fn history_line(e: &HistoryEntry) -> (r: LogLine)
    ensures
        r@ == history_line_view(e@),
{
    proof {
        reveal_strlit("");
    }
    let ghost v = history_line_view(e@);
    let mut icon = String::new();
    icon.append("  ");
    icon.append(
        match e.outcome {
            Outcome::Completed => "✓",
            Outcome::Skipped => "⏭",
            Outcome::Helping => "🤝",
        },
    );
    icon.append(" ");
    assert(icon@ =~= v.icon);
    let mut times = format_mmss(e.elapsed_secs);
    times.append(" / ");
    times.append(format_mmss(e.total_secs).as_str());
    times.append("  ");
    assert(times@ =~= v.times);
    let status = match e.outcome {
        Outcome::Completed => "completed",
        Outcome::Skipped => "skipped",
        Outcome::Helping => "helping",
    }.to_string();
    let mut wall = String::new();
    if e.phase == Phase::Work && !e.start_time.as_str().is_empty() {
        wall.append("  ");
        wall.append(e.start_time.as_str());
        wall.append("–");
        wall.append(e.end_time.as_str());
    }
    assert(wall@ =~= v.wall);
    LogLine {
        icon: icon,
        session: session_column_text(e.session),
        phase: phase_column_text(e.phase),
        times: times,
        status: status,
        wall: wall,
        task: task_column_text(e.task.as_str()),
    }
}

// ---------------------------------------------------------------------------
// Stats panel and daily log
// ---------------------------------------------------------------------------

/// `n session`, with an `s` unless `n` is 1.
pub open spec fn sessions_phrase(n: nat) -> Seq<char> {
    dec(n) + " session"@ + if n == 1 {
        ""@
    } else {
        "s"@
    }
}

fn push_sessions_phrase(s: &mut String, n: u32)
    ensures
        final(s)@ == old(s)@ + sessions_phrase(n as nat),
{
    proof {
        reveal_strlit("");
    }
    push_dec(s, n as u64);
    s.append(" session");
    if n != 1 {
        s.append("s");
    }
    assert(final(s)@ =~= old(s)@ + sessions_phrase(n as nat));
}

/// Today's session count as the stats panel shows it: `  (n sessions)`.
pub fn today_sessions_text(n: u32) -> (r: String)
    ensures
        r@ == "  ("@ + sessions_phrase(n as nat) + ")"@,
{
    let mut s = String::new();
    s.append("  (");
    push_sessions_phrase(&mut s, n);
    s.append(")");
    s
}

/// Time spent helping, as the stats panel shows it: `{h}h {mm}m helping`.
pub fn helping_text(secs: u64) -> (r: String)
    ensures
        r@ == hours_text(secs) + " helping"@,
{
    let mut s = format_hours(secs);
    s.append(" helping");
    s
}

/// The position in the cycle, as the stats panel shows it: `  │  Cycle: k/n`.
pub fn cycle_text(position: u32, cycle: u32) -> (r: String)
    ensures
        r@ == "  │  Cycle: "@ + dec(position as nat) + "/"@ + dec(cycle as nat),
{
    let mut s = String::new();
    s.append("  │  Cycle: ");
    push_dec(&mut s, position as u64);
    s.append("/");
    push_dec(&mut s, cycle as u64);
    s
}

/// A length in whole minutes: `{m}m`.
pub fn minutes_text(secs: u64) -> (r: String)
    ensures
        r@ == dec((secs / 60) as nat) + "m"@,
{
    let mut s = String::new();
    push_dec(&mut s, secs / 60);
    s.append("m");
    s
}

/// A row of the daily log, column by column.
pub struct DayRow {
    pub date: String,
    pub label: String,
    pub hours: String,
    pub sessions: String,
}

/// A daily log row as a mathematical value.
pub struct DayRowView {
    pub date: Seq<char>,
    pub label: Seq<char>,
    pub hours: Seq<char>,
    pub sessions: Seq<char>,
}

impl View for DayRow {
    type V = DayRowView;

    open spec fn view(&self) -> DayRowView {
        DayRowView { date: self.date@, label: self.label@, hours: self.hours@, sessions: self.sessions@ }
    }
}

/// How the daily log names a date: today, yesterday, or blank, in 9 columns.
pub open spec fn day_label(date: Seq<char>, today: Seq<char>, yesterday: Seq<char>) -> Seq<char> {
    if date == today {
        "today    "@
    } else if date == yesterday {
        "yesterday"@
    } else {
        "         "@
    }
}

/// The row of `date` in the daily log: today counts the running work phase
/// (`today_work_secs`), other days what was logged (`work_secs`); the hours are
/// right-aligned in 8 columns.
pub open spec fn day_row_view(
    date: Seq<char>,
    today: Seq<char>,
    yesterday: Seq<char>,
    work_secs: u64,
    today_work_secs: u64,
    sessions: u32,
) -> DayRowView {
    DayRowView {
        date: "  "@ + date + "  "@,
        label: day_label(date, today, yesterday) + "  "@,
        hours: pad_left(hours_text(if date == today { today_work_secs } else { work_secs }), 8),
        sessions: "   "@ + sessions_phrase(sessions as nat),
    }
}

/// The row of `date` in the daily log (see `day_row_view`).
pub fn day_row(date: &str, today: &str, yesterday: &str, work_secs: u64, today_work_secs: u64, sessions: u32) -> (r: DayRow)
    ensures
        r@ == day_row_view(date@, today@, yesterday@, work_secs, today_work_secs, sessions),
{
    let ghost v = day_row_view(date@, today@, yesterday@, work_secs, today_work_secs, sessions);
    let dv = chars_of(date);
    let is_today = slices_equal(dv.as_slice(), chars_of(today).as_slice());
    let is_yesterday = slices_equal(dv.as_slice(), chars_of(yesterday).as_slice());
    let mut d = String::new();
    d.append("  ");
    d.append(date);
    d.append("  ");
    assert(d@ =~= v.date);
    let mut label = String::new();
    label.append(if is_today { "today    " } else if is_yesterday { "yesterday" } else { "         " });
    label.append("  ");
    assert(label@ =~= v.label);
    let h = format_hours(if is_today { today_work_secs } else { work_secs });
    let mut hours = String::new();
    push_left_padded(&mut hours, h.as_str(), 8);
    let mut sessions_s = String::new();
    sessions_s.append("   ");
    push_sessions_phrase(&mut sessions_s, sessions);
    assert(sessions_s@ =~= v.sessions);
    DayRow { date: d, label: label, hours: hours, sessions: sessions_s }
}

// ---------------------------------------------------------------------------
// Todo list and notes
// ---------------------------------------------------------------------------

/// A todo entry's row: the cursor mark, `[x]` or `[ ]`, and the text.
pub open spec fn todo_row_text(text: Seq<char>, done: bool, selected: bool) -> Seq<char> {
    (if selected {
        "▸ "@
    } else {
        "  "@
    }) + (if done {
        "[x]"@
    } else {
        "[ ]"@
    }) + " "@ + text
}

/// A todo entry's row (see `todo_row_text`).
pub fn todo_row(text: &str, done: bool, selected: bool) -> (r: String)
    ensures
        r@ == todo_row_text(text@, done, selected),
{
    let mut s = String::new();
    s.append(if selected { "▸ " } else { "  " });
    s.append(if done { "[x]" } else { "[ ]" });
    s.append(" ");
    s.append(text);
    assert(s@ =~= todo_row_text(text@, done, selected));
    s
}

/// What the notes screen asks after a work session ended.
pub fn notes_prompt(helping: bool) -> (r: &'static str)
    ensures
        r@ == (if helping {
            "Who/what were you helping with?"@
        } else {
            "Any notes on what you did?"@
        }),
{
    if helping {
        "Who/what were you helping with?"
    } else {
        "Any notes on what you did?"
    }
}

/// What the todo list shows while it is empty.
pub fn empty_todo_message(picking: bool) -> (r: &'static str)
    ensures
        r@ == (if picking {
            "No todos yet. Press 'a' to add or 'n' for a custom task."@
        } else {
            "No todos yet. Press 'a' to add one."@
        }),
{
    if picking {
        "No todos yet. Press 'a' to add or 'n' for a custom task."
    } else {
        "No todos yet. Press 'a' to add one."
    }
}

// ---------------------------------------------------------------------------
// Titles, placeholders and the controls bar
// ---------------------------------------------------------------------------

/// The title of the todo list: picking the next task, or managing the list.
pub fn todo_title(picking: bool) -> (r: &'static str)
    ensures
        r@ == (if picking {
            " 📝 Pick a task "@
        } else {
            " 📝 Todo List "@
        }),
{
    if picking {
        " 📝 Pick a task "
    } else {
        " 📝 Todo List "
    }
}

/// What the daily log shows in place of its rows: a hint while no day is stored and
/// no work was done today, nothing otherwise.
pub fn daily_log_placeholder(days: usize, today_work_secs: u64) -> (r: Option<&'static str>)
    ensures
        days == 0 && today_work_secs == 0 ==> (r matches Some(t) && t@
            == "  No work logged yet. Complete a work session to see stats!"@),
        !(days == 0 && today_work_secs == 0) ==> r is None,
{
    if days == 0 && today_work_secs == 0 {
        Some("  No work logged yet. Complete a work session to see stats!")
    } else {
        None
    }
}

/// The views of a list of key bindings.
pub open spec fn binding_views(v: Seq<(&'static str, &'static str)>) -> Seq<(Seq<char>, Seq<char>)> {
    v.map_values(|b: (&'static str, &'static str)| (b.0@, b.1@))
}

/// The keys the todo list offers: saving or cancelling the text being typed; or
/// moving, starting, editing and the rest, with `Esc` skipping when picking a task and
/// going back otherwise.
pub open spec fn todo_controls_text(input_mode: bool, picking: bool) -> Seq<(Seq<char>, Seq<char>)> {
    if input_mode {
        seq![("Enter"@, "save"@), ("Esc"@, "cancel"@)]
    } else if picking {
        seq![
            ("↑↓"@, "nav"@),
            ("Enter"@, "start"@),
            ("a"@, "add"@),
            ("e"@, "edit"@),
            ("d"@, "del"@),
            ("space"@, "done"@),
            ("n"@, "custom"@),
            ("l"@, "log"@),
            ("Esc"@, "skip"@),
        ]
    } else {
        seq![
            ("↑↓"@, "nav"@),
            ("space"@, "done"@),
            ("a"@, "add"@),
            ("e"@, "edit"@),
            ("d"@, "del"@),
            ("l"@, "log"@),
            ("Esc"@, "back"@),
        ]
    }
}

/// The keys the todo list offers (see `todo_controls_text`).
pub fn todo_controls(input_mode: bool, picking: bool) -> (r: Vec<(&'static str, &'static str)>)
    ensures
        binding_views(r@) == todo_controls_text(input_mode, picking),
{
    let mut v: Vec<(&'static str, &'static str)> = Vec::new();
    if input_mode {
        v.push(("Enter", "save"));
        v.push(("Esc", "cancel"));
    } else if picking {
        v.push(("↑↓", "nav"));
        v.push(("Enter", "start"));
        v.push(("a", "add"));
        v.push(("e", "edit"));
        v.push(("d", "del"));
        v.push(("space", "done"));
        v.push(("n", "custom"));
        v.push(("l", "log"));
        v.push(("Esc", "skip"));
    } else {
        v.push(("↑↓", "nav"));
        v.push(("space", "done"));
        v.push(("a", "add"));
        v.push(("e", "edit"));
        v.push(("d", "del"));
        v.push(("l", "log"));
        v.push(("Esc", "back"));
    }
    assert(binding_views(v@) =~= todo_controls_text(input_mode, picking));
    v
}

/// The keys the timer screen offers: pause or resume; during work also the break,
/// ending the task and helping; then skip, the distraction and wrap-up keys, todos,
/// log and quit.
pub open spec fn timer_controls_text(paused: bool, work: bool) -> Seq<(Seq<char>, Seq<char>)> {
    seq![("space"@, if paused { "resume"@ } else { "pause"@ })] + (if work {
        seq![("Enter"@, "break"@), ("e"@, "end task"@), ("h"@, "helping"@)]
    } else {
        Seq::empty()
    }) + seq![("s"@, "skip"@), ("d"@, "-5m"@), ("w"@, "+5m"@), ("t"@, "todos"@), ("l"@, "log"@), ("q"@, "quit"@)]
}

/// The keys the timer screen offers (see `timer_controls_text`).
pub fn timer_controls(paused: bool, work: bool) -> (r: Vec<(&'static str, &'static str)>)
    ensures
        binding_views(r@) == timer_controls_text(paused, work),
{
    let mut v: Vec<(&'static str, &'static str)> = Vec::new();
    v.push(("space", if paused { "resume" } else { "pause" }));
    if work {
        v.push(("Enter", "break"));
        v.push(("e", "end task"));
        v.push(("h", "helping"));
    }
    v.push(("s", "skip"));
    v.push(("d", "-5m"));
    v.push(("w", "+5m"));
    v.push(("t", "todos"));
    v.push(("l", "log"));
    v.push(("q", "quit"));
    assert(binding_views(v@) =~= timer_controls_text(paused, work));
    v
}

/// A text input as it is shown: a `> ` prompt, the text, and a bar for the cursor.
pub fn input_line(text: &str) -> (r: String)
    ensures
        r@ == "> "@ + text@ + "▏"@,
{
    let mut s = String::new();
    s.append("> ");
    s.append(text);
    s.append("▏");
    s
}

/// The task a notes screen is about: `Task: ` and its name.
pub fn task_line(task: &str) -> (r: String)
    ensures
        r@ == "Task: "@ + task@,
{
    let mut s = String::new();
    s.append("Task: ");
    s.append(task);
    s
}

} // verus!
