use pomodoro::app::{HistoryEntry, Outcome, Phase, SetupField};
use pomodoro::display::{
    clock_text, current_log_line, cycle_text, day_row, empty_todo_message, helping_text, history_line, minutes_text,
    notes_prompt, session_text, setup_rows, status_text, timer_controls, today_sessions_text, todo_controls, todo_row,
    todo_title, daily_log_placeholder, input_line, task_line,
};

#[test]
fn test_setup_rows_columns() {
    let rows = setup_rows(1500, 300, 900, 4, SetupField::Work);
    assert_eq!(rows.len(), 4);
    assert_eq!(rows[0], "▸ Work             25 min");
    assert_eq!(rows[1], "  Break             5 min");
    assert_eq!(rows[2], "  Long Break       15 min");
    assert_eq!(rows[3], "  Cycle             4 sessions");
    let rows = setup_rows(7200, 60, 3600, 10, SetupField::SessionsBeforeLong);
    assert_eq!(rows[0], "  Work            120 min");
    assert_eq!(rows[3], "▸ Cycle            10 sessions");
}

#[test]
fn test_clock_text() {
    assert_eq!(clock_text(false, 0, 1500), "25:00");
    assert_eq!(clock_text(true, 75, 0), "+01:15");
    assert_eq!(session_text(3), "Session #3");
}

#[test]
fn test_status_text() {
    assert_eq!(status_text(true, true), "⏸  PAUSED");
    assert_eq!(status_text(false, true), "⏰ Time's up! Press Enter for break");
    assert_eq!(status_text(false, false), "");
}

#[test]
fn test_current_log_line() {
    let line = current_log_line(2, Phase::Work, false, false, 0, 1490, 1500, "Write");
    assert_eq!(line.icon, "  ▶ ");
    assert_eq!(line.session, "#2   ");
    assert_eq!(line.phase, "WORK       ");
    assert_eq!(line.times, "24:50 / 25:00  ");
    assert_eq!(line.status, "running");
    assert_eq!(line.wall, "");
    assert_eq!(line.task, "  Write");
    let line = current_log_line(12, Phase::LongBreak, true, false, 0, 60, 900, "Write");
    assert_eq!(line.icon, "  ⏸ ");
    assert_eq!(line.session, "#12  ");
    assert_eq!(line.phase, "LONG BREAK ");
    assert_eq!(line.status, "paused");
    assert_eq!(line.task, "");
    let line = current_log_line(1, Phase::Work, false, true, 61, 0, 1500, "");
    assert_eq!(line.icon, "  ⏰ ");
    assert_eq!(line.times, "+01:01 / 25:00  ");
    assert_eq!(line.status, "overtime");
}

#[test]
fn test_history_line() {
    let entry = HistoryEntry {
        session: 1,
        phase: Phase::Work,
        elapsed_secs: 754,
        total_secs: 1500,
        outcome: Outcome::Helping,
        task: "Review".to_string(),
        start_time: "09:00".to_string(),
        end_time: "09:12".to_string(),
    };
    let line = history_line(&entry);
    assert_eq!(line.icon, "  🤝 ");
    assert_eq!(line.times, "12:34 / 25:00  ");
    assert_eq!(line.status, "helping");
    assert_eq!(line.wall, "  09:00–09:12");
    assert_eq!(line.task, "  Review");
    let brk = HistoryEntry {
        session: 1,
        phase: Phase::Break,
        elapsed_secs: 300,
        total_secs: 300,
        outcome: Outcome::Completed,
        task: String::new(),
        start_time: "09:25".to_string(),
        end_time: "09:30".to_string(),
    };
    let line = history_line(&brk);
    assert_eq!(line.icon, "  ✓ ");
    assert_eq!(line.phase, "BREAK      ");
    assert_eq!(line.wall, "");
    assert_eq!(line.task, "");
}

#[test]
fn test_stats_texts() {
    assert_eq!(today_sessions_text(1), "  (1 session)");
    assert_eq!(today_sessions_text(0), "  (0 sessions)");
    assert_eq!(helping_text(5400), "1h 30m helping");
    assert_eq!(cycle_text(2, 4), "  │  Cycle: 2/4");
    assert_eq!(minutes_text(1500), "25m");
    assert_eq!(minutes_text(59), "0m");
}

#[test]
fn test_day_rows() {
    let row = day_row("2026-04-09", "2026-04-09", "2026-04-08", 60, 3600, 2);
    assert_eq!(row.date, "  2026-04-09  ");
    assert_eq!(row.label, "today      ");
    assert_eq!(row.hours, "  1h 00m");
    assert_eq!(row.sessions, "   2 sessions");
    let row = day_row("2026-04-08", "2026-04-09", "2026-04-08", 45000, 3600, 1);
    assert_eq!(row.label, "yesterday  ");
    assert_eq!(row.hours, " 12h 30m");
    assert_eq!(row.sessions, "   1 session");
    let row = day_row("2026-03-01", "2026-04-09", "2026-04-08", 400000, 0, 9);
    assert_eq!(row.label, "           ");
    assert_eq!(row.hours, "111h 06m");
}

#[test]
fn test_todo_rows_and_prompts() {
    assert_eq!(todo_row("Read", true, true), "▸ [x] Read");
    assert_eq!(todo_row("Write", false, false), "  [ ] Write");
    assert_eq!(notes_prompt(true), "Who/what were you helping with?");
    assert_eq!(notes_prompt(false), "Any notes on what you did?");
    assert_eq!(empty_todo_message(false), "No todos yet. Press 'a' to add one.");
}

#[test]
fn test_titles_and_controls() {
    assert_eq!(todo_title(true), " 📝 Pick a task ");
    assert_eq!(todo_title(false), " 📝 Todo List ");
    assert_eq!(daily_log_placeholder(0, 0), Some("  No work logged yet. Complete a work session to see stats!"));
    assert_eq!(daily_log_placeholder(0, 5), None);
    assert_eq!(daily_log_placeholder(2, 0), None);
    assert_eq!(todo_controls(true, true), vec![("Enter", "save"), ("Esc", "cancel")]);
    assert_eq!(todo_controls(false, true).len(), 9);
    assert_eq!(todo_controls(false, true)[8], ("Esc", "skip"));
    assert_eq!(todo_controls(false, false)[6], ("Esc", "back"));
    let work = timer_controls(false, true);
    assert_eq!(work.len(), 10);
    assert_eq!(work[0], ("space", "pause"));
    assert_eq!(work[1], ("Enter", "break"));
    let brk = timer_controls(true, false);
    assert_eq!(brk.len(), 7);
    assert_eq!(brk[0], ("space", "resume"));
    assert_eq!(brk[1], ("s", "skip"));
}

#[test]
fn test_input_and_task_lines() {
    assert_eq!(input_line("abc"), "> abc▏");
    assert_eq!(input_line(""), "> ▏");
    assert_eq!(task_line("Write"), "Task: Write");
}
