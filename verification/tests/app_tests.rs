use pomodoro::app::{format_duration, App, Clock, Outcome, Phase, Screen, SetupField};
use pomodoro::store::{Config, TodoItem};

// -- format_duration --

#[test]
fn test_format_duration_zero() {
    assert_eq!(format_duration(0), "00:00");
}

#[test]
fn test_format_duration_seconds_only() {
    assert_eq!(format_duration(45), "00:45");
}

#[test]
fn test_format_duration_minutes_and_seconds() {
    assert_eq!(format_duration(754), "12:34");
}

#[test]
fn test_format_duration_exact_minutes() {
    assert_eq!(format_duration(1500), "25:00");
}

// -- App construction --

#[test]
fn test_new_app_defaults() {
    let app = App::with_test_config(25, 5, 15, 4);
    assert_eq!(app.work_secs, 25 * 60);
    assert_eq!(app.break_secs, 5 * 60);
    assert_eq!(app.long_break_secs, 15 * 60);
    assert_eq!(app.sessions_before_long, 4);
    assert_eq!(app.session, 1);
    assert_eq!(app.phase, Phase::Work);
    assert_eq!(app.screen, Screen::TodoList);
    assert_eq!(app.selected_field, SetupField::Work);
    assert!(app.current_task.is_empty());
    assert!(app.task_input_buffer.is_empty());
    assert!(!app.paused);
    assert!(!app.should_quit);
}

#[test]
fn test_with_config_clamps_sessions() {
    let app = App::with_test_config(25, 5, 15, 0);
    assert_eq!(app.sessions_before_long, 1);
}

#[test]
fn test_phase_display() {
    assert_eq!(Phase::Work.display_text(), "🍅 WORK");
    assert_eq!(Phase::Break.display_text(), "☕ BREAK");
    assert_eq!(Phase::LongBreak.display_text(), "🌴 LONG BREAK");
}

// -- Setup navigation --

#[test]
fn test_next_field_clamps_at_max() {
    let mut app = App::new(&Config::default(), false, Clock::start());
    for _ in 0..10 {
        app.next_field();
    }
    assert_eq!(app.selected_field, SetupField::SessionsBeforeLong);
}

#[test]
fn test_prev_field_stops_at_zero() {
    let mut app = App::new(&Config::default(), false, Clock::start());
    app.prev_field();
    assert_eq!(app.selected_field, SetupField::Work);
}

#[test]
fn test_increment_work() {
    let mut app = App::with_test_config(25, 5, 15, 4);
    app.selected_field = SetupField::Work;
    assert_eq!(app.work_secs, 25 * 60);
    app.increment_field();
    assert_eq!(app.work_secs, 26 * 60);
}

#[test]
fn test_decrement_work_minimum() {
    let mut app = App::with_test_config(1, 5, 15, 4);
    app.selected_field = SetupField::Work;
    app.decrement_field();
    assert_eq!(app.work_secs, 60);
}

#[test]
fn test_increment_sessions_maximum() {
    let mut app = App::with_test_config(25, 5, 15, 10);
    app.selected_field = SetupField::SessionsBeforeLong;
    app.increment_field();
    assert_eq!(app.sessions_before_long, 10);
}

#[test]
fn test_start_timer_begins_work() {
    let mut app = App::with_test_config(25, 5, 15, 4);
    assert_eq!(app.screen, Screen::TodoList);
    app.start_timer();
    assert_eq!(app.screen, Screen::Timer);
}

// -- Task input --

#[test]
fn test_task_input_typing() {
    let mut app = App::new(&Config::default(), false, Clock::start());
    app.start_timer();
    app.task_input_char('H');
    app.task_input_char('i');
    assert_eq!(app.task_input_buffer, "Hi");
    app.task_input_backspace();
    assert_eq!(app.task_input_buffer, "H");
}

#[test]
fn test_submit_task_starts_timer() {
    let mut app = App::new(&Config::default(), false, Clock::start());
    app.task_input_char('X');
    app.submit_task();
    assert_eq!(app.screen, Screen::Setup);
    assert_eq!(app.current_task, "X");
    assert!(app.task_input_buffer.is_empty());
}

#[test]
fn test_skip_task_input_returns_to_todo() {
    let mut app = App::new(&Config::default(), false, Clock::start());
    app.skip_task_input();
    assert_eq!(app.screen, Screen::TodoList);
}

// -- Timer logic --

#[test]
fn test_phase_total_secs() {
    let app = App::with_test_config(25, 5, 15, 4);
    assert_eq!(app.phase_total_secs(), 1500);
}

#[test]
fn test_work_does_not_auto_complete() {
    let mut app = App::with_test_config(0, 5, 15, 4);
    app.tick(); // Work remaining=0, but tick should NOT auto-finish
    assert_eq!(app.phase, Phase::Work);
    assert!(app.history.is_empty());
}

#[test]
fn test_break_still_auto_completes() {
    let mut app = App::with_test_config(25, 0, 15, 4);
    app.skip_phase(); // Work -> Break (0 dur)
    app.tick(); // Break remaining=0 -> auto-completes
    assert_eq!(app.phase, Phase::Work);
    assert_eq!(app.session, 2);
}

#[test]
fn test_skip_advances_phase() {
    let mut app = App::with_test_config(25, 5, 15, 4);
    app.skip_phase();
    assert_eq!(app.phase, Phase::Break);
    assert_eq!(app.session, 1);

    app.skip_phase();
    assert_eq!(app.phase, Phase::Work);
    assert_eq!(app.session, 2);
}

#[test]
fn test_skip_to_long_break() {
    let mut app = App::with_test_config(25, 5, 15, 2);

    app.skip_phase(); // Work -> Break
    assert_eq!(app.phase, Phase::Break);

    app.skip_phase(); // Break -> Work (session 2)
    assert_eq!(app.session, 2);

    app.skip_phase(); // Work -> LongBreak
    assert_eq!(app.phase, Phase::LongBreak);

    app.skip_phase(); // LongBreak -> Work (session 3)
    assert_eq!(app.phase, Phase::Work);
    assert_eq!(app.session, 3);
}

#[test]
fn test_history_tracking() {
    let mut app = App::with_test_config(25, 5, 15, 4);
    app.current_task = "Test task".to_string();
    app.skip_phase();

    assert_eq!(app.history.len(), 1);
    assert_eq!(app.history[0].phase, Phase::Work);
    assert_eq!(app.history[0].outcome, Outcome::Skipped);
    assert_eq!(app.history[0].session, 1);
    assert_eq!(app.history[0].task, "Test task");
}

#[test]
fn test_toggle_pause() {
    let mut app = App::with_test_config(25, 5, 15, 4);
    assert!(!app.paused);
    app.toggle_pause();
    assert!(app.paused);
    app.toggle_pause();
    assert!(!app.paused);
}

#[test]
fn test_sessions_in_cycle() {
    let mut app = App::with_test_config(25, 5, 15, 4);
    assert_eq!(app.sessions_in_cycle(), 1);

    app.skip_phase(); // Work -> Break
    app.skip_phase(); // Break -> Work (session 2)
    assert_eq!(app.sessions_in_cycle(), 2);
}

#[test]
fn test_distraction_adds_pause() {
    let mut app = App::with_test_config(25, 5, 15, 4);
    assert_eq!(app.timer.pause_accumulated, 0);
    app.distraction();
    assert_eq!(app.timer.pause_accumulated, 300_000);
    app.distraction();
    assert_eq!(app.timer.pause_accumulated, 600_000);
}

#[test]
fn test_distraction_noop_during_break() {
    let mut app = App::with_test_config(25, 5, 15, 4);
    app.skip_phase(); // Work -> Break
    app.distraction();
    assert_eq!(app.timer.pause_accumulated, 0);
}

// -- Overtime & confirm_break --

#[test]
fn test_is_overtime_zero_duration() {
    let app = App::with_test_config(0, 5, 15, 4);
    assert!(app.is_overtime());
}

#[test]
fn test_not_overtime_during_countdown() {
    let app = App::with_test_config(25, 5, 15, 4);
    assert!(!app.is_overtime());
    assert_eq!(app.overtime_secs(), 0);
}

#[test]
fn test_confirm_break_goes_to_break() {
    let mut app = App::with_test_config(0, 5, 15, 4);
    app.confirm_break();
    assert_eq!(app.phase, Phase::Break);
    assert_eq!(app.session, 1);
    assert_eq!(app.history.len(), 1);
    assert_eq!(app.history[0].outcome, Outcome::Completed);
}

#[test]
fn test_confirm_break_noop_during_break() {
    let mut app = App::with_test_config(25, 5, 15, 4);
    app.skip_phase(); // Work -> Break
    let session = app.session;
    app.confirm_break(); // Should do nothing
    assert_eq!(app.phase, Phase::Break);
    assert_eq!(app.session, session);
}

#[test]
fn test_confirm_break_never_skips_long_break() {
    let mut app = App::with_test_config(0, 1, 15, 2);
    // Session 1 Work → Break (not long since 1 is not multiple of 2)
    app.confirm_break();
    assert_eq!(app.phase, Phase::Break);
    app.skip_phase(); // Break → Work (session 2)
    // Session 2 Work with 0-dur → overtime triggers breaks_to_skip > 0
    app.confirm_break();
    assert_eq!(app.phase, Phase::LongBreak);
}

#[test]
fn test_completed_work_sessions() {
    let mut app = App::with_test_config(0, 0, 0, 4);
    app.confirm_break(); // Work -> Break
    app.tick(); // Break (0 dur) completes -> Work
    app.confirm_break(); // Work -> Break
    assert_eq!(app.completed_work_sessions(), 2);
}

// -- End task & notes --

#[test]
fn test_end_task_goes_to_notes_input() {
    let mut app = App::with_test_config(0, 5, 15, 4);
    app.current_task = "X".to_string();
    app.start_timer();
    app.end_task();
    assert_eq!(app.screen, Screen::NotesInput);
    assert_eq!(app.history.len(), 1);
    assert_eq!(app.history[0].outcome, Outcome::Completed);
    assert_eq!(app.history[0].task, "X");
}

#[test]
fn test_end_task_noop_during_break() {
    let mut app = App::with_test_config(25, 5, 15, 4);
    app.skip_phase(); // Work -> Break
    app.end_task();
    assert_eq!(app.phase, Phase::Break);
    assert_ne!(app.screen, Screen::NotesInput);
}

#[test]
fn test_submit_notes_goes_to_break() {
    let mut app = App::with_test_config(0, 5, 15, 4);
    app.start_timer();
    app.end_task();
    assert_eq!(app.screen, Screen::NotesInput);
    app.notes_input_char('g');
    app.notes_input_char('o');
    app.notes_input_char('o');
    app.notes_input_char('d');
    app.submit_notes();
    assert_eq!(app.phase, Phase::Break);
    assert_eq!(app.screen, Screen::Timer);
    assert!(app.notes_input_buffer.is_empty());
}

#[test]
fn test_skip_notes_goes_to_break() {
    let mut app = App::with_test_config(0, 5, 15, 4);
    app.start_timer();
    app.end_task();
    app.skip_notes();
    assert_eq!(app.phase, Phase::Break);
    assert_eq!(app.screen, Screen::Timer);
    assert!(app.notes_input_buffer.is_empty());
}

// -- Todo list --

#[test]
fn test_open_todo_list_picking() {
    let app = App::with_test_config(25, 5, 15, 4);
    assert_eq!(app.screen, Screen::TodoList);
    assert!(app.todo.picking);
}

#[test]
fn test_open_todo_list_manage() {
    let mut app = App::with_test_config(25, 5, 15, 4);
    app.open_todo_manager();
    assert_eq!(app.screen, Screen::TodoList);
    assert!(!app.todo.picking);
}

#[test]
fn test_todo_add_and_navigate() {
    let mut app = App::with_test_config(25, 5, 15, 4);
    app.return_to_task_picker();
    app.todo_start_add();
    assert!(app.todo_is_input_mode());
    app.todo_input_char('T');
    app.todo_input_char('a');
    app.todo_input_char('s');
    app.todo_input_char('k');
    app.todo_confirm_input();
    assert!(!app.todo_is_input_mode());
    assert_eq!(app.todo.items.len(), 1);
    assert_eq!(app.todo.items[0].text, "Task");
    app.todo_start_add();
    app.todo_input_char('B');
    app.todo_confirm_input();
    assert_eq!(app.todo.items.len(), 2);
    app.todo.cursor = 0;
    app.todo_down();
    assert_eq!(app.todo.cursor, 1);
    app.todo_up();
    assert_eq!(app.todo.cursor, 0);
}

#[test]
fn test_todo_delete() {
    let mut app = App::with_test_config(25, 5, 15, 4);
    app.todo.items.push(TodoItem {
        text: "A".into(),
        done: false,
    });
    app.todo.items.push(TodoItem {
        text: "B".into(),
        done: false,
    });
    app.todo.cursor = 1;
    app.todo_delete();
    assert_eq!(app.todo.items.len(), 1);
    assert_eq!(app.todo.cursor, 0);
}

#[test]
fn test_todo_toggle() {
    let mut app = App::with_test_config(25, 5, 15, 4);
    app.todo.items.push(TodoItem {
        text: "A".into(),
        done: false,
    });
    app.todo_toggle();
    assert!(app.todo.items[0].done);
    app.todo_toggle();
    assert!(!app.todo.items[0].done);
}

#[test]
fn test_todo_select_starts_work() {
    let mut app = App::with_test_config(25, 5, 15, 4);
    app.todo.picking = true;
    app.todo.items.push(TodoItem {
        text: "My task".into(),
        done: false,
    });
    app.todo_select();
    assert_eq!(app.current_task, "My task");
    assert_eq!(app.screen, Screen::Setup);
}

#[test]
fn test_todo_edit() {
    let mut app = App::with_test_config(25, 5, 15, 4);
    app.todo.items.push(TodoItem {
        text: "Old".into(),
        done: false,
    });
    app.todo_start_edit();
    assert!(app.todo_is_input_mode());
    assert_eq!(app.todo.input_buffer, "Old");
    app.todo.input_buffer.clear();
    app.todo_input_char('N');
    app.todo_input_char('e');
    app.todo_input_char('w');
    app.todo_confirm_input();
    assert_eq!(app.todo.items[0].text, "New");
}

#[test]
fn test_todo_back_picking_quits() {
    let mut app = App::with_test_config(25, 5, 15, 4);
    app.todo.picking = true;
    app.todo_back();
    assert!(app.should_quit);
}

#[test]
fn test_todo_back_manage_returns_to_timer() {
    let mut app = App::with_test_config(25, 5, 15, 4);
    app.open_todo_manager();
    app.todo_back();
    assert_eq!(app.screen, Screen::Timer);
}

#[test]
fn test_todo_custom_task() {
    let mut app = App::with_test_config(25, 5, 15, 4);
    app.todo.picking = true;
    app.todo_custom_task();
    assert_eq!(app.screen, Screen::TaskInput);
}

// -- Helping --

#[test]
fn test_help_others_goes_to_notes_input() {
    let mut app = App::with_test_config(0, 5, 15, 4);
    app.start_timer();
    app.help_others();
    assert_eq!(app.screen, Screen::NotesInput);
    assert!(app.pending.is_helping);
    assert_eq!(app.history.len(), 1);
    assert_eq!(app.history[0].outcome, Outcome::Helping);
}

#[test]
fn test_help_others_tracks_helping_secs() {
    let mut app = App::with_test_config(0, 5, 15, 4);
    app.start_timer();
    app.help_others();
    assert_eq!(app.today_work_secs(), 0);
}

#[test]
fn test_help_others_noop_during_break() {
    let mut app = App::with_test_config(25, 5, 15, 4);
    app.skip_phase();
    app.help_others();
    assert_ne!(app.screen, Screen::NotesInput);
}

// -- Quit confirmation --

#[test]
fn test_request_quit_sets_flag() {
    let mut app = App::with_test_config(25, 5, 15, 4);
    assert!(!app.confirm_quit);
    app.request_quit();
    assert!(app.confirm_quit);
    assert!(!app.should_quit);
}

#[test]
fn test_cancel_quit_clears_flag() {
    let mut app = App::with_test_config(25, 5, 15, 4);
    app.request_quit();
    app.cancel_quit();
    assert!(!app.confirm_quit);
    assert!(!app.should_quit);
}

#[test]
fn test_confirm_quit_end_session_during_work() {
    let mut app = App::with_test_config(0, 5, 15, 4);
    app.start_timer();
    app.request_quit();
    app.confirm_quit_end_session();
    assert!(!app.confirm_quit);
    assert_eq!(app.screen, Screen::NotesInput);
}

#[test]
fn test_has_active_work_session() {
    let mut app = App::with_test_config(25, 5, 15, 4);
    assert!(!app.has_active_work_session());
    app.start_timer();
    assert!(app.has_active_work_session());
    app.skip_phase(); // Work -> Break
    assert!(!app.has_active_work_session());
}

// -- Manual break --

#[test]
fn test_start_manual_break() {
    let mut app = App::with_test_config(25, 5, 15, 4);
    app.start_manual_break();
    assert!(app.manual_break);
    assert_eq!(app.screen, Screen::Timer);
    assert!(!app.has_active_work_session());
}

#[test]
fn test_end_manual_break() {
    let mut app = App::with_test_config(25, 5, 15, 4);
    app.start_manual_break();
    app.end_manual_break();
    assert!(!app.manual_break);
    assert_eq!(app.screen, Screen::TodoList);
}

#[test]
fn test_rename_task() {
    let mut app = App::with_test_config(25, 5, 15, 4);
    app.current_task = "Old".to_string();
    app.start_timer();
    app.rename_task();
    assert!(app.renaming_task);
    assert_eq!(app.screen, Screen::TaskInput);
    assert_eq!(app.task_input_buffer, "Old");
}

#[test]
fn test_rename_submit_returns_to_timer() {
    let mut app = App::with_test_config(25, 5, 15, 4);
    app.start_timer();
    app.rename_task();
    app.task_input_buffer.clear();
    app.task_input_char('N');
    app.task_input_char('e');
    app.task_input_char('w');
    app.submit_task();
    assert_eq!(app.screen, Screen::Timer);
    assert_eq!(app.current_task, "New");
    assert!(!app.renaming_task);
}

#[test]
fn test_rename_skip_returns_to_timer() {
    let mut app = App::with_test_config(25, 5, 15, 4);
    app.current_task = "Keep".to_string();
    app.start_timer();
    app.rename_task();
    app.skip_task_input();
    assert_eq!(app.screen, Screen::Timer);
    assert_eq!(app.current_task, "Keep");
    assert!(!app.renaming_task);
}

#[test]
fn test_rename_noop_during_break() {
    let mut app = App::with_test_config(25, 5, 15, 4);
    app.skip_phase(); // Work -> Break
    app.rename_task();
    assert!(!app.renaming_task);
    assert_ne!(app.screen, Screen::TaskInput);
}

#[test]
fn test_sleep_during_work_switches_to_break() {
    let mut app = App::with_test_config(25, 5, 15, 4);
    app.submit_task();
    app.start_timer();
    assert_eq!(app.phase, Phase::Work);
    assert_eq!(app.session, 1);

    app.clock.now_ms = app.timer.last_tick + 60_000;
    app.tick();

    assert!(matches!(app.phase, Phase::Break | Phase::LongBreak));
    let work = app
        .history
        .iter()
        .filter(|e| e.phase == Phase::Work)
        .collect::<Vec<_>>();
    assert_eq!(work.len(), 1);
    assert!(work[0].elapsed_secs < 5);
}

#[test]
fn test_sleep_during_break_no_crash() {
    let mut app = App::with_test_config(25, 5, 15, 4);
    app.submit_task();
    app.start_timer();
    app.skip_phase();
    assert!(matches!(app.phase, Phase::Break | Phase::LongBreak));

    app.clock.now_ms = app.timer.last_tick + 60_000;
    app.tick();

    // Break should remain or auto-complete — no panic
    assert!(!app.should_quit);
}

#[test]
fn test_sleep_during_paused_work_no_transition() {
    let mut app = App::with_test_config(25, 5, 15, 4);
    app.submit_task();
    app.start_timer();
    app.toggle_pause();
    assert!(app.paused);

    app.clock.now_ms = app.timer.last_tick + 60_000;
    app.tick();

    assert_eq!(app.phase, Phase::Work);
    assert!(app.paused);
}

#[test]
fn test_normal_tick_no_sleep_detection() {
    let mut app = App::with_test_config(25, 5, 15, 4);
    app.submit_task();
    app.start_timer();
    app.tick();
    assert_eq!(app.phase, Phase::Work);
}
