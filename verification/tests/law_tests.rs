use pomodoro::app::{App, Clock, Effect, Key, LogDirSetup, Outcome, Phase, Screen, SetupField};
use pomodoro::stats::{DailyStats, DayStats};
use pomodoro::store::{
    prepared_settings,
    add_log_file, default_log_dir, parse_config, parse_entry_duration, parse_todos, render_config, render_todos,
    render_work_entry, Config, TodoItem, WorkEntry,
};

fn dir_config(dir: &str) -> Config {
    Config { log_dir: dir.to_string(), ..Config::default() }
}

fn todo(text: &str, done: bool) -> TodoItem {
    TodoItem { text: text.to_string(), done }
}

// -- The cycle of phases --

#[test]
fn test_long_break_closes_cycle() {
    let mut app = App::with_test_config(25, 5, 15, 2);
    assert_eq!(app.sessions_in_cycle(), 1);
    app.skip_phase();
    assert_eq!(app.phase, Phase::Break);
    app.skip_phase();
    assert_eq!(app.phase, Phase::Work);
    assert_eq!(app.session, 2);
    assert_eq!(app.sessions_in_cycle(), 2);
    app.skip_phase();
    assert_eq!(app.phase, Phase::LongBreak);
    app.skip_phase();
    assert_eq!(app.session, 3);
    assert_eq!(app.sessions_in_cycle(), 1);
}

#[test]
fn test_two_skips_reach_next_session() {
    let mut app = App::with_test_config(25, 5, 15, 4);
    app.skip_phase();
    app.skip_phase();
    assert_eq!(app.phase, Phase::Work);
    assert_eq!(app.session, 2);
    assert_eq!(app.history.len(), 2);
    assert_eq!(app.history[0].outcome, Outcome::Skipped);
    assert_eq!(app.history[1].phase, Phase::Break);
}

// -- Settings --

#[test]
fn test_setup_keeps_settings_in_range() {
    let mut app = App::with_test_config(25, 5, 15, 4);
    app.screen = Screen::Setup;
    for _ in 0..200 {
        app.increment_field();
    }
    assert_eq!(app.work_secs, 7200);
    for _ in 0..300 {
        app.decrement_field();
    }
    assert_eq!(app.work_secs, 60);
    app.next_field();
    app.next_field();
    app.next_field();
    assert_eq!(app.selected_field, SetupField::SessionsBeforeLong);
    for _ in 0..20 {
        app.decrement_field();
    }
    assert_eq!(app.sessions_before_long, 1);
}

#[test]
fn test_decrement_undoes_increment() {
    let mut app = App::with_test_config(25, 5, 15, 4);
    app.increment_field();
    assert_eq!(app.work_secs, 1560);
    app.decrement_field();
    assert_eq!(app.work_secs, 1500);
    app.next_field();
    app.increment_field();
    app.decrement_field();
    assert_eq!(app.break_secs, 300);
}

// -- Pauses and distractions --

#[test]
fn test_pause_resume_same_instant() {
    let mut app = App::with_test_config(25, 5, 15, 4);
    app.clock.now_ms = 10_000;
    assert_eq!(app.elapsed_secs(), 10);
    app.toggle_pause();
    app.toggle_pause();
    assert!(!app.paused);
    assert_eq!(app.timer.pause_accumulated, 0);
    assert_eq!(app.elapsed_secs(), 10);
}

#[test]
fn test_paused_time_stands_still() {
    let mut app = App::with_test_config(25, 5, 15, 4);
    app.clock.now_ms = 10_000;
    app.toggle_pause();
    app.clock.now_ms = 70_000;
    assert_eq!(app.elapsed_secs(), 10);
    app.toggle_pause();
    app.clock.now_ms = 75_000;
    assert_eq!(app.elapsed_secs(), 15);
    assert_eq!(app.timer.pause_accumulated, 60_000);
}

#[test]
fn test_distraction_takes_five_minutes() {
    let mut app = App::with_test_config(25, 5, 15, 4);
    app.clock.now_ms = 400_000;
    assert_eq!(app.elapsed_secs(), 400);
    app.distraction();
    assert_eq!(app.elapsed_secs(), 100);
    app.distraction();
    assert_eq!(app.elapsed_secs(), 0);
}

#[test]
fn test_shortening_lasts_one_phase() {
    let mut app = App::with_test_config(25, 5, 15, 4);
    app.shorten_work();
    assert_eq!(app.phase_total_secs(), 1200);
    assert_eq!(app.work_secs, 1500);
    app.screen = Screen::Setup;
    app.start_timer();
    assert_eq!(app.phase_total_secs(), 1500);
}

#[test]
fn test_shorten_work_stops_at_one_minute() {
    let mut app = App::with_test_config(6, 5, 15, 4);
    app.shorten_work();
    assert_eq!(app.phase_total_secs(), 60);
    app.shorten_work();
    assert_eq!(app.phase_total_secs(), 60);
}

// -- Input --

#[test]
fn test_cancel_undoes_quit_request() {
    let mut app = App::with_test_config(25, 5, 15, 4);
    app.request_quit();
    assert!(app.confirm_quit);
    app.cancel_quit();
    assert!(!app.confirm_quit);
    assert!(!app.should_quit);
}

#[test]
fn test_backspace_undoes_typing() {
    let mut app = App::with_test_config(25, 5, 15, 4);
    app.screen = Screen::TaskInput;
    app.handle_key(Key::Char('a'));
    app.handle_key(Key::Char('b'));
    app.handle_key(Key::Char('é'));
    assert_eq!(app.task_input_buffer, "abé");
    app.handle_key(Key::Backspace);
    assert_eq!(app.task_input_buffer, "ab");
    app.task_input_backspace();
    app.task_input_backspace();
    app.task_input_backspace();
    assert_eq!(app.task_input_buffer, "");
}

#[test]
fn test_submit_task_trims_unicode_space() {
    let mut app = App::with_test_config(25, 5, 15, 4);
    app.screen = Screen::TaskInput;
    for c in "\u{3000} Plan day\u{a0}\t".chars() {
        app.task_input_char(c);
    }
    app.submit_task();
    assert_eq!(app.current_task, "Plan day");
    assert_eq!(app.screen, Screen::Setup);
}

#[test]
fn test_quit_dialog_takes_every_key() {
    let mut app = App::with_test_config(25, 5, 15, 4);
    app.request_quit();
    let dialog = app.handle_key(Key::Char('a'));
    assert!(dialog);
    assert!(app.confirm_quit);
    app.handle_key(Key::Char('n'));
    assert!(!app.confirm_quit);
    app.request_quit();
    app.handle_key(Key::Char('y'));
    assert!(app.should_quit);
}

// -- Ticks --

#[test]
fn test_work_never_ends_by_itself() {
    let mut app = App::with_test_config(1, 5, 15, 4);
    let mut t = 0;
    while t < 200_000 {
        t += 20_000;
        app.clock.now_ms = t;
        app.tick();
    }
    assert_eq!(app.phase, Phase::Work);
    assert_eq!(app.session, 1);
    assert!(app.history.is_empty());
    assert!(app.is_overtime());
    assert_eq!(app.overtime_secs(), 140);
}

#[test]
fn test_break_ends_when_time_is_up() {
    let mut app = App::with_test_config(25, 1, 15, 4);
    app.skip_phase();
    assert_eq!(app.phase, Phase::Break);
    for t in [20_000, 40_000] {
        app.clock.now_ms = t;
        app.tick();
        assert_eq!(app.phase, Phase::Break);
    }
    app.clock.now_ms = 60_000;
    app.tick();
    assert_eq!(app.phase, Phase::Work);
    assert_eq!(app.session, 2);
    assert_eq!(app.history.len(), 2);
    assert_eq!(app.history[1].phase, Phase::Break);
    assert_eq!(app.history[1].elapsed_secs, 60);
    assert_eq!(app.history[1].outcome, Outcome::Completed);
}

#[test]
fn test_sleep_is_not_work() {
    let mut app = App::with_test_config(25, 5, 15, 4);
    app.clock.now_ms = 10_000;
    app.tick();
    app.clock.now_ms = 100_000;
    app.tick();
    assert_eq!(app.phase, Phase::Break);
    assert_eq!(app.history.len(), 1);
    assert_eq!(app.history[0].phase, Phase::Work);
    assert_eq!(app.history[0].elapsed_secs, 11);
    assert_eq!(app.today_work_secs(), 11);
}

// -- Totals --

#[test]
fn test_helping_counts_apart() {
    let mut app = App::with_test_config(25, 5, 15, 4);
    app.clock.now_ms = 120_000;
    app.help_others();
    assert_eq!(app.screen, Screen::NotesInput);
    assert_eq!(app.today_helping_secs(), 120);
    assert_eq!(app.today_work_secs(), 0);
    assert_eq!(app.today_sessions(), 1);

    let mut other = App::with_test_config(25, 5, 15, 4);
    other.clock.now_ms = 120_000;
    other.end_task();
    assert_eq!(other.today_helping_secs(), 0);
    assert_eq!(other.today_work_secs(), 120);
    assert_eq!(other.today_sessions(), 1);
}

#[test]
fn test_confirm_break_counts_session() {
    let mut app = App::with_test_config(25, 5, 15, 4);
    assert_eq!(app.completed_work_sessions(), 0);
    app.clock.now_ms = 60_000;
    app.confirm_break();
    assert_eq!(app.completed_work_sessions(), 1);
    assert_eq!(app.phase, Phase::Break);
    assert_eq!(app.today_work_secs(), 60);
}

#[test]
fn test_daily_stats_set_then_get() {
    let mut stats = DailyStats::new();
    let a = DayStats { work_secs: 100, helping_secs: 0, sessions: 1 };
    let b = DayStats { work_secs: 5, helping_secs: 7, sessions: 2 };
    stats.set("2026-04-09", a);
    stats.set("2026-04-01", b);
    stats.add("2026-04-09", 50, 10, 1);
    assert_eq!(stats.len(), 2);
    assert_eq!(stats.date_at(0), "2026-04-01");
    assert_eq!(stats.date_at(1), "2026-04-09");
    assert_eq!(stats.get("2026-04-09"), Some(DayStats { work_secs: 150, helping_secs: 10, sessions: 2 }));
    assert_eq!(stats.get("2026-04-01"), Some(b));
    assert_eq!(stats.get("2026-04-02"), None);
}

// -- The todo list --

#[test]
fn test_todo_keys_keep_cursor_on_list() {
    let mut app = App::with_test_config(25, 5, 15, 4);
    app.todo.items = vec![todo("a", false), todo("b", false), todo("c", true)];
    app.todo.cursor = 2;
    app.handle_key(Key::Char('d'));
    assert_eq!(app.todo.items.len(), 2);
    assert_eq!(app.todo.cursor, 1);
    app.handle_key(Key::Down);
    assert_eq!(app.todo.cursor, 1);
    app.handle_key(Key::Char('d'));
    app.handle_key(Key::Char('d'));
    assert!(app.todo.items.is_empty());
    assert_eq!(app.todo.cursor, 0);
}

#[test]
fn test_todo_add_with_keys() {
    let mut app = App::with_test_config(25, 5, 15, 4);
    app.handle_key(Key::Char('a'));
    assert!(app.todo_is_input_mode());
    for c in "  Read ".chars() {
        app.handle_key(Key::Char(c));
    }
    app.handle_key(Key::Enter);
    assert!(!app.todo_is_input_mode());
    assert_eq!(app.todo.items.len(), 1);
    assert_eq!(app.todo.items[0].text, "Read");
    assert!(!app.todo.items[0].done);
    app.handle_key(Key::Char('a'));
    app.handle_key(Key::Char(' '));
    app.handle_key(Key::Enter);
    assert_eq!(app.todo.items.len(), 1);
}

// -- Effects --

#[test]
fn test_nothing_written_without_persisting() {
    let mut app = App::with_test_config(25, 5, 15, 4);
    assert!(!app.persists());
    app.handle_key(Key::Enter);
    app.screen = Screen::Setup;
    app.handle_key(Key::Enter);
    app.clock.now_ms = 60_000;
    app.handle_key(Key::Char('e'));
    app.handle_key(Key::Enter);
    app.clock.now_ms = 100_000;
    app.tick();
    assert!(app.effects.is_empty());
}

#[test]
fn test_persisting_app_queues_effects() {
    let mut app = App::new(&dir_config("/tmp/logs"), false, Clock::start());
    assert!(app.persists());
    assert_eq!(app.effects.len(), 2);
    assert!(matches!(app.effects[0], Effect::LoadDailyStats));
    assert!(matches!(app.effects[1], Effect::LoadTodos));
    app.screen = Screen::Setup;
    app.start_timer();
    assert_eq!(app.effects.len(), 3);
    match &app.effects[2] {
        Effect::SaveConfig(c) => assert_eq!(*c, dir_config("/tmp/logs")),
        _ => panic!("expected the settings to be saved"),
    }
    app.clock.now_ms = 90_000;
    app.confirm_break();
    assert!(matches!(app.effects[3], Effect::SaveWorkEntry(_)));
    match &app.effects[4] {
        Effect::Notify(title, msg) => {
            assert_eq!(title, "☕ Break time!");
            assert_eq!(msg, "Relax for 5 min");
        }
        _ => panic!("expected a notification"),
    }
}

// -- Onboarding --

#[test]
fn test_onboarding_first_run() {
    let app = App::new(&Config::default(), true, Clock::start());
    assert_eq!(app.screen, Screen::Onboarding);
    assert_eq!(app.onboarding.input_buffer, default_log_dir());
    assert!(app.effects.is_empty());
}

#[test]
fn test_onboarding_empty_path_refused() {
    let mut app = App::new(&dir_config(""), true, Clock::start());
    app.onboarding_input_char(' ');
    app.onboarding_confirm();
    assert_eq!(app.onboarding.error.as_deref(), Some("Path cannot be empty"));
    assert!(app.effects.is_empty());
    app.onboarding_input_backspace();
    assert_eq!(app.onboarding.error, None);
}

#[test]
fn test_onboarding_each_outcome() {
    let mut app = App::new(&dir_config("~/logs"), true, Clock::start());
    app.onboarding_confirm();
    assert_eq!(app.effects.len(), 1);
    match &app.effects[0] {
        Effect::PrepareLogDir(dir, cfg) => {
            assert_eq!(dir, "~/logs");
            assert_eq!(*cfg, Some(dir_config("~/logs")));
            let saved = cfg.as_ref().unwrap().with_log_dir("/home/u/logs");
            assert_eq!(saved.log_dir, "/home/u/logs");
            assert_eq!(saved.work_secs, 1500);
        }
        _ => panic!("expected the directory to be prepared"),
    }
    app.onboarding_finish(LogDirSetup::DirError("denied".to_string()));
    assert_eq!(app.onboarding.error.as_deref(), Some("Could not create directory: denied"));
    assert_eq!(app.screen, Screen::Onboarding);
    app.onboarding_finish(LogDirSetup::SaveError("/home/u/logs".to_string(), "full".to_string()));
    assert_eq!(app.onboarding.error.as_deref(), Some("Could not save config: full"));
    assert_eq!(app.log_dir, "/home/u/logs");
    assert_eq!(app.screen, Screen::Onboarding);
    app.onboarding_finish(LogDirSetup::Ready("/home/u/logs".to_string()));
    assert_eq!(app.screen, Screen::TodoList);
    assert_eq!(app.effects.len(), 3);
}

// -- Files --

#[test]
fn test_config_round_trip() {
    let cfg = Config {
        work_secs: 3000,
        break_secs: 420,
        long_break_secs: 1800,
        sessions_before_long: 3,
        log_dir: "/home/u/my logs=2026".to_string(),
    };
    let text = render_config(&cfg);
    assert_eq!(
        text,
        "log_dir=/home/u/my logs=2026\nwork_secs=3000\nbreak_secs=420\nlong_break_secs=1800\nsessions_before_long=3\n"
    );
    assert_eq!(parse_config(&text), cfg);
}

#[test]
fn test_parse_config_keeps_defaults() {
    let cfg = parse_config("work_secs = 600\nnonsense\nbreak_secs=abc\nsessions_before_long=7\r\n");
    assert_eq!(
        cfg,
        Config { work_secs: 600, break_secs: 300, long_break_secs: 900, sessions_before_long: 7, ..Config::default() }
    );
    let cfg = parse_config("log_dir =  /data/logs \nlog_dir=\n");
    assert_eq!(cfg.log_dir, "/data/logs");
    assert_eq!(parse_config(""), Config::default());
}

#[test]
fn test_todos_round_trip() {
    let items = vec![todo("Write report", false), todo("Call Bob", true)];
    let text = render_todos(&items);
    assert_eq!(text, "- [ ] Write report\n- [x] Call Bob\n");
    let back = parse_todos(&text);
    assert_eq!(back.len(), 2);
    assert_eq!(back[0].text, "Write report");
    assert!(!back[0].done);
    assert_eq!(back[1].text, "Call Bob");
    assert!(back[1].done);
}

fn entry(notes: &str) -> WorkEntry {
    WorkEntry {
        date: "2026-04-09".to_string(),
        start_time: "9:00 AM".to_string(),
        end_time: "9:25 AM".to_string(),
        duration_secs: 1500,
        task: "Write".to_string(),
        completed: true,
        helping: false,
        notes: notes.to_string(),
    }
}

#[test]
fn test_render_work_entry_new_file() {
    let text = render_work_entry(&entry("went well"), true, "");
    assert_eq!(text, "# 2026 Q2\n\n\n## 2026-04-09\n\n- [x] 9:00 AM – 9:25 AM (25:00) Write\n  > went well\n");
}

#[test]
fn test_render_work_entry_existing_date() {
    let existing = "# 2026 Q2\n\n\n## 2026-04-09\n\n- [x] 8:00 AM – 8:25 AM (25:00)\n";
    let text = render_work_entry(&entry(""), false, existing);
    assert_eq!(text, "- [x] 9:00 AM – 9:25 AM (25:00) Write\n");
    let other = "# 2026 Q2\n\n\n## 2026-04-08\n\n";
    let text = render_work_entry(&entry(""), false, other);
    assert_eq!(text, "\n## 2026-04-09\n\n- [x] 9:00 AM – 9:25 AM (25:00) Write\n");
}

#[test]
fn test_rendered_entry_reads_back() {
    let mut helping = entry("");
    helping.helping = true;
    helping.duration_secs = 754;
    let mut text = render_work_entry(&entry("ok"), true, "");
    let more = render_work_entry(&helping, false, &text);
    text.push_str(&more);
    assert_eq!(parse_entry_duration("- [x] 9:00 AM – 9:25 AM (25:00) Write"), Some(1500));
    let mut stats = DailyStats::new();
    add_log_file("2026-Q2", &text, &mut stats);
    assert_eq!(stats.get("2026-04-09"), Some(DayStats { work_secs: 1500, helping_secs: 754, sessions: 2 }));
}

#[test]
fn test_add_log_file_ignores_other_names() {
    let mut stats = DailyStats::new();
    add_log_file("notes", "## 2026-04-09\n- [x] 9:00 AM – 9:25 AM (25:00)\n", &mut stats);
    assert!(stats.is_empty());
}

#[test]
fn test_expand_then_fold() {
    let mut app = App::with_test_config(25, 5, 15, 4);
    app.clock.date = "2026-04-09".to_string();
    let day = DayStats { work_secs: 1500, helping_secs: 0, sessions: 1 };
    app.daily_stats.set("2026-04-01", day);
    app.daily_stats.set("2026-04-09", day);
    app.daily_stats.set("2026-04-05", day);
    app.open_daily_log();
    assert_eq!(app.past_days(), vec!["2026-04-05".to_string(), "2026-04-01".to_string()]);
    app.daily_log_toggle_expand();
    assert_eq!(app.daily_log.expanded, vec!["2026-04-05".to_string()]);
    app.daily_log_cursor_down();
    app.daily_log_toggle_expand();
    assert_eq!(app.daily_log.expanded.len(), 2);
    app.daily_log_toggle_expand();
    assert_eq!(app.daily_log.expanded, vec!["2026-04-05".to_string()]);
    app.daily_log_cursor_down();
    assert_eq!(app.daily_log.cursor, 1);
    app.daily_log_cursor_up();
    app.daily_log_toggle_expand();
    assert!(app.daily_log.expanded.is_empty());
}

#[test]
fn test_quit_keeps_open_work() {
    let mut app = App::new(&dir_config("/tmp/logs"), false, Clock::start());
    app.screen = Screen::Setup;
    app.handle_key(Key::Enter);
    assert_eq!(app.screen, Screen::Timer);
    for t in [20_000, 40_000, 60_000, 80_000, 100_000, 120_000] {
        app.clock.now_ms = t;
        assert!(!app.after_input());
    }
    assert!(app.handle_key(Key::Char('q')) == false);
    assert!(app.confirm_quit);
    assert!(app.handle_key(Key::Char('y')));
    assert!(app.after_input_allowed());
    assert!(app.after_input());
    assert_eq!(app.daily_stats.get(""), Some(DayStats { work_secs: 120, helping_secs: 0, sessions: 1 }));
    match app.effects.last() {
        Some(Effect::SaveWorkEntry(e)) => {
            assert_eq!(e.duration_secs, 120);
            assert!(!e.completed);
            assert!(!e.helping);
        }
        _ => panic!("expected the open work to be logged"),
    }
}

#[test]
fn test_counters_stay_consistent() {
    let mut app = App::with_test_config(25, 5, 15, 2);
    app.screen = Screen::Setup;
    for key in [Key::Left, Key::Down, Key::Down, Key::Down, Key::Left, Key::Left, Key::Enter] {
        assert!(app.key_allowed(key));
        app.handle_key(key);
    }
    assert_eq!(app.sessions_before_long, 1);
    for (t, key) in [(10_000, Key::Char(' ')), (20_000, Key::Char(' ')), (25_000, Key::Char('s')), (30_000, Key::Char(' '))] {
        app.clock.now_ms = t;
        assert!(app.key_allowed(key));
        app.handle_key(key);
        assert_eq!(app.paused, app.timer.pause_start.is_some());
        assert!(app.session >= 1 && app.sessions_before_long >= 1);
        assert!(app.after_input_allowed());
        app.after_input();
        assert_eq!(app.paused, app.timer.pause_start.is_some());
    }
    assert_eq!(app.phase, Phase::LongBreak);
    assert!(app.paused);
    assert_eq!(app.sessions_in_cycle(), 1);
}

#[test]
fn test_entry_with_odd_task_reads_back() {
    let mut e = entry("see you\r");
    e.task = "Fix (urgent) bug\r".to_string();
    let text = render_work_entry(&e, true, "");
    let mut stats = DailyStats::new();
    add_log_file("2026-Q2", &text, &mut stats);
    assert_eq!(stats.get("2026-04-09"), Some(DayStats { work_secs: 1500, helping_secs: 0, sessions: 1 }));
}

#[test]
fn test_shortening_ends_with_phase() {
    let mut app = App::with_test_config(25, 5, 15, 4);
    app.shorten_work();
    assert_eq!(app.phase_total_secs(), 1200);
    app.skip_phase();
    app.skip_phase();
    assert_eq!(app.phase, Phase::Work);
    assert_eq!(app.phase_total_secs(), 1500);
}

#[test]
fn test_chosen_log_dir_is_saved() {
    let mut app = App::new(&dir_config("/home/u/old"), true, Clock::start());
    app.onboarding_finish(LogDirSetup::Ready("/home/u/new".to_string()));
    assert_eq!(app.log_dir, "/home/u/new");
    let cfg = app.current_config();
    assert_eq!(cfg.log_dir, "/home/u/new");
    let back = parse_config(&render_config(&cfg));
    assert_eq!(back, cfg);
    let next = App::new(&back, false, Clock::start());
    assert_eq!(next.log_dir, "/home/u/new");
}

#[test]
fn test_setters_and_handbacks() {
    let mut app = App::new(&Config::default(), false, Clock::start());
    let effects = app.take_effects();
    assert_eq!(effects.len(), 2);
    assert!(app.effects.is_empty());
    let mut clock = Clock::start();
    clock.now_ms = 5_000;
    clock.date = "2026-04-09".to_string();
    app.set_clock(clock);
    assert_eq!(app.elapsed_secs(), 5);
    app.load_todos(vec![todo("a", false)]);
    assert_eq!(app.todo.items.len(), 1);
    let mut stats = DailyStats::new();
    stats.set("2026-04-09", DayStats { work_secs: 60, helping_secs: 0, sessions: 1 });
    app.load_daily_stats(stats);
    assert_eq!(app.today_sessions(), 1);
}

#[test]
fn test_config_lengths_survive_any_dir() {
    let cfg = Config {
        work_secs: 1200,
        break_secs: 240,
        long_break_secs: 600,
        sessions_before_long: 2,
        log_dir: "/odd\nwork_secs=7".to_string(),
    };
    let back = parse_config(&render_config(&cfg));
    assert_eq!(back.work_secs, 1200);
    assert_eq!(back.break_secs, 240);
    assert_eq!(back.long_break_secs, 600);
    assert_eq!(back.sessions_before_long, 2);
}

#[test]
fn test_onboarding_saves_new_dir() {
    let mut app = App::new(&dir_config("/old"), true, Clock::start());
    app.onboarding.input_buffer = "  ~/notes ".to_string();
    app.onboarding_confirm();
    let (dir, cfg) = match app.take_effects().pop() {
        Some(Effect::PrepareLogDir(dir, Some(cfg))) => (dir, cfg),
        _ => panic!("expected the directory to be prepared with the settings"),
    };
    assert_eq!(dir, "~/notes");
    let saved = prepared_settings(&cfg, &dir, "/home/u");
    assert_eq!(saved.log_dir, "/home/u/notes");
    app.onboarding_finish(LogDirSetup::Ready("/home/u/notes".to_string()));
    assert_eq!(app.current_config(), saved);
    assert_eq!(app.screen, Screen::TodoList);
}
