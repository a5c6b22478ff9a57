use pomodoro::stats::DailyStats;
use pomodoro::store::{
    day_offset_secs, expand_home,
    format_hours, format_mmss, is_daily_filename, is_quarterly_filename, local_date_str, local_time_12h,
    local_time_str, parse_daily_file, parse_entry_duration, parse_quarterly_file, parse_todo_line, quarterly_filename,
    quarterly_title, render_todos, LocalTm, TodoItem,
};
#[test]
fn test_format_hours_zero() {
    assert_eq!(format_hours(0), "0h 00m");
}

#[test]
fn test_format_hours_minutes_only() {
    assert_eq!(format_hours(2700), "0h 45m");
}

#[test]
fn test_format_hours_mixed() {
    assert_eq!(format_hours(9300), "2h 35m");
}

#[test]
fn test_format_hours_exact() {
    assert_eq!(format_hours(7200), "2h 00m");
}

#[test]
fn test_format_mmss() {
    assert_eq!(format_mmss(0), "00:00");
    assert_eq!(format_mmss(90), "01:30");
    assert_eq!(format_mmss(1500), "25:00");
}

#[test]
fn test_local_date_format() {
    let date = local_date_str(Some(LocalTm { tm_year: 126, tm_mon: 3, tm_mday: 9, tm_hour: 14, tm_min: 5 }));
    assert_eq!(date.len(), 10);
    assert_eq!(&date[4..5], "-");
    assert_eq!(&date[7..8], "-");
}

#[test]
fn test_local_time_format() {
    let time = local_time_str(Some(LocalTm { tm_year: 126, tm_mon: 3, tm_mday: 9, tm_hour: 14, tm_min: 5 }));
    assert_eq!(time.len(), 5);
    assert_eq!(&time[2..3], ":");
}

#[test]
fn test_local_time_12h_format() {
    let time = local_time_12h(Some(LocalTm { tm_year: 126, tm_mon: 3, tm_mday: 9, tm_hour: 14, tm_min: 5 }));
    assert!(time.ends_with("AM") || time.ends_with("PM"));
    assert!(time.contains(':'));
}

#[test]
fn test_parse_entry_duration() {
    assert_eq!(
        parse_entry_duration("[x] 09:15 – 09:40 (25:00) task"),
        Some(1500)
    );
    assert_eq!(parse_entry_duration("[ ] 10:00 – 10:05 (05:30)"), Some(330));
    // Old emoji format still parses
    assert_eq!(
        parse_entry_duration("09:15 – 09:40 (25:00) ✅ task"),
        Some(1500)
    );
    assert_eq!(parse_entry_duration("no parens here"), None);
}

#[test]
fn test_quarterly_filename() {
    assert_eq!(quarterly_filename("2026-01-15"), "2026-Q1.md");
    assert_eq!(quarterly_filename("2026-03-31"), "2026-Q1.md");
    assert_eq!(quarterly_filename("2026-04-01"), "2026-Q2.md");
    assert_eq!(quarterly_filename("2026-06-30"), "2026-Q2.md");
    assert_eq!(quarterly_filename("2026-07-01"), "2026-Q3.md");
    assert_eq!(quarterly_filename("2026-10-01"), "2026-Q4.md");
    assert_eq!(quarterly_filename("2026-12-31"), "2026-Q4.md");
}

#[test]
fn test_quarterly_title() {
    assert_eq!(quarterly_title("2026-04-09"), "2026 Q2");
    assert_eq!(quarterly_title("2026-01-01"), "2026 Q1");
}

#[test]
fn test_is_quarterly_filename() {
    assert!(is_quarterly_filename("2026-Q1"));
    assert!(is_quarterly_filename("2026-Q4"));
    assert!(!is_quarterly_filename("2026-Q5"));
    assert!(!is_quarterly_filename("2026-Q0"));
    assert!(!is_quarterly_filename("2026-04-09"));
    assert!(!is_quarterly_filename("short"));
}

#[test]
fn test_is_daily_filename() {
    assert!(is_daily_filename("2026-04-09"));
    assert!(!is_daily_filename("2026-Q1"));
    assert!(!is_daily_filename("short"));
}

#[test]
fn test_parse_quarterly_file() {
    let contents = "\
# 2026 Q2

## 2026-04-09

- [x] 09:15 – 09:40 (25:00) task1
- [x] 09:45 – 10:10 (25:00) task2

## 2026-04-10

- 08:30 – 09:00 (30:00) ✅ task3
";
    let mut stats = DailyStats::new();
    parse_quarterly_file(contents, &mut stats);
    assert_eq!(stats.len(), 2);
    assert_eq!(stats.get("2026-04-09").unwrap().sessions, 2);
    assert_eq!(stats.get("2026-04-09").unwrap().work_secs, 3000);
    assert_eq!(stats.get("2026-04-10").unwrap().sessions, 1);
    assert_eq!(stats.get("2026-04-10").unwrap().work_secs, 1800);
}

#[test]
fn test_parse_helping_entries() {
    let contents = "\
# 2026 Q2

## 2026-04-09

- [x] 09:00 – 09:25 (25:00) task1
- [h] 09:30 – 09:45 (15:00) helped Bob
- [x] 10:00 – 10:25 (25:00) task2
";
    let mut stats = DailyStats::new();
    parse_quarterly_file(contents, &mut stats);
    assert_eq!(stats.get("2026-04-09").unwrap().sessions, 3);
    assert_eq!(stats.get("2026-04-09").unwrap().work_secs, 3000);
    assert_eq!(stats.get("2026-04-09").unwrap().helping_secs, 900);
}

#[test]
fn test_parse_daily_file() {
    let contents = "\
# 2026-04-09

- [x] 09:15 – 09:40 (25:00) task1
- [ ] 09:45 – 10:10 (10:00) task2
";
    let mut stats = DailyStats::new();
    parse_daily_file("2026-04-09", contents, &mut stats);
    assert_eq!(stats.len(), 1);
    assert_eq!(stats.get("2026-04-09").unwrap().sessions, 2);
    assert_eq!(stats.get("2026-04-09").unwrap().work_secs, 2100);
}

#[test]
fn test_parse_todo_line() {
    let item = parse_todo_line("- [ ] Buy groceries").unwrap();
    assert_eq!(item.text, "Buy groceries");
    assert!(!item.done);

    let item = parse_todo_line("- [x] Write report").unwrap();
    assert_eq!(item.text, "Write report");
    assert!(item.done);

    assert!(parse_todo_line("not a todo").is_none());
    assert!(parse_todo_line("- Buy groceries").is_none());
}

#[test]
fn test_todo_serialize() {
    let todos = vec![
        TodoItem {
            text: "Task A".to_string(),
            done: false,
        },
        TodoItem {
            text: "Task B".to_string(),
            done: true,
        },
    ];
    let content: String = render_todos(&todos);
    assert_eq!(content, "- [ ] Task A\n- [x] Task B\n");
}

#[test]
fn test_expand_home() {
    assert_eq!(expand_home("~", "/home/u"), "/home/u");
    assert_eq!(expand_home("~/logs/daily", "/home/u"), "/home/u/logs/daily");
    assert_eq!(expand_home("/var/logs", "/home/u"), "/var/logs");
    assert_eq!(expand_home("~logs", "/home/u"), "~logs");
}

#[test]
fn test_day_offset_secs() {
    assert_eq!(day_offset_secs(1_000_000, -1), Some(1_000_000 - 86_400));
    assert_eq!(day_offset_secs(0, 2), Some(172_800));
    assert_eq!(day_offset_secs(i64::MAX, 1), None);
}
