use vstd::prelude::*;

pub use crate::stats::DayStats;
use crate::stats::{add_day, day_or_empty, empty_day, upsert, DailyStats};
use crate::text::{
    push_signed_pad, signed_pad,
    contains, contains_chars, lemma_zero_pad_digits,
    lemma_dec_digits, lemma_lines_concat, lemma_lines_single, lemma_parse_dec, lemma_trim_plain, lemma_trimmed_end, strip_cr,
    white_space,
    chars_of, count_before, dec, find_char, find_char_in, has_prefix, is_digit, lemma_count_before,
    lemma_count_before_len, lines, parse_uint, parse_uint_chars, push_char, push_chars, push_dec, push_dec_pad,
    skip_chars, slice_chars, split_lines, starts_with, string_of, trim, trim_chars, views, zero_pad,
};
use vstd::string::StringSliceAdditionalSpecFns;
use vstd::utf8::{
    decode_utf8, encode_utf8, encode_utf8_decode_utf8, encode_utf8_valid_utf8, is_char_boundary,
    is_char_boundary_iff_not_is_continuation_byte, valid_utf8_split,
};

verus! {

/// One entry of the todo list.
pub struct TodoItem {
    pub text: String,
    pub done: bool,
}

/// A todo entry as a mathematical value.
pub struct TodoItemView {
    pub text: Seq<char>,
    pub done: bool,
}

impl View for TodoItem {
    type V = TodoItemView;

    open spec fn view(&self) -> TodoItemView {
        TodoItemView { text: self.text@, done: self.done }
    }
}

/// The views of a list of todo entries.
pub open spec fn todo_views(items: Seq<TodoItem>) -> Seq<TodoItemView> {
    items.map_values(|t: TodoItem| t@)
}

impl TodoItem {
    /// A copy of this entry.
    pub fn duplicate(&self) -> (r: TodoItem)
        ensures
            r@ == self@,
    {
        TodoItem { text: self.text.clone(), done: self.done }
    }
}

/// The settings that are kept between runs: the timer lengths and the log directory.
#[derive(Debug, Clone, PartialEq, Eq)]
pub struct Config {
    pub work_secs: u64,
    pub break_secs: u64,
    pub long_break_secs: u64,
    pub sessions_before_long: u32,
    pub log_dir: String,
}

/// The settings as a mathematical value.
pub struct ConfigView {
    pub work_secs: u64,
    pub break_secs: u64,
    pub long_break_secs: u64,
    pub sessions_before_long: u32,
    pub log_dir: Seq<char>,
}

impl View for Config {
    type V = ConfigView;

    open spec fn view(&self) -> ConfigView {
        ConfigView {
            work_secs: self.work_secs,
            break_secs: self.break_secs,
            long_break_secs: self.long_break_secs,
            sessions_before_long: self.sessions_before_long,
            log_dir: self.log_dir@,
        }
    }
}

/// The settings used when nothing is configured: 25 min work, 5 min break,
/// 15 min long break, a long break every 4 sessions, the default log directory.
pub open spec fn default_config() -> ConfigView {
    ConfigView {
        work_secs: 1500,
        break_secs: 300,
        long_break_secs: 900,
        sessions_before_long: 4,
        log_dir: "/Users/alvisf/Documents/Notes/daily-logs"@,
    }
}

impl Default for Config {
    fn default() -> (r: Self)
        ensures
            r@ == default_config(),
    {
        Config {
            work_secs: 25 * 60,
            break_secs: 5 * 60,
            long_break_secs: 15 * 60,
            sessions_before_long: 4,
            log_dir: default_log_dir(),
        }
    }
}

impl Config {
    /// A copy of these settings.
    pub fn duplicate(&self) -> (r: Config)
        ensures
            r@ == self@,
    {
        Config {
            work_secs: self.work_secs,
            break_secs: self.break_secs,
            long_break_secs: self.long_break_secs,
            sessions_before_long: self.sessions_before_long,
            log_dir: self.log_dir.clone(),
        }
    }

    /// These settings with `dir` as the log directory.
    pub fn with_log_dir(&self, dir: &str) -> (r: Config)
        ensures
            r@ == (ConfigView { log_dir: dir@, ..self@ }),
    {
        Config {
            work_secs: self.work_secs,
            break_secs: self.break_secs,
            long_break_secs: self.long_break_secs,
            sessions_before_long: self.sessions_before_long,
            log_dir: dir.to_string(),
        }
    }
}

/// One finished stretch of work, as it is written to the log.
pub struct WorkEntry {
    pub date: String,
    pub start_time: String,
    pub end_time: String,
    pub duration_secs: u64,
    pub task: String,
    pub completed: bool,
    pub helping: bool,
    pub notes: String,
}

/// A log entry as a mathematical value.
pub struct WorkEntryView {
    pub date: Seq<char>,
    pub start_time: Seq<char>,
    pub end_time: Seq<char>,
    pub duration_secs: u64,
    pub task: Seq<char>,
    pub completed: bool,
    pub helping: bool,
    pub notes: Seq<char>,
}

impl View for WorkEntry {
    type V = WorkEntryView;

    open spec fn view(&self) -> WorkEntryView {
        WorkEntryView {
            date: self.date@,
            start_time: self.start_time@,
            end_time: self.end_time@,
            duration_secs: self.duration_secs,
            task: self.task@,
            completed: self.completed,
            helping: self.helping,
            notes: self.notes@,
        }
    }
}

impl WorkEntry {
    /// A copy of this entry.
    pub fn duplicate(&self) -> (r: WorkEntry)
        ensures
            r@ == self@,
    {
        WorkEntry {
            date: self.date.clone(),
            start_time: self.start_time.clone(),
            end_time: self.end_time.clone(),
            duration_secs: self.duration_secs,
            task: self.task.clone(),
            completed: self.completed,
            helping: self.helping,
            notes: self.notes.clone(),
        }
    }
}

/// `path` with a leading `~` (alone, or followed by `/`) replaced by `home`.
pub open spec fn expanded_path(path: Seq<char>, home: Seq<char>) -> Seq<char> {
    if path == seq!['~'] {
        home
    } else if path.len() >= 2 && path[0] == '~' && path[1] == '/' {
        home + seq!['/'] + path.skip(2)
    } else {
        path
    }
}

/// The directory typed on the onboarding screen with `~` standing for `home`.
pub fn expand_home(path: &str, home: &str) -> (r: String)
    ensures
        r@ == expanded_path(path@, home@),
{
    let v = chars_of(path);
    if v.len() == 1 && v[0] == '~' {
        assert(v@ =~= seq!['~']);
        return home.to_string();
    }
    if v.len() >= 2 && v[0] == '~' && v[1] == '/' {
        assert(v@.len() != 1);
        let mut s = home.to_string();
        push_char(&mut s, '/');
        let rest = skip_chars(v.as_slice(), 2);
        push_chars(&mut s, rest.as_slice());
        return s;
    }
    assert(v@ != seq!['~']) by {
        if v@ == seq!['~'] {
            assert(v@.len() == 1 && v@[0] == '~');
        }
    }
    path.to_string()
}

/// The settings to save for the directory typed on the onboarding screen: `cfg` with
/// that directory, `~` standing for `home`, as the log directory.
pub fn prepared_settings(cfg: &Config, typed: &str, home: &str) -> (r: Config)
    ensures
        r@ == (ConfigView { log_dir: expanded_path(typed@, home@), ..cfg@ }),
{
    let dir = expand_home(typed, home);
    cfg.with_log_dir(dir.as_str())
}

/// Where the logs are kept unless the user picks another directory.
pub fn default_log_dir() -> (r: String)
    ensures
        r@ == "/Users/alvisf/Documents/Notes/daily-logs"@,
{
    "/Users/alvisf/Documents/Notes/daily-logs".to_string()
}


/// `secs` as minutes and seconds, each zero-padded to two digits.
pub open spec fn mmss(secs: u64) -> Seq<char> {
    zero_pad(dec((secs / 60) as nat), 2) + seq![':'] + zero_pad(dec((secs % 60) as nat), 2)
}

/// `secs` as `MM:SS`.
pub fn format_mmss(secs: u64) -> (r: String)
    ensures
        r@ == mmss(secs),
{
    let mut s = String::new();
    push_dec_pad(&mut s, secs / 60, 2);
    push_char(&mut s, ':');
    push_dec_pad(&mut s, secs % 60, 2);
    s
}

/// `total_secs` as hours and minutes: `{h}h {mm}m`.
pub open spec fn hours_text(total_secs: u64) -> Seq<char> {
    dec((total_secs / 3600) as nat) + seq!['h', ' '] + zero_pad(dec(((total_secs % 3600) / 60) as nat), 2) + seq!['m']
}

/// `total_secs` as hours and minutes, e.g. `2h 35m`.
pub fn format_hours(total_secs: u64) -> (r: String)
    ensures
        r@ == hours_text(total_secs),
{
    let mut s = String::new();
    push_dec(&mut s, total_secs / 3600);
    push_char(&mut s, 'h');
    push_char(&mut s, ' ');
    push_dec_pad(&mut s, (total_secs % 3600) / 60, 2);
    push_char(&mut s, 'm');
    s
}


// ---------------------------------------------------------------------------
// Reading the work logs back into daily totals.
// ---------------------------------------------------------------------------

/// The bytes of a quarterly log's name: `YYYY-Qn` with `n` from 1 to 4.
pub open spec fn quarterly_stem(b: Seq<u8>) -> bool {
    b.len() == 7 && b[4] == 45 && b[5] == 81 && 49 <= b[6] <= 52
}

/// The bytes of a daily log's name (and of a date heading): ten bytes with `-` at
/// positions 4 and 7.
pub open spec fn daily_stem(b: Seq<u8>) -> bool {
    b.len() == 10 && b[4] == 45 && b[7] == 45
}

/// Whether `stem` names a quarterly log (`2026-Q2`).
pub fn is_quarterly_filename(stem: &str) -> (r: bool)
    ensures
        r == quarterly_stem(stem.spec_bytes()),
{
    let b = stem.as_bytes();
    b.len() == 7 && b[4] == 45u8 && b[5] == 81u8 && 49u8 <= b[6] && b[6] <= 52u8
}

/// Whether `stem` has the shape of a date (`2026-04-09`).
pub fn is_daily_filename(stem: &str) -> (r: bool)
    ensures
        r == daily_stem(stem.spec_bytes()),
{
    let b = stem.as_bytes();
    b.len() == 10 && b[4] == 45u8 && b[7] == 45u8
}

/// The text between the first `(` and the first `)` of an entry line, when the `(`
/// comes first.
pub open spec fn duration_field(l: Seq<char>) -> Option<Seq<char>> {
    match (find_char(l, '('), find_char(l, ')')) {
        (Some(a), Some(b)) => if a < b {
            Some(l.subrange(a as int + 1, b as int))
        } else {
            None
        },
        _ => None,
    }
}

/// The first `)` of the line comes before its first `(` (slicing between them panics).
pub open spec fn parens_misordered(l: Seq<char>) -> bool {
    match (find_char(l, '('), find_char(l, ')')) {
        (Some(a), Some(b)) => b < a,
        _ => false,
    }
}

/// Minutes and seconds of an entry line's `(MM:SS)` field, when it reads as two
/// unsigned numbers around the first `:`.
pub open spec fn entry_minutes_seconds(l: Seq<char>) -> Option<(nat, nat)> {
    match duration_field(l) {
        Some(f) => match find_char(f, ':') {
            Some(k) => match (parse_uint(f.take(k as int), u64::MAX as nat), parse_uint(f.skip(k as int + 1), u64::MAX as nat)) {
                (Some(m), Some(sec)) => Some((m, sec)),
                _ => None,
            },
            None => None,
        },
        None => None,
    }
}

/// The duration in seconds an entry line records.
pub open spec fn entry_duration(l: Seq<char>) -> Option<nat> {
    match entry_minutes_seconds(l) {
        Some((m, sec)) => Some(m * 60 + sec),
        None => None,
    }
}

/// Reading the duration of `l` does not panic: the parentheses are in order and the
/// seconds fit in a `u64`.
pub open spec fn entry_ok(l: Seq<char>) -> bool {
    &&& !parens_misordered(l)
    &&& (entry_duration(l) matches Some(d) ==> d <= u64::MAX)
}

/// The duration an entry line records, or `None` when reading it would panic
/// (misordered parentheses, or seconds beyond a `u64`).
fn entry_duration_checked(l: &[char]) -> (r: Option<Option<u64>>)
    ensures
        r is None <==> !entry_ok(l@),
        r matches Some(Some(d)) ==> entry_duration(l@) == Some(d as nat),
        r matches Some(None) ==> entry_duration(l@) is None,
{
    let a = match find_char_in(l, '(') {
        Some(a) => a,
        None => return Some(None),
    };
    let b = match find_char_in(l, ')') {
        Some(b) => b,
        None => return Some(None),
    };
    proof {
        lemma_count_before_len(l@, '(');
        lemma_count_before_len(l@, ')');
    }
    assert(a != b);
    if b < a {
        return None;
    }
    let field = slice_chars(l, a + 1, b);
    let k = match find_char_in(field.as_slice(), ':') {
        Some(k) => k,
        None => return Some(None),
    };
    let ms = slice_chars(field.as_slice(), 0, k);
    let ss = skip_chars(field.as_slice(), k + 1);
    assert(ms@ == field@.take(k as int));
    let m = match parse_uint_chars(ms.as_slice(), u64::MAX) {
        Some(m) => m,
        None => return Some(None),
    };
    let sec = match parse_uint_chars(ss.as_slice(), u64::MAX) {
        Some(x) => x,
        None => return Some(None),
    };
    let total: u128 = (m as u128) * 60 + (sec as u128);
    if total > u64::MAX as u128 {
        return None;
    }
    Some(Some(total as u64))
}

fn entry_duration_chars(l: &[char]) -> (r: Option<u64>)
    requires
        entry_ok(l@),
    ensures
        r matches Some(d) ==> entry_duration(l@) == Some(d as nat),
        r is None ==> entry_duration(l@) is None,
{
    match entry_duration_checked(l) {
        Some(o) => o,
        None => None,
    }
}

/// Seconds recorded by a log entry line (the part after `- `), read from its
/// `(MM:SS)` field; `None` when there is no such field.
pub fn parse_entry_duration(line: &str) -> (r: Option<u64>)
    requires
        entry_ok(line@),
    ensures
        r matches Some(d) ==> entry_duration(line@) == Some(d as nat),
        r is None ==> entry_duration(line@) is None,
{
    let v = chars_of(line);
    entry_duration_chars(v.as_slice())
}


/// The characters spell a date heading (see `daily_stem`).
pub open spec fn is_date(d: Seq<char>) -> bool {
    daily_stem(encode_utf8(d))
}

/// `d` with one more session of `secs` seconds, counted as helping or as work.
pub open spec fn bump(d: DayStats, secs: nat, helping: bool) -> DayStats {
    if helping {
        add_day(d, 0, secs as u64, 1)
    } else {
        add_day(d, secs as u64, 0, 1)
    }
}

/// `bump` does not overflow.
pub open spec fn bump_fits(d: DayStats, secs: nat, helping: bool) -> bool {
    &&& helping ==> d.helping_secs + secs <= u64::MAX
    &&& !helping ==> d.work_secs + secs <= u64::MAX
    &&& d.sessions + 1 <= u32::MAX
}

/// Daily totals, and the date the entries read so far belong to.
pub type QuarterState = (Seq<(Seq<char>, DayStats)>, Option<Seq<char>>);

/// One line of a quarterly log: a `## ` heading holding a date switches to that
/// date; a `- ` entry with a duration adds a session to the current date.
pub open spec fn quarterly_step(st: QuarterState, line: Seq<char>) -> QuarterState {
    if has_prefix(line, "## "@) {
        let d = trim(line.skip(3));
        if is_date(d) {
            (st.0, Some(d))
        } else {
            st
        }
    } else if has_prefix(line, "- "@) {
        let rest = line.skip(2);
        match (entry_duration(rest), st.1) {
            (Some(secs), Some(d)) => (upsert(st.0, d, bump(day_or_empty(st.0, d), secs, has_prefix(rest, "[h]"@))), st.1),
            _ => st,
        }
    } else {
        st
    }
}

/// Reading one quarterly log line does not panic.
pub open spec fn quarterly_step_ok(st: QuarterState, line: Seq<char>) -> bool {
    !has_prefix(line, "## "@) && has_prefix(line, "- "@) ==> {
        let rest = line.skip(2);
        &&& entry_ok(rest)
        &&& match (entry_duration(rest), st.1) {
            (Some(secs), Some(d)) => bump_fits(day_or_empty(st.0, d), secs, has_prefix(rest, "[h]"@)),
            _ => true,
        }
    }
}

/// The state after reading the lines `ls` of a quarterly log into `stats`.
pub open spec fn quarterly_fold(stats: Seq<(Seq<char>, DayStats)>, ls: Seq<Seq<char>>) -> QuarterState
    decreases ls.len(),
{
    if ls.len() == 0 {
        (stats, None)
    } else {
        quarterly_step(quarterly_fold(stats, ls.drop_last()), ls.last())
    }
}

/// Reading all of `ls` into `stats` does not panic.
pub open spec fn quarterly_ok(stats: Seq<(Seq<char>, DayStats)>, ls: Seq<Seq<char>>) -> bool {
    forall|i: int| 0 <= i < ls.len() ==> #[trigger] quarterly_step_ok(quarterly_fold(stats, ls.take(i)), ls[i])
}

/// The view of an optional string.
pub open spec fn opt_view(o: Option<String>) -> Option<Seq<char>> {
    match o {
        Some(s) => Some(s@),
        None => None,
    }
}

/// Adds the sessions of a quarterly log (`# title`, `## YYYY-MM-DD` headings, `- `
/// entries with an `(MM:SS)` duration; `[h]` entries count as helping) to `stats`.
pub fn parse_quarterly_file(contents: &str, stats: &mut DailyStats)
    requires
        quarterly_ok(old(stats)@, lines(contents@)),
    ensures
        final(stats)@ == quarterly_fold(old(stats)@, lines(contents@)).0,
{
    let v = chars_of(contents);
    let ls = split_lines(v.as_slice());
    let ghost lv = lines(contents@);
    let ghost s0 = stats@;
    let mut current: Option<String> = None;
    let mut i: usize = 0;
    proof {
        reveal_strlit("## ");
        reveal_strlit("- ");
    }
    assert(lv.take(0) == Seq::<Seq<char>>::empty());
    while i < ls.len()
        invariant
            i <= ls@.len(),
            views(ls@) == lv,
            quarterly_ok(s0, lv),
            (stats@, opt_view(current)) == quarterly_fold(s0, lv.take(i as int)),
        decreases ls@.len() - i,
    {
        let line = ls[i].as_slice();
        proof {
            reveal_strlit("## ");
            reveal_strlit("- ");
        }
        assert(lv[i as int] == line@);
        assert(lv.take(i + 1).drop_last() == lv.take(i as int));
        assert(quarterly_step_ok(quarterly_fold(s0, lv.take(i as int)), lv[i as int]));
        if starts_with(line, "## ") {
            let d = trim_chars(skip_chars(line, 3).as_slice());
            let ds = string_of(d.as_slice());
            if is_daily_filename(ds.as_str()) {
                current = Some(ds);
            }
        } else if starts_with(line, "- ") {
            let rest = skip_chars(line, 2);
            match entry_duration_chars(rest.as_slice()) {
                Some(secs) => {
                    match &current {
                        Some(d) => {
                            if starts_with(rest.as_slice(), "[h]") {
                                stats.add(d.as_str(), 0, secs, 1);
                            } else {
                                stats.add(d.as_str(), secs, 0, 1);
                            }
                        },
                        None => {},
                    }
                },
                None => {},
            }
        }
        i = i + 1;
    }
    assert(lv.take(i as int) == lv);
}

/// One line of a daily log: a `- ` entry with a duration adds a session.
pub open spec fn daily_step(d: DayStats, line: Seq<char>) -> DayStats {
    if has_prefix(line, "- "@) {
        let rest = line.skip(2);
        match entry_duration(rest) {
            Some(secs) => bump(d, secs, has_prefix(rest, "[h]"@)),
            None => d,
        }
    } else {
        d
    }
}

/// The totals of the lines `ls` of a daily log.
pub open spec fn daily_fold(ls: Seq<Seq<char>>) -> DayStats
    decreases ls.len(),
{
    if ls.len() == 0 {
        empty_day()
    } else {
        daily_step(daily_fold(ls.drop_last()), ls.last())
    }
}

/// Reading one daily log line does not panic.
pub open spec fn daily_step_ok(d: DayStats, line: Seq<char>) -> bool {
    has_prefix(line, "- "@) ==> {
        let rest = line.skip(2);
        &&& entry_ok(rest)
        &&& (entry_duration(rest) matches Some(secs) ==> bump_fits(d, secs, has_prefix(rest, "[h]"@)))
    }
}

/// Reading all of `ls` does not panic.
pub open spec fn daily_ok(ls: Seq<Seq<char>>) -> bool {
    forall|i: int| 0 <= i < ls.len() ==> #[trigger] daily_step_ok(daily_fold(ls.take(i)), ls[i])
}

/// Reads a daily log (`- ` entries with an `(MM:SS)` duration; `[h]` entries count as
/// helping); when it holds a session its totals become those of `date` in `stats`.
pub fn parse_daily_file(date: &str, contents: &str, stats: &mut DailyStats)
    requires
        daily_ok(lines(contents@)),
    ensures
        daily_fold(lines(contents@)).sessions > 0 ==> final(stats)@ == upsert(old(stats)@, date@, daily_fold(lines(contents@))),
        daily_fold(lines(contents@)).sessions == 0 ==> final(stats)@ == old(stats)@,
{
    let v = chars_of(contents);
    let ls = split_lines(v.as_slice());
    let ghost lv = lines(contents@);
    let mut day = DayStats { work_secs: 0, helping_secs: 0, sessions: 0 };
    let mut i: usize = 0;
    proof {
        reveal_strlit("- ");
    }
    assert(lv.take(0) == Seq::<Seq<char>>::empty());
    while i < ls.len()
        invariant
            i <= ls@.len(),
            views(ls@) == lv,
            daily_ok(lv),
            day == daily_fold(lv.take(i as int)),
        decreases ls@.len() - i,
    {
        let line = ls[i].as_slice();
        proof {
            reveal_strlit("## ");
            reveal_strlit("- ");
        }
        assert(lv[i as int] == line@);
        assert(lv.take(i + 1).drop_last() == lv.take(i as int));
        assert(daily_step_ok(daily_fold(lv.take(i as int)), lv[i as int]));
        if starts_with(line, "- ") {
            let rest = skip_chars(line, 2);
            match entry_duration_chars(rest.as_slice()) {
                Some(secs) => {
                    if starts_with(rest.as_slice(), "[h]") {
                        day.helping_secs = day.helping_secs + secs;
                    } else {
                        day.work_secs = day.work_secs + secs;
                    }
                    day.sessions = day.sessions + 1;
                },
                None => {},
            }
        }
        i = i + 1;
    }
    assert(lv.take(i as int) == lv);
    if day.sessions > 0 {
        stats.set(date, day);
    }
}

/// Reading the log file named `stem` does not panic.
pub open spec fn log_file_ok(stem: &str, contents: &str, stats: Seq<(Seq<char>, DayStats)>) -> bool {
    &&& quarterly_stem(stem.spec_bytes()) ==> quarterly_ok(stats, lines(contents@))
    &&& !quarterly_stem(stem.spec_bytes()) && daily_stem(stem.spec_bytes()) ==> daily_ok(lines(contents@))
}

/// Whether the sessions `secs` (helping or not) can be added to `d`.
fn bump_fits_exec(d: DayStats, secs: u64, helping: bool) -> (b: bool)
    ensures
        b == bump_fits(d, secs as nat, helping),
{
    let time_fits = if helping {
        secs <= u64::MAX - d.helping_secs
    } else {
        secs <= u64::MAX - d.work_secs
    };
    time_fits && d.sessions < u32::MAX
}

/// Whether reading a daily log does not panic.
fn daily_readable(contents: &str) -> (b: bool)
    ensures
        b == daily_ok(lines(contents@)),
{
    let v = chars_of(contents);
    let ls = split_lines(v.as_slice());
    let ghost lv = lines(contents@);
    let mut day = DayStats { work_secs: 0, helping_secs: 0, sessions: 0 };
    let mut i: usize = 0;
    assert(lv.take(0) == Seq::<Seq<char>>::empty());
    while i < ls.len()
        invariant
            i <= ls@.len(),
            views(ls@) == lv,
            lv == lines(contents@),
            day == daily_fold(lv.take(i as int)),
            forall|j: int| 0 <= j < i ==> #[trigger] daily_step_ok(daily_fold(lv.take(j)), lv[j]),
        decreases ls@.len() - i,
    {
        let line = ls[i].as_slice();
        proof {
            reveal_strlit("- ");
        }
        assert(lv[i as int] == line@);
        assert(lv.take(i + 1).drop_last() == lv.take(i as int));
        if starts_with(line, "- ") {
            let rest = skip_chars(line, 2);
            match entry_duration_checked(rest.as_slice()) {
                None => {
                    assert(!daily_step_ok(daily_fold(lv.take(i as int)), lv[i as int]));
                    assert(!daily_ok(lv));
                    return false;
                },
                Some(None) => {},
                Some(Some(secs)) => {
                    let h = starts_with(rest.as_slice(), "[h]");
                    if !bump_fits_exec(day, secs, h) {
                        assert(!daily_step_ok(daily_fold(lv.take(i as int)), lv[i as int]));
                        assert(!daily_ok(lv));
                        return false;
                    }
                    if h {
                        day.helping_secs = day.helping_secs + secs;
                    } else {
                        day.work_secs = day.work_secs + secs;
                    }
                    day.sessions = day.sessions + 1;
                },
            }
        }
        i = i + 1;
    }
    assert(lv.take(i as int) == lv);
    true
}

/// Whether reading a quarterly log into `stats` does not panic.
fn quarterly_readable(contents: &str, stats: &DailyStats) -> (b: bool)
    ensures
        b == quarterly_ok(stats@, lines(contents@)),
{
    let v = chars_of(contents);
    let ls = split_lines(v.as_slice());
    let ghost lv = lines(contents@);
    let ghost s0 = stats@;
    let mut scratch = stats.duplicate();
    let mut current: Option<String> = None;
    let mut i: usize = 0;
    assert(lv.take(0) == Seq::<Seq<char>>::empty());
    while i < ls.len()
        invariant
            i <= ls@.len(),
            views(ls@) == lv,
            lv == lines(contents@),
            s0 == stats@,
            (scratch@, opt_view(current)) == quarterly_fold(s0, lv.take(i as int)),
            forall|j: int| 0 <= j < i ==> #[trigger] quarterly_step_ok(quarterly_fold(s0, lv.take(j)), lv[j]),
        decreases ls@.len() - i,
    {
        let line = ls[i].as_slice();
        proof {
            reveal_strlit("## ");
            reveal_strlit("- ");
        }
        assert(lv[i as int] == line@);
        assert(lv.take(i + 1).drop_last() == lv.take(i as int));
        let ghost st = quarterly_fold(s0, lv.take(i as int));
        if starts_with(line, "## ") {
            let d = trim_chars(skip_chars(line, 3).as_slice());
            let ds = string_of(d.as_slice());
            if is_daily_filename(ds.as_str()) {
                current = Some(ds);
            }
        } else if starts_with(line, "- ") {
            let rest = skip_chars(line, 2);
            match entry_duration_checked(rest.as_slice()) {
                None => {
                    assert(!quarterly_step_ok(quarterly_fold(s0, lv.take(i as int)), lv[i as int]));
                    assert(!quarterly_ok(s0, lv));
                    return false;
                },
                Some(None) => {
                    assert(quarterly_step_ok(st, lv[i as int]));
                },
                Some(Some(secs)) => {
                    match &current {
                        Some(d) => {
                            let h = starts_with(rest.as_slice(), "[h]");
                            let cur = match scratch.get(d.as_str()) {
                                Some(x) => x,
                                None => DayStats { work_secs: 0, helping_secs: 0, sessions: 0 },
                            };
                            if !bump_fits_exec(cur, secs, h) {
                                assert(!quarterly_step_ok(quarterly_fold(s0, lv.take(i as int)), lv[i as int]));
                                assert(!quarterly_ok(s0, lv));
                                return false;
                            }
                            assert(quarterly_step_ok(st, lv[i as int]));
                            if h {
                                scratch.add(d.as_str(), 0, secs, 1);
                            } else {
                                scratch.add(d.as_str(), secs, 0, 1);
                            }
                        },
                        None => {
                            assert(quarterly_step_ok(st, lv[i as int]));
                        },
                    }
                },
            }
        }
        i = i + 1;
    }
    assert(lv.take(i as int) == lv);
    true
}

/// Whether `add_log_file` can read the log file named `stem` into `stats`: false when
/// an entry line has its `)` before its `(`, or when a total would overflow.
pub fn log_file_readable(stem: &str, contents: &str, stats: &DailyStats) -> (b: bool)
    ensures
        b == log_file_ok(stem, contents, stats@),
{
    if is_quarterly_filename(stem) {
        quarterly_readable(contents, stats)
    } else if is_daily_filename(stem) {
        daily_readable(contents)
    } else {
        true
    }
}

/// Adds a log file's sessions to `stats`: a quarterly log (`YYYY-Qn`) adds its
/// entries under their date headings, a daily log (`YYYY-MM-DD`) sets the totals of
/// its date; any other file is ignored.
pub fn add_log_file(stem: &str, contents: &str, stats: &mut DailyStats)
    requires
        log_file_ok(stem, contents, old(stats)@),
    ensures
        quarterly_stem(stem.spec_bytes()) ==> final(stats)@ == quarterly_fold(old(stats)@, lines(contents@)).0,
        !quarterly_stem(stem.spec_bytes()) && daily_stem(stem.spec_bytes()) ==> final(stats)@ == (if daily_fold(
            lines(contents@),
        ).sessions > 0 {
            upsert(old(stats)@, stem@, daily_fold(lines(contents@)))
        } else {
            old(stats)@
        }),
        !quarterly_stem(stem.spec_bytes()) && !daily_stem(stem.spec_bytes()) ==> final(stats)@ == old(stats)@,
{
    if is_quarterly_filename(stem) {
        parse_quarterly_file(contents, stats);
    } else if is_daily_filename(stem) {
        parse_daily_file(stem, contents, stats);
    }
}


// ---------------------------------------------------------------------------
// The todo list file: one `- [ ] text` or `- [x] text` line per entry.
// ---------------------------------------------------------------------------

/// The entry a todo file line holds, if it holds one.
pub open spec fn todo_line(l: Seq<char>) -> Option<TodoItemView> {
    if has_prefix(l, "- [x] "@) {
        Some(TodoItemView { text: l.skip(6), done: true })
    } else if has_prefix(l, "- [ ] "@) {
        Some(TodoItemView { text: l.skip(6), done: false })
    } else {
        None
    }
}

fn todo_line_chars(l: &[char]) -> (r: Option<TodoItem>)
    ensures
        r matches Some(t) ==> todo_line(l@) == Some(t@),
        r is None ==> todo_line(l@) is None,
{
    proof {
        reveal_strlit("- [x] ");
        reveal_strlit("- [ ] ");
    }
    if starts_with(l, "- [x] ") {
        let t = skip_chars(l, 6);
        Some(TodoItem { text: string_of(t.as_slice()), done: true })
    } else if starts_with(l, "- [ ] ") {
        let t = skip_chars(l, 6);
        Some(TodoItem { text: string_of(t.as_slice()), done: false })
    } else {
        None
    }
}

/// The entry a todo file line holds: `- [x] text` is done, `- [ ] text` is open.
pub fn parse_todo_line(line: &str) -> (r: Option<TodoItem>)
    ensures
        r matches Some(t) ==> todo_line(line@) == Some(t@),
        r is None ==> todo_line(line@) is None,
{
    let v = chars_of(line);
    todo_line_chars(v.as_slice())
}

/// The entries held by the lines `ls`, in order; other lines are skipped.
pub open spec fn todo_lines(ls: Seq<Seq<char>>) -> Seq<TodoItemView>
    decreases ls.len(),
{
    if ls.len() == 0 {
        seq![]
    } else {
        let rest = todo_lines(ls.drop_last());
        match todo_line(ls.last()) {
            Some(t) => rest.push(t),
            None => rest,
        }
    }
}

/// The todo list a file holds.
pub fn parse_todos(contents: &str) -> (r: Vec<TodoItem>)
    ensures
        todo_views(r@) == todo_lines(lines(contents@)),
{
    let v = chars_of(contents);
    let ls = split_lines(v.as_slice());
    let ghost lv = lines(contents@);
    let mut items: Vec<TodoItem> = Vec::new();
    let mut i: usize = 0;
    assert(lv.take(0) == Seq::<Seq<char>>::empty());
    assert(todo_views(items@) =~= Seq::empty());
    while i < ls.len()
        invariant
            i <= ls@.len(),
            views(ls@) == lv,
            todo_views(items@) == todo_lines(lv.take(i as int)),
        decreases ls@.len() - i,
    {
        assert(lv[i as int] == ls@[i as int]@);
        assert(lv.take(i + 1).drop_last() == lv.take(i as int));
        let ghost before = items@;
        match todo_line_chars(ls[i].as_slice()) {
            Some(t) => {
                items.push(t);
                assert(todo_views(items@) =~= todo_views(before).push(t@));
            },
            None => {},
        }
        i = i + 1;
    }
    assert(lv.take(i as int) == lv);
    items
}

/// The file line of one entry.
pub open spec fn todo_text_line(t: TodoItemView) -> Seq<char> {
    seq!['-', ' ', '['] + seq![if t.done { 'x' } else { ' ' }] + seq![']', ' '] + t.text + seq!['\n']
}

/// The todo file of a list.
pub open spec fn todos_text(items: Seq<TodoItemView>) -> Seq<char>
    decreases items.len(),
{
    if items.len() == 0 {
        seq![]
    } else {
        todos_text(items.drop_last()) + todo_text_line(items.last())
    }
}

/// The todo file of a list: `- [x] text` for a done entry, `- [ ] text` for an open
/// one, a line each.
pub fn render_todos(todos: &[TodoItem]) -> (r: String)
    ensures
        r@ == todos_text(todo_views(todos@)),
{
    let ghost tv = todo_views(todos@);
    let mut out = String::new();
    let mut i: usize = 0;
    assert(tv.take(0) == Seq::<TodoItemView>::empty());
    while i < todos.len()
        invariant
            i <= todos@.len(),
            tv == todo_views(todos@),
            out@ == todos_text(tv.take(i as int)),
        decreases todos@.len() - i,
    {
        let t = &todos[i];
        assert(tv.take(i + 1).drop_last() == tv.take(i as int));
        assert(tv.take(i + 1).last() == t@);
        push_char(&mut out, '-');
        push_char(&mut out, ' ');
        push_char(&mut out, '[');
        push_char(&mut out, if t.done { 'x' } else { ' ' });
        push_char(&mut out, ']');
        push_char(&mut out, ' ');
        out.append(t.text.as_str());
        push_char(&mut out, '\n');
        assert(out@ =~= todos_text(tv.take(i as int)) + todo_text_line(t@));
        i = i + 1;
    }
    assert(tv.take(i as int) == tv);
    out
}

// ---------------------------------------------------------------------------
// The settings file: `key=value` lines.
// ---------------------------------------------------------------------------

/// One settings line: `key=value` with a known key (both trimmed) and a value that
/// parses (a number, or a non-empty directory) sets that setting; anything else
/// changes nothing.
pub open spec fn config_step(cfg: ConfigView, line: Seq<char>) -> ConfigView {
    match find_char(line, '=') {
        Some(k) => {
            let key = trim(line.take(k as int));
            let val = trim(line.skip(k as int + 1));
            if key == "work_secs"@ {
                match parse_uint(val, u64::MAX as nat) {
                    Some(v) => ConfigView { work_secs: v as u64, ..cfg },
                    None => cfg,
                }
            } else if key == "break_secs"@ {
                match parse_uint(val, u64::MAX as nat) {
                    Some(v) => ConfigView { break_secs: v as u64, ..cfg },
                    None => cfg,
                }
            } else if key == "long_break_secs"@ {
                match parse_uint(val, u64::MAX as nat) {
                    Some(v) => ConfigView { long_break_secs: v as u64, ..cfg },
                    None => cfg,
                }
            } else if key == "sessions_before_long"@ {
                match parse_uint(val, u32::MAX as nat) {
                    Some(v) => ConfigView { sessions_before_long: v as u32, ..cfg },
                    None => cfg,
                }
            } else if key == "log_dir"@ {
                if val.len() > 0 {
                    ConfigView { log_dir: val, ..cfg }
                } else {
                    cfg
                }
            } else {
                cfg
            }
        },
        None => cfg,
    }
}

/// The settings after reading the lines `ls` over the defaults.
pub open spec fn config_lines(ls: Seq<Seq<char>>) -> ConfigView
    decreases ls.len(),
{
    if ls.len() == 0 {
        default_config()
    } else {
        config_step(config_lines(ls.drop_last()), ls.last())
    }
}

fn config_step_chars(cfg: Config, line: &[char]) -> (r: Config)
    ensures
        r@ == config_step(cfg@, line@),
{
    let k = match find_char_in(line, '=') {
        Some(k) => k,
        None => return cfg,
    };
    proof {
        lemma_count_before_len(line@, '=');
    }
    let n = line.len();
    assert(k < n);
    let key = trim_chars(slice_chars(line, 0, k).as_slice());
    let val = trim_chars(skip_chars(line, k + 1).as_slice());
    assert(line@.subrange(0, k as int) == line@.take(k as int));
    let ks = string_of(key.as_slice());
    let work = "work_secs".to_string();
    let brk = "break_secs".to_string();
    let long = "long_break_secs".to_string();
    let sess = "sessions_before_long".to_string();
    let dir = "log_dir".to_string();
    if ks == work {
        match parse_uint_chars(val.as_slice(), u64::MAX) {
            Some(v) => Config { work_secs: v, ..cfg },
            None => cfg,
        }
    } else if ks == brk {
        match parse_uint_chars(val.as_slice(), u64::MAX) {
            Some(v) => Config { break_secs: v, ..cfg },
            None => cfg,
        }
    } else if ks == long {
        match parse_uint_chars(val.as_slice(), u64::MAX) {
            Some(v) => Config { long_break_secs: v, ..cfg },
            None => cfg,
        }
    } else if ks == sess {
        match parse_uint_chars(val.as_slice(), u32::MAX as u64) {
            Some(v) => Config { sessions_before_long: v as u32, ..cfg },
            None => cfg,
        }
    } else if ks == dir {
        if val.len() > 0 {
            Config { log_dir: string_of(val.as_slice()), ..cfg }
        } else {
            cfg
        }
    } else {
        cfg
    }
}

/// The settings a settings file holds, over the defaults.
pub fn parse_config(contents: &str) -> (r: Config)
    ensures
        r@ == config_lines(lines(contents@)),
{
    let v = chars_of(contents);
    let ls = split_lines(v.as_slice());
    let ghost lv = lines(contents@);
    let mut cfg = Config::default();
    let mut i: usize = 0;
    assert(lv.take(0) == Seq::<Seq<char>>::empty());
    while i < ls.len()
        invariant
            i <= ls@.len(),
            views(ls@) == lv,
            cfg@ == config_lines(lv.take(i as int)),
        decreases ls@.len() - i,
    {
        assert(lv[i as int] == ls@[i as int]@);
        assert(lv.take(i + 1).drop_last() == lv.take(i as int));
        cfg = config_step_chars(cfg, ls[i].as_slice());
        i = i + 1;
    }
    assert(lv.take(i as int) == lv);
    cfg
}

/// One numeric settings line.
pub open spec fn config_line(key: Seq<char>, value: nat) -> Seq<char> {
    key + seq!['='] + dec(value)
}

/// The settings line of the log directory.
pub open spec fn config_dir_line(dir: Seq<char>) -> Seq<char> {
    "log_dir"@ + seq!['='] + dir
}

/// The four lengths of `cfg` as settings lines.
pub open spec fn config_numbers_text(cfg: ConfigView) -> Seq<char> {
    config_line("work_secs"@, cfg.work_secs as nat) + seq!['\n'] + config_line("break_secs"@, cfg.break_secs as nat)
        + seq!['\n'] + config_line("long_break_secs"@, cfg.long_break_secs as nat) + seq!['\n'] + config_line(
        "sessions_before_long"@,
        cfg.sessions_before_long as nat,
    ) + seq!['\n']
}

/// The settings file of `cfg`: the log directory, then the four lengths (which, coming
/// last, win over anything the directory's text might hold).
pub open spec fn config_text(cfg: ConfigView) -> Seq<char> {
    config_dir_line(cfg.log_dir) + seq!['\n'] + config_numbers_text(cfg)
}

fn push_config_line(s: &mut String, key: &str, value: u64)
    ensures
        final(s)@ == old(s)@ + config_line(key@, value as nat) + seq!['\n'],
{
    s.append(key);
    push_char(s, '=');
    push_dec(s, value);
    push_char(s, '\n');
    assert(final(s)@ =~= old(s)@ + config_line(key@, value as nat) + seq!['\n']);
}

/// The settings file of `cfg`: one `key=value` line per setting.
pub fn render_config(cfg: &Config) -> (r: String)
    ensures
        r@ == config_text(cfg@),
{
    let mut s = String::new();
    s.append("log_dir");
    push_char(&mut s, '=');
    s.append(cfg.log_dir.as_str());
    push_char(&mut s, '\n');
    push_config_line(&mut s, "work_secs", cfg.work_secs);
    push_config_line(&mut s, "break_secs", cfg.break_secs);
    push_config_line(&mut s, "long_break_secs", cfg.long_break_secs);
    push_config_line(&mut s, "sessions_before_long", cfg.sessions_before_long as u64);
    assert(s@ =~= config_text(cfg@));
    s
}

proof fn lemma_config_line(key: Seq<char>, n: nat, max: nat)
    requires
        key.len() > 0,
        forall|j: int| 0 <= j < key.len() ==> key[j] != '=' && key[j] != '\n' && !white_space(key[j]),
        n <= max,
    ensures
        find_char(config_line(key, n), '=') == Some(key.len()),
        trim(config_line(key, n).take(key.len() as int)) == key,
        trim(config_line(key, n).skip(key.len() as int + 1)) == dec(n),
        parse_uint(dec(n), max) == Some(n),
        forall|j: int| 0 <= j < config_line(key, n).len() ==> config_line(key, n)[j] != '\n',
        config_line(key, n).len() > 0 && config_line(key, n).last() != '\r',
{
    let line = config_line(key, n);
    lemma_dec_digits(n);
    assert forall|j: int| 0 <= j < key.len() implies line[j] != '=' by {
        assert(line[j] == key[j]);
    }
    lemma_count_before(line, '=', key.len());
    assert(line.take(key.len() as int) =~= key);
    assert(line.skip(key.len() as int + 1) =~= dec(n));
    lemma_trim_plain(key);
    assert(!white_space(dec(n)[0]));
    assert(!white_space(dec(n).last()));
    lemma_trim_plain(dec(n));
    lemma_parse_dec(n, 0, max);
    assert(zero_pad(dec(n), 0) == dec(n));
    assert forall|j: int| 0 <= j < line.len() implies line[j] != '\n' by {
        if j < key.len() {
            assert(line[j] == key[j]);
        } else if j > key.len() {
            assert(line[j] == dec(n)[j - key.len() - 1]);
        }
    }
    assert(line.last() == dec(n).last());
}

/// A log directory the settings file can hold: not empty, without surrounding white
/// space, and without a line break.
pub open spec fn log_dir_storable(dir: Seq<char>) -> bool {
    &&& dir.len() > 0
    &&& trim(dir) == dir
    &&& forall|j: int| 0 <= j < dir.len() ==> dir[j] != '\n'
}

proof fn lemma_config_keys()
    ensures
        "work_secs"@.len() == 9,
        "break_secs"@.len() == 10,
        "long_break_secs"@.len() == 15,
        "sessions_before_long"@.len() == 20,
        "log_dir"@.len() == 7,
        forall|j: int| 0 <= j < 9 ==> "work_secs"@[j] != '=' && "work_secs"@[j] != '\n' && !white_space(#[trigger] "work_secs"@[j]),
        forall|j: int| 0 <= j < 10 ==> "break_secs"@[j] != '=' && "break_secs"@[j] != '\n' && !white_space(#[trigger] "break_secs"@[j]),
        forall|j: int| 0 <= j < 15 ==> "long_break_secs"@[j] != '=' && "long_break_secs"@[j] != '\n' && !white_space(#[trigger] "long_break_secs"@[j]),
        forall|j: int| 0 <= j < 20 ==> "sessions_before_long"@[j] != '=' && "sessions_before_long"@[j] != '\n' && !white_space(#[trigger] "sessions_before_long"@[j]),
        forall|j: int| 0 <= j < 7 ==> "log_dir"@[j] != '=' && "log_dir"@[j] != '\n' && !white_space(#[trigger] "log_dir"@[j]),
{
    reveal_strlit("work_secs");
    reveal_strlit("break_secs");
    reveal_strlit("long_break_secs");
    reveal_strlit("sessions_before_long");
    reveal_strlit("log_dir");
}

proof fn lemma_config_dir_line(dir: Seq<char>)
    requires
        log_dir_storable(dir),
    ensures
        find_char(config_dir_line(dir), '=') == Some(7nat),
        trim(config_dir_line(dir).take(7)) == "log_dir"@,
        trim(config_dir_line(dir).skip(8)) == dir,
        forall|j: int| 0 <= j < config_dir_line(dir).len() ==> config_dir_line(dir)[j] != '\n',
        config_dir_line(dir).len() > 0 && config_dir_line(dir).last() != '\r',
{
    lemma_config_keys();
    let key = "log_dir"@;
    let line = config_dir_line(dir);
    assert forall|j: int| 0 <= j < 7 implies line[j] != '=' by {
        assert(line[j] == key[j]);
    }
    lemma_count_before(line, '=', 7);
    assert(line.take(7) =~= key);
    assert(line.skip(8) =~= dir);
    assert(!white_space(key[0]));
    assert(!white_space(key[6]));
    lemma_trim_plain(key);
    assert forall|j: int| 0 <= j < line.len() implies line[j] != '\n' by {
        if j < 7 {
            assert(line[j] == key[j]);
        } else if j > 7 {
            assert(line[j] == dir[j - 8]);
        }
    }
    lemma_trimmed_end(dir);
    assert(line.last() == dir.last());
}

proof fn lemma_config_step(c: ConfigView, key: Seq<char>, n: nat)
    requires
        key == "work_secs"@ || key == "break_secs"@ || key == "long_break_secs"@ || key == "sessions_before_long"@,
        key == "sessions_before_long"@ ==> n <= u32::MAX,
        n <= u64::MAX,
    ensures
        key == "work_secs"@ ==> config_step(c, config_line(key, n)) == (ConfigView { work_secs: n as u64, ..c }),
        key == "break_secs"@ ==> config_step(c, config_line(key, n)) == (ConfigView { break_secs: n as u64, ..c }),
        key == "long_break_secs"@ ==> config_step(c, config_line(key, n)) == (ConfigView { long_break_secs: n as u64, ..c }),
        key == "sessions_before_long"@ ==> config_step(c, config_line(key, n)) == (ConfigView { sessions_before_long: n as u32, ..c }),
{
    lemma_config_keys();
    lemma_config_line(key, n, if key == "sessions_before_long"@ { u32::MAX as nat } else { u64::MAX as nat });
}

proof fn lemma_config_dir_step(c: ConfigView, dir: Seq<char>)
    requires
        log_dir_storable(dir),
    ensures
        config_step(c, config_dir_line(dir)) == (ConfigView { log_dir: dir, ..c }),
{
    lemma_config_keys();
    lemma_config_dir_line(dir);
}

/// The settings after reading the lines `ls` on from `cfg`.
pub open spec fn config_from(cfg: ConfigView, ls: Seq<Seq<char>>) -> ConfigView
    decreases ls.len(),
{
    if ls.len() == 0 {
        cfg
    } else {
        config_step(config_from(cfg, ls.drop_last()), ls.last())
    }
}

proof fn lemma_config_concat(a: Seq<Seq<char>>, b: Seq<Seq<char>>)
    ensures
        config_lines(a + b) == config_from(config_lines(a), b),
    decreases b.len(),
{
    if b.len() == 0 {
        assert(a + b =~= a);
    } else {
        lemma_config_concat(a, b.drop_last());
        assert((a + b).drop_last() =~= a + b.drop_last());
        assert((a + b).last() == b.last());
    }
}

#[verifier::spinoff_prover]
#[verifier::rlimit(40)]
proof fn lemma_config_number_lines(cfg: ConfigView)
    ensures
        lines(config_numbers_text(cfg)) == seq![
            config_line("work_secs"@, cfg.work_secs as nat),
            config_line("break_secs"@, cfg.break_secs as nat),
            config_line("long_break_secs"@, cfg.long_break_secs as nat),
            config_line("sessions_before_long"@, cfg.sessions_before_long as nat),
        ],
{
    lemma_config_keys();
    let l1 = config_line("work_secs"@, cfg.work_secs as nat);
    let l2 = config_line("break_secs"@, cfg.break_secs as nat);
    let l3 = config_line("long_break_secs"@, cfg.long_break_secs as nat);
    let l4 = config_line("sessions_before_long"@, cfg.sessions_before_long as nat);
    lemma_config_line("work_secs"@, cfg.work_secs as nat, u64::MAX as nat);
    lemma_config_line("break_secs"@, cfg.break_secs as nat, u64::MAX as nat);
    lemma_config_line("long_break_secs"@, cfg.long_break_secs as nat, u64::MAX as nat);
    lemma_config_line("sessions_before_long"@, cfg.sessions_before_long as nat, u32::MAX as nat);
    let nl = seq!['\n'];
    let a = l1 + nl;
    let b = l2 + nl;
    let c = l3 + nl;
    let d = l4 + nl;
    assert(config_numbers_text(cfg) =~= a + (b + (c + d)));
    lemma_lines_single(l1);
    lemma_lines_single(l2);
    lemma_lines_single(l3);
    lemma_lines_single(l4);
    lemma_lines_concat(c, d);
    assert((c + d).last() == '\n');
    lemma_lines_concat(b, c + d);
    assert((b + (c + d)).last() == '\n');
    lemma_lines_concat(a, b + (c + d));
    assert(lines(config_numbers_text(cfg)) =~= seq![l1, l2, l3, l4]);
}

/// Reading the four length lines of `cfg` from any settings sets the four lengths
/// and keeps the log directory.
#[verifier::spinoff_prover]
proof fn lemma_config_numbers_apply(c: ConfigView, cfg: ConfigView)
    ensures
        config_from(c, lines(config_numbers_text(cfg))) == (ConfigView { log_dir: c.log_dir, ..cfg }),
{
    lemma_config_keys();
    lemma_config_number_lines(cfg);
    let l1 = config_line("work_secs"@, cfg.work_secs as nat);
    let l2 = config_line("break_secs"@, cfg.break_secs as nat);
    let l3 = config_line("long_break_secs"@, cfg.long_break_secs as nat);
    let l4 = config_line("sessions_before_long"@, cfg.sessions_before_long as nat);
    lemma_config_step(c, "work_secs"@, cfg.work_secs as nat);
    let c1 = ConfigView { work_secs: cfg.work_secs, ..c };
    lemma_config_step(c1, "break_secs"@, cfg.break_secs as nat);
    let c2 = ConfigView { break_secs: cfg.break_secs, ..c1 };
    lemma_config_step(c2, "long_break_secs"@, cfg.long_break_secs as nat);
    let c3 = ConfigView { long_break_secs: cfg.long_break_secs, ..c2 };
    lemma_config_step(c3, "sessions_before_long"@, cfg.sessions_before_long as nat);
    assert(seq![l1].drop_last() =~= Seq::<Seq<char>>::empty());
    assert(seq![l1, l2].drop_last() =~= seq![l1]);
    assert(seq![l1, l2, l3].drop_last() =~= seq![l1, l2]);
    assert(seq![l1, l2, l3, l4].drop_last() =~= seq![l1, l2, l3]);
    assert(config_from(c, Seq::<Seq<char>>::empty()) == c);
    assert(config_from(c, seq![l1]) == c1);
    assert(config_from(c, seq![l1, l2]) == c2);
    assert(config_from(c, seq![l1, l2, l3]) == c3);
}

/// Saving settings and reading the file back gives the four lengths back, whatever
/// the log directory's text; it gives the log directory back too when the directory
/// can be stored (not empty, no surrounding white space, no line break).
#[verifier::spinoff_prover]
pub proof fn law_config_round_trip(cfg: ConfigView)
    ensures
        config_lines(lines(config_text(cfg))).work_secs == cfg.work_secs,
        config_lines(lines(config_text(cfg))).break_secs == cfg.break_secs,
        config_lines(lines(config_text(cfg))).long_break_secs == cfg.long_break_secs,
        config_lines(lines(config_text(cfg))).sessions_before_long == cfg.sessions_before_long,
        log_dir_storable(cfg.log_dir) ==> config_lines(lines(config_text(cfg))) == cfg,
{
    let head = config_dir_line(cfg.log_dir) + seq!['\n'];
    assert(config_text(cfg) =~= head + config_numbers_text(cfg));
    lemma_lines_concat(head, config_numbers_text(cfg));
    lemma_config_concat(lines(head), lines(config_numbers_text(cfg)));
    lemma_config_numbers_apply(config_lines(lines(head)), cfg);
    if log_dir_storable(cfg.log_dir) {
        let l0 = config_dir_line(cfg.log_dir);
        lemma_config_dir_line(cfg.log_dir);
        lemma_lines_single(l0);
        assert(strip_cr(l0) == l0);
        assert(lines(head) == seq![l0]);
        assert(seq![l0].drop_last() =~= Seq::<Seq<char>>::empty());
        lemma_config_dir_step(default_config(), cfg.log_dir);
        assert(config_lines(Seq::<Seq<char>>::empty()) == default_config());
        assert(config_lines(seq![l0]) == ConfigView { log_dir: cfg.log_dir, ..default_config() });
    }
}

/// The todo file text of an entry can be read back: no line break in it, and no
/// carriage return at its end.
pub open spec fn todo_text_ok(t: Seq<char>) -> bool {
    &&& forall|j: int| 0 <= j < t.len() ==> t[j] != '\n'
    &&& !(t.len() > 0 && t.last() == '\r')
}

proof fn lemma_todos_text_ends(items: Seq<TodoItemView>)
    ensures
        todos_text(items).len() == 0 || todos_text(items).last() == '\n',
{
    if items.len() > 0 {
        let t = todos_text(items);
        assert(t.last() == todo_text_line(items.last()).last());
    }
}

/// Saving a todo list and reading the file back gives the same list, as long as no
/// entry's text holds a line break or ends with a carriage return.
pub proof fn law_todos_round_trip(items: Seq<TodoItemView>)
    requires
        forall|i: int| 0 <= i < items.len() ==> todo_text_ok(#[trigger] items[i].text),
    ensures
        todo_lines(lines(todos_text(items))) == items,
    decreases items.len(),
{
    reveal_strlit("- [x] ");
    reveal_strlit("- [ ] ");
    if items.len() == 0 {
        assert(lines(Seq::<char>::empty()) == Seq::<Seq<char>>::empty());
        assert(todo_lines(Seq::<Seq<char>>::empty()) == Seq::<TodoItemView>::empty());
        assert(items =~= Seq::<TodoItemView>::empty());
    } else {
        let init = items.drop_last();
        let t = items.last();
        assert forall|i: int| 0 <= i < init.len() implies todo_text_ok(#[trigger] init[i].text) by {
            assert(init[i] == items[i]);
        }
        law_todos_round_trip(init);
        assert(todo_text_ok(items[items.len() - 1].text));
        let x = todos_text(init);
        let body = seq!['-', ' ', '['] + seq![if t.done { 'x' } else { ' ' }] + seq![']', ' '] + t.text;
        assert(todo_text_line(t) =~= body + seq!['\n']);
        lemma_todos_text_ends(init);
        lemma_lines_concat(x, body + seq!['\n']);
        assert forall|j: int| 0 <= j < body.len() implies body[j] != '\n' by {
            if j >= 6 {
                assert(body[j] == t.text[j - 6]);
            }
        }
        lemma_lines_single(body);
        assert(body.last() != '\r') by {
            if t.text.len() > 0 {
                assert(body.last() == t.text.last());
            }
        }
        assert(strip_cr(body) == body);
        let ls = lines(todos_text(items));
        assert(todos_text(items) == x + (body + seq!['\n']));
        assert(ls =~= lines(x).push(body));
        assert(ls.drop_last() =~= lines(x));
        assert(body.skip(6) =~= t.text);
        if t.done {
            assert(body.take(6) =~= "- [x] "@);
        } else {
            assert(body.take(6)[3] == ' ');
            assert("- [x] "@[3] == 'x');
            assert(body.take(6) != "- [x] "@);
            assert(body.take(6) =~= "- [ ] "@);
        }
        assert(todo_line(body) == Some(t));
        assert(items =~= init.push(t));
    }
}


// ---------------------------------------------------------------------------
// Quarterly log names.
// ---------------------------------------------------------------------------

/// The quarter (1 to 4) of a month (1 to 12).
pub open spec fn quarter(month: nat) -> nat {
    ((month - 1) / 3 + 1) as nat
}

/// The quarter of `month`, counting months from 1.
pub fn quarter_for_month(month: u32) -> (r: u32)
    requires
        month >= 1,
    ensures
        r == quarter(month as nat),
{
    (month - 1) / 3 + 1
}

/// The date's bytes can be cut into year (bytes 0 to 4) and month (bytes 5 to 7).
pub open spec fn date_cuttable(b: Seq<u8>) -> bool {
    &&& is_char_boundary(b, 4)
    &&& is_char_boundary(b, 5)
    &&& is_char_boundary(b, 7)
}

/// The year field of a date: its first four bytes.
pub open spec fn year_field(b: Seq<u8>) -> Seq<char> {
    decode_utf8(b.subrange(0, 4))
}

/// The month of a date: bytes 5 to 7 read as a number, or 1 when they do not read as one.
pub open spec fn month_of(b: Seq<u8>) -> nat {
    match parse_uint(decode_utf8(b.subrange(5, 7)), u32::MAX as nat) {
        Some(m) => m,
        None => 1,
    }
}

/// Naming a quarterly log from `date` does not panic: a date of 7 bytes or more cuts
/// at bytes 4, 5 and 7, and its month is not 0.
pub open spec fn date_name_ok(b: Seq<u8>) -> bool {
    b.len() >= 7 ==> date_cuttable(b) && month_of(b) >= 1
}

/// The name of the quarterly log a date belongs to.
pub open spec fn quarterly_name(b: Seq<u8>) -> Seq<char> {
    if b.len() < 7 {
        "unknown-Q1.md"@
    } else {
        year_field(b) + seq!['-', 'Q'] + dec(quarter(month_of(b))) + seq!['.', 'm', 'd']
    }
}

/// The title of the quarterly log a date belongs to.
pub open spec fn quarterly_heading(b: Seq<u8>) -> Seq<char> {
    if b.len() < 7 {
        "Unknown Q1"@
    } else {
        year_field(b) + seq![' ', 'Q'] + dec(quarter(month_of(b)))
    }
}

fn date_parts(date: &str) -> (r: (&str, u32))
    requires
        date.spec_bytes().len() >= 7,
        date_cuttable(date.spec_bytes()),
    ensures
        r.0@ == year_field(date.spec_bytes()),
        r.1 == month_of(date.spec_bytes()),
{
    let ghost b = date.spec_bytes();
    proof {
        encode_utf8_valid_utf8(date@);
    }
    let (head, _tail) = date.split_at(7);
    let ghost hb = head.spec_bytes();
    proof {
        encode_utf8_valid_utf8(head@);
        is_char_boundary_iff_not_is_continuation_byte(b, 4);
        is_char_boundary_iff_not_is_continuation_byte(hb, 4);
        assert(hb[4] == b[4]);
    }
    let (year, rest) = head.split_at(4);
    let ghost rb = rest.spec_bytes();
    proof {
        encode_utf8_valid_utf8(rest@);
        is_char_boundary_iff_not_is_continuation_byte(b, 5);
        is_char_boundary_iff_not_is_continuation_byte(rb, 1);
        assert(rb[1] == b[5]);
    }
    let (_dash, month) = rest.split_at(1);
    proof {
        encode_utf8_decode_utf8(year@);
        encode_utf8_decode_utf8(month@);
        assert(year.spec_bytes() =~= b.subrange(0, 4));
        assert(month.spec_bytes() =~= b.subrange(5, 7));
    }
    let mc = chars_of(month);
    let m: u32 = match parse_uint_chars(mc.as_slice(), u32::MAX as u64) {
        Some(v) => v as u32,
        None => 1,
    };
    (year, m)
}

/// Whether `quarterly_filename` and `quarterly_title` can name the log of `date`: a
/// date of 7 bytes or more must cut at bytes 4, 5 and 7, and its month must not be 0.
pub fn date_name_usable(date: &str) -> (b: bool)
    ensures
        b == date_name_ok(date.spec_bytes()),
{
    if date.as_bytes().len() < 7 {
        return true;
    }
    if !(date.is_char_boundary(4) && date.is_char_boundary(5) && date.is_char_boundary(7)) {
        return false;
    }
    let (_year, month) = date_parts(date);
    month >= 1
}

/// The name of the quarterly log a date (`YYYY-MM-DD`) belongs to, e.g. `2026-Q2.md`;
/// `unknown-Q1.md` for a date shorter than 7 bytes.
pub fn quarterly_filename(date: &str) -> (r: String)
    requires
        date_name_ok(date.spec_bytes()),
    ensures
        r@ == quarterly_name(date.spec_bytes()),
{
    let b = date.as_bytes();
    if b.len() < 7 {
        return "unknown-Q1.md".to_string();
    }
    let (year, month) = date_parts(date);
    let mut s = year.to_string();
    push_char(&mut s, '-');
    push_char(&mut s, 'Q');
    push_dec(&mut s, quarter_for_month(month) as u64);
    push_char(&mut s, '.');
    push_char(&mut s, 'm');
    push_char(&mut s, 'd');
    assert(s@ =~= quarterly_name(date.spec_bytes()));
    s
}

/// The title of the quarterly log a date belongs to, e.g. `2026 Q2`; `Unknown Q1` for
/// a date shorter than 7 bytes.
pub fn quarterly_title(date: &str) -> (r: String)
    requires
        date_name_ok(date.spec_bytes()),
    ensures
        r@ == quarterly_heading(date.spec_bytes()),
{
    let b = date.as_bytes();
    if b.len() < 7 {
        return "Unknown Q1".to_string();
    }
    let (year, month) = date_parts(date);
    let mut s = year.to_string();
    push_char(&mut s, ' ');
    push_char(&mut s, 'Q');
    push_dec(&mut s, quarter_for_month(month) as u64);
    assert(s@ =~= quarterly_heading(date.spec_bytes()));
    s
}


// ---------------------------------------------------------------------------
// Writing work entries to the quarterly log.
// ---------------------------------------------------------------------------

/// The checkbox of an entry: `[h]` helping, `[x]` completed, `[ ]` otherwise.
pub open spec fn entry_mark(e: WorkEntryView) -> Seq<char> {
    if e.helping {
        seq!['[', 'h', ']']
    } else if e.completed {
        seq!['[', 'x', ']']
    } else {
        seq!['[', ' ', ']']
    }
}

/// An entry line after its `- `: mark, times, `(MM:SS)` duration and the task if any.
pub open spec fn entry_body(e: WorkEntryView) -> Seq<char> {
    entry_mark(e) + seq![' '] + e.start_time + seq![' ', '–', ' '] + e.end_time + seq![' ', '('] + mmss(e.duration_secs)
        + seq![')'] + if e.task.len() == 0 {
        Seq::<char>::empty()
    } else {
        seq![' '] + e.task
    }
}

/// The lines of an entry: the entry line, then the notes quoted when there are any.
pub open spec fn entry_text(e: WorkEntryView) -> Seq<char> {
    seq!['-', ' '] + entry_body(e) + seq!['\n'] + if e.notes.len() > 0 {
        seq![' ', ' ', '>', ' '] + e.notes + seq!['\n']
    } else {
        Seq::<char>::empty()
    }
}

/// The heading of a date in a quarterly log.
pub open spec fn date_heading(date: Seq<char>) -> Seq<char> {
    seq!['#', '#', ' '] + date
}

/// The text appended to a quarterly log for an entry: the log's title when the file is
/// new, the date's heading when the file does not hold it yet, then the entry.
pub open spec fn work_entry_text(e: WorkEntryView, is_new: bool, existing: Seq<char>) -> Seq<char> {
    (if is_new {
        seq!['#', ' '] + quarterly_heading(encode_utf8(e.date)) + seq!['\n', '\n']
    } else {
        Seq::<char>::empty()
    }) + (if is_new || !contains(existing, date_heading(e.date)) {
        seq!['\n'] + date_heading(e.date) + seq!['\n', '\n']
    } else {
        Seq::<char>::empty()
    }) + entry_text(e)
}

/// An entry line up to its end time.
pub open spec fn entry_head(e: WorkEntryView) -> Seq<char> {
    entry_mark(e) + seq![' '] + e.start_time + seq![' ', '–', ' '] + e.end_time
}

/// An entry line from its duration on.
pub open spec fn entry_tail(e: WorkEntryView) -> Seq<char> {
    seq![' ', '('] + mmss(e.duration_secs) + seq![')'] + if e.task.len() == 0 {
        Seq::<char>::empty()
    } else {
        seq![' '] + e.task
    }
}

fn render_entry_head(entry: &WorkEntry) -> (r: String)
    ensures
        r@ == entry_head(entry@),
{
    let mut s = String::new();
    push_char(&mut s, '[');
    push_char(&mut s, if entry.helping { 'h' } else if entry.completed { 'x' } else { ' ' });
    push_char(&mut s, ']');
    push_char(&mut s, ' ');
    assert(s@ =~= entry_mark(entry@) + seq![' ']);
    s.append(entry.start_time.as_str());
    let ghost g = s@;
    push_char(&mut s, ' ');
    push_char(&mut s, '–');
    push_char(&mut s, ' ');
    assert(s@ =~= g + seq![' ', '–', ' ']);
    s.append(entry.end_time.as_str());
    s
}

fn render_entry_tail(entry: &WorkEntry) -> (r: String)
    ensures
        r@ == entry_tail(entry@),
{
    let mut s = String::new();
    push_char(&mut s, ' ');
    push_char(&mut s, '(');
    let d = format_mmss(entry.duration_secs);
    s.append(d.as_str());
    push_char(&mut s, ')');
    let ghost g = s@;
    if !entry.task.as_str().is_empty() {
        push_char(&mut s, ' ');
        s.append(entry.task.as_str());
        assert(s@ =~= g + (seq![' '] + entry@.task));
    } else {
        assert(s@ =~= g + Seq::<char>::empty());
    }
    s
}

fn render_entry_text(entry: &WorkEntry) -> (r: String)
    ensures
        r@ == entry_text(entry@),
{
    let mut s = String::new();
    push_char(&mut s, '-');
    push_char(&mut s, ' ');
    let h = render_entry_head(entry);
    s.append(h.as_str());
    let t = render_entry_tail(entry);
    s.append(t.as_str());
    assert(entry_body(entry@) =~= entry_head(entry@) + entry_tail(entry@));
    assert(s@ =~= seq!['-', ' '] + entry_body(entry@));
    push_char(&mut s, '\n');
    let ghost before_notes = s@;
    if !entry.notes.as_str().is_empty() {
        push_char(&mut s, ' ');
        push_char(&mut s, ' ');
        push_char(&mut s, '>');
        push_char(&mut s, ' ');
        s.append(entry.notes.as_str());
        push_char(&mut s, '\n');
        assert(s@ =~= before_notes + (seq![' ', ' ', '>', ' '] + entry@.notes + seq!['\n']));
    } else {
        assert(s@ =~= before_notes + Seq::<char>::empty());
    }
    s
}

/// The text to append to the quarterly log `existing` (empty and `is_new` for a file
/// that does not exist yet) to record `entry`.
pub fn render_work_entry(entry: &WorkEntry, is_new: bool, existing: &str) -> (r: String)
    requires
        is_new ==> date_name_ok(encode_utf8(entry.date@)),
    ensures
        r@ == work_entry_text(entry@, is_new, existing@),
{
    let mut s = String::new();
    if is_new {
        push_char(&mut s, '#');
        push_char(&mut s, ' ');
        let title = quarterly_title(entry.date.as_str());
        s.append(title.as_str());
        push_char(&mut s, '\n');
        push_char(&mut s, '\n');
    }
    let ghost part1 = s@;
    assert(part1 =~= if is_new {
        seq!['#', ' '] + quarterly_heading(encode_utf8(entry@.date)) + seq!['\n', '\n']
    } else {
        Seq::<char>::empty()
    });
    let mut heading = String::new();
    push_char(&mut heading, '#');
    push_char(&mut heading, '#');
    push_char(&mut heading, ' ');
    heading.append(entry.date.as_str());
    assert(heading@ =~= date_heading(entry@.date));
    let needs_heading = if is_new {
        true
    } else {
        let ex = chars_of(existing);
        let hc = chars_of(heading.as_str());
        !contains_chars(ex.as_slice(), hc.as_slice())
    };
    if needs_heading {
        push_char(&mut s, '\n');
        s.append(heading.as_str());
        push_char(&mut s, '\n');
        push_char(&mut s, '\n');
        assert(s@ =~= part1 + (seq!['\n'] + date_heading(entry@.date) + seq!['\n', '\n']));
    } else {
        assert(s@ =~= part1 + Seq::<char>::empty());
    }
    let ghost part2 = s@;
    let t = render_entry_text(entry);
    s.append(t.as_str());
    assert(s@ =~= work_entry_text(entry@, is_new, existing@));
    s
}


/// Entry times hold no parenthesis (the 12-hour clock texts never do).
pub open spec fn times_plain(e: WorkEntryView) -> bool {
    &&& forall|j: int| 0 <= j < e.start_time.len() ==> e.start_time[j] != '(' && e.start_time[j] != ')'
    &&& forall|j: int| 0 <= j < e.end_time.len() ==> e.end_time[j] != '(' && e.end_time[j] != ')'
}

proof fn lemma_head_plain(e: WorkEntryView)
    requires
        times_plain(e),
    ensures
        forall|j: int| 0 <= j < entry_head(e).len() + 1 ==> (entry_head(e) + seq![' '])[j] != '(' && (entry_head(e) + seq![' '])[j] != ')',
{
    let m = entry_mark(e);
    let h = entry_head(e);
    let p = h + seq![' '];
    let a = m.len() + 1;
    let b = a + e.start_time.len();
    let c = b + 3;
    assert forall|j: int| 0 <= j < p.len() implies p[j] != '(' && p[j] != ')' by {
        if j < 3 {
            assert(p[j] == m[j]);
        } else if j < a {
        } else if j < b {
            assert(p[j] == e.start_time[j - a]);
        } else if j < c {
        } else if j < c + e.end_time.len() {
            assert(p[j] == e.end_time[j - c]);
        }
    }
}

proof fn lemma_mmss_reads_back(d: u64)
    ensures
        forall|j: int| 0 <= j < mmss(d).len() ==> mmss(d)[j] != '(' && mmss(d)[j] != ')',
        find_char(mmss(d), ':') == Some(zero_pad(dec((d / 60) as nat), 2).len()),
        parse_uint(mmss(d).take(zero_pad(dec((d / 60) as nat), 2).len() as int), u64::MAX as nat) == Some((d / 60) as nat),
        parse_uint(mmss(d).skip(zero_pad(dec((d / 60) as nat), 2).len() as int + 1), u64::MAX as nat) == Some(
            (d % 60) as nat,
        ),
{
    let m = (d / 60) as nat;
    let sec = (d % 60) as nat;
    let zm = zero_pad(dec(m), 2);
    let zs = zero_pad(dec(sec), 2);
    let t = mmss(d);
    lemma_zero_pad_digits(m, 2);
    lemma_zero_pad_digits(sec, 2);
    assert forall|j: int| 0 <= j < t.len() implies t[j] != '(' && t[j] != ')' by {
        if j < zm.len() {
            assert(t[j] == zm[j]);
            assert(is_digit(zm[j]));
        } else if j > zm.len() {
            assert(t[j] == zs[j - zm.len() - 1]);
            assert(is_digit(zs[j - zm.len() - 1]));
        }
    }
    assert forall|j: int| 0 <= j < zm.len() implies t[j] != ':' by {
        assert(t[j] == zm[j]);
        assert(is_digit(zm[j]));
    }
    lemma_count_before(t, ':', zm.len());
    assert(t.take(zm.len() as int) =~= zm);
    assert(t.skip(zm.len() as int + 1) =~= zs);
    lemma_parse_dec(m, 2, u64::MAX as nat);
    lemma_parse_dec(sec, 2, u64::MAX as nat);
}

proof fn lemma_mark_prefix(e: WorkEntryView, rest: Seq<char>)
    ensures
        has_prefix(entry_mark(e) + rest, "[h]"@) == e.helping,
{
    reveal_strlit("[h]");
    let body = entry_mark(e) + rest;
    assert(body.take(3) =~= entry_mark(e));
    if !e.helping {
        assert(body.take(3)[1] != 'h');
        assert("[h]"@[1] == 'h');
    } else {
        assert(entry_mark(e) =~= "[h]"@);
    }
}

/// An entry line's text up to the end of its duration: mark, times and `(MM:SS)`.
pub open spec fn entry_lead(e: WorkEntryView) -> Seq<char> {
    entry_head(e) + seq![' ', '('] + mmss(e.duration_secs) + seq![')']
}

/// Whatever follows its duration, an entry line reads back its duration, and whether
/// it was time spent helping.
pub proof fn lemma_lead_reads_back(e: WorkEntryView, r: Seq<char>)
    requires
        times_plain(e),
    ensures
        entry_ok(entry_lead(e) + r),
        entry_duration(entry_lead(e) + r) == Some(e.duration_secs as nat),
        has_prefix(entry_lead(e) + r, "[h]"@) == e.helping,
{
    lemma_head_plain(e);
    lemma_mmss_reads_back(e.duration_secs);
    let p = entry_head(e) + seq![' '];
    let t = mmss(e.duration_secs);
    let body = entry_lead(e) + r;
    assert(body =~= p + seq!['('] + t + seq![')'] + r);
    assert(body =~= entry_mark(e) + body.skip(3));
    lemma_mark_prefix(e, body.skip(3));
    let a = p.len();
    let b = a + 1 + t.len();
    assert forall|j: int| 0 <= j < a implies body[j] != '(' by {
        assert(body[j] == p[j]);
    }
    assert(body[a as int] == '(');
    lemma_count_before(body, '(', a);
    assert forall|j: int| 0 <= j < b implies body[j] != ')' by {
        if j < a {
            assert(body[j] == p[j]);
        } else if j > a {
            assert(body[j] == t[j - a - 1]);
        }
    }
    assert(body[b as int] == ')');
    lemma_count_before(body, ')', b);
    assert(body.subrange(a as int + 1, b as int) =~= t);
    assert(duration_field(body) == Some(t));
    let m = (e.duration_secs / 60) as nat;
    let sec = (e.duration_secs % 60) as nat;
    assert(entry_minutes_seconds(body) == Some((m, sec)));
    assert(m * 60 + sec == e.duration_secs);
}

/// Reading back a line that starts with `- ` and a written entry's text up to its
/// duration, whatever follows, adds a session of that duration to the date being read
/// (as helping when it was helping); a daily log counts it the same way.
pub proof fn lemma_lead_line_counts(st: QuarterState, day: DayStats, e: WorkEntryView, r: Seq<char>)
    requires
        times_plain(e),
    ensures
        quarterly_step(st, seq!['-', ' '] + entry_lead(e) + r) == (match st.1 {
            Some(d) => (upsert(st.0, d, bump(day_or_empty(st.0, d), e.duration_secs as nat, e.helping)), st.1),
            None => st,
        }),
        daily_step(day, seq!['-', ' '] + entry_lead(e) + r) == bump(day, e.duration_secs as nat, e.helping),
{
    reveal_strlit("## ");
    reveal_strlit("- ");
    lemma_lead_reads_back(e, r);
    let line = seq!['-', ' '] + entry_lead(e) + r;
    assert(line.take(2) =~= "- "@);
    assert(line[0] != "## "@[0]);
    assert(line.take(3) != "## "@);
    assert(line.skip(2) =~= entry_lead(e) + r);
}

/// Reading back a date heading makes that date the one entries are counted for.
pub proof fn lemma_heading_sets_date(st: QuarterState, date: Seq<char>)
    requires
        is_date(date),
        trim(date) == date,
    ensures
        quarterly_step(st, date_heading(date)) == (st.0, Some(date)),
{
    reveal_strlit("## ");
    let h = date_heading(date);
    assert(h.take(3) =~= "## "@);
    assert(h.skip(3) =~= date);
}


// ---------------------------------------------------------------------------
// Wall-clock texts.
// ---------------------------------------------------------------------------

/// Seconds in a day.
pub const SECONDS_PER_DAY: i64 = 86400;

/// The time `offset_days` days from `now` (both in seconds since the epoch), or `None`
/// when it does not fit in an `i64`.
pub fn day_offset_secs(now: i64, offset_days: i64) -> (r: Option<i64>)
    ensures
        i64::MIN <= now + offset_days * 86400 <= i64::MAX ==> r == Some((now + offset_days * 86400) as i64),
        !(i64::MIN <= now + offset_days * 86400 <= i64::MAX) ==> r is None,
{
    let d: i128 = offset_days as i128 * 86400;
    let t: i128 = now as i128 + d;
    if t < i64::MIN as i128 || t > i64::MAX as i128 {
        None
    } else {
        Some(t as i64)
    }
}

/// The fields of a broken-down local time that the timer shows, as `libc::tm` holds
/// them: years since 1900, months from 0, day of the month, hour and minute.
#[derive(Debug, Clone, Copy, PartialEq, Eq)]
pub struct LocalTm {
    pub tm_year: i32,
    pub tm_mon: i32,
    pub tm_mday: i32,
    pub tm_hour: i32,
    pub tm_min: i32,
}

/// `HH:MM`, or `??:??` when the local time is unknown.
pub open spec fn time_hm_text(tm: Option<LocalTm>) -> Seq<char> {
    match tm {
        Some(t) => signed_pad(t.tm_hour as int, 2) + seq![':'] + signed_pad(t.tm_min as int, 2),
        None => "??:??"@,
    }
}

/// The local time of day as `HH:MM` (`??:??` when unknown).
pub fn local_time_str(tm: Option<LocalTm>) -> (r: String)
    ensures
        r@ == time_hm_text(tm),
{
    match tm {
        Some(t) => {
            let mut s = String::new();
            push_signed_pad(&mut s, t.tm_hour as i64, 2);
            push_char(&mut s, ':');
            push_signed_pad(&mut s, t.tm_min as i64, 2);
            s
        },
        None => "??:??".to_string(),
    }
}

/// The hour on a 12-hour clock: 0 is 12, afternoon hours lose 12.
pub open spec fn hour12(h: int) -> int {
    if h == 0 {
        12
    } else if h > 12 {
        h - 12
    } else {
        h
    }
}

/// `H:MM AM` or `H:MM PM`, or `??:?? ??` when the local time is unknown.
pub open spec fn time_12h_text(tm: Option<LocalTm>) -> Seq<char> {
    match tm {
        Some(t) => signed_pad(hour12(t.tm_hour as int), 0) + seq![':'] + signed_pad(t.tm_min as int, 2) + seq![' ']
            + if t.tm_hour < 12 {
            seq!['A', 'M']
        } else {
            seq!['P', 'M']
        },
        None => "??:?? ??"@,
    }
}

/// The local time of day on a 12-hour clock, e.g. `9:05 AM` (`??:?? ??` when unknown).
pub fn local_time_12h(tm: Option<LocalTm>) -> (r: String)
    ensures
        r@ == time_12h_text(tm),
{
    match tm {
        Some(t) => {
            let hour = t.tm_hour;
            let h12: i32 = if hour == 0 { 12 } else if hour > 12 { hour - 12 } else { hour };
            let mut s = String::new();
            push_signed_pad(&mut s, h12 as i64, 0);
            push_char(&mut s, ':');
            push_signed_pad(&mut s, t.tm_min as i64, 2);
            push_char(&mut s, ' ');
            if hour < 12 {
                push_char(&mut s, 'A');
            } else {
                push_char(&mut s, 'P');
            }
            push_char(&mut s, 'M');
            assert(s@ =~= time_12h_text(tm));
            s
        },
        None => "??:?? ??".to_string(),
    }
}

/// `YYYY-MM-DD`, or `????-??-??` when the local date is unknown.
pub open spec fn date_text(tm: Option<LocalTm>) -> Seq<char> {
    match tm {
        Some(t) => signed_pad(t.tm_year + 1900, 4) + seq!['-'] + signed_pad(t.tm_mon + 1, 2) + seq!['-'] + signed_pad(
            t.tm_mday as int,
            2,
        ),
        None => "????-??-??"@,
    }
}

/// The local date as `YYYY-MM-DD` (`????-??-??` when unknown).
pub fn local_date_str(tm: Option<LocalTm>) -> (r: String)
    requires
        tm matches Some(t) ==> t.tm_year + 1900 <= i32::MAX && t.tm_mon + 1 <= i32::MAX,
    ensures
        r@ == date_text(tm),
{
    match tm {
        Some(t) => {
            let mut s = String::new();
            push_signed_pad(&mut s, (t.tm_year + 1900) as i64, 4);
            push_char(&mut s, '-');
            push_signed_pad(&mut s, (t.tm_mon + 1) as i64, 2);
            push_char(&mut s, '-');
            push_signed_pad(&mut s, t.tm_mday as i64, 2);
            s
        },
        None => "????-??-??".to_string(),
    }
}

} // verus!
