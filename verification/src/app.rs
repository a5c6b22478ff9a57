use vstd::prelude::*;

use crate::stats::{add_day, day_or_empty, upsert, DailyStats, DayStats};
use crate::store::{self, todo_views, Config, ConfigView, TodoItem, TodoItemView, WorkEntry, WorkEntryView};
use crate::text::{dec, push_char, push_dec, trim, trim_string};

verus! {

/// Seconds in a minute.
pub const SECONDS_PER_MINUTE: u64 = 60;
/// Shortest work phase that can be configured.
pub const MIN_WORK_SECS: u64 = 60;
/// Longest work phase that can be configured.
pub const MAX_WORK_SECS: u64 = 7200;
/// Shortest break that can be configured.
pub const MIN_BREAK_SECS: u64 = 60;
/// Longest break that can be configured.
pub const MAX_BREAK_SECS: u64 = 3600;
/// Most work sessions per cycle before a long break.
pub const MAX_SESSIONS: u32 = 10;
/// Seconds a distraction takes off the work timer.
pub const DISTRACTION_SECS: u64 = 300;
/// Seconds `shorten_work` takes off the current work phase.
pub const WRAP_UP_SECS: u64 = 300;
/// A gap between two ticks at least this long (in milliseconds) means the machine slept.
pub const SLEEP_THRESHOLD_MS: u64 = 30000;

/// Which screen is shown.
#[derive(Debug, Clone, Copy, PartialEq, Eq, Structural)]
pub enum Screen {
    Onboarding,
    Setup,
    TaskInput,
    TodoList,
    NotesInput,
    Timer,
    DailyLog,
}

/// The kind of the current timer phase.
#[derive(Debug, Clone, Copy, PartialEq, Eq, Structural)]
pub enum Phase {
    Work,
    Break,
    LongBreak,
}

impl Phase {
    /// The emoji shown for the phase.
    pub fn icon(self) -> (r: &'static str)
        ensures
            r@ == phase_icon(self),
    {
        match self {
            Phase::Work => "🍅",
            Phase::Break => "☕",
            Phase::LongBreak => "🌴",
        }
    }

    /// The phase's name in capitals.
    pub fn label(self) -> (r: &'static str)
        ensures
            r@ == phase_label(self),
    {
        match self {
            Phase::Work => "WORK",
            Phase::Break => "BREAK",
            Phase::LongBreak => "LONG BREAK",
        }
    }

    /// Icon and label separated by a space, as the phase is shown to the user.
    pub fn display_text(self) -> (r: String)
        ensures
            r@ == phase_icon(self) + seq![' '] + phase_label(self),
    {
        let mut s = self.icon().to_string();
        push_char(&mut s, ' ');
        s.append(self.label());
        s
    }
}

/// The emoji of a phase.
pub open spec fn phase_icon(p: Phase) -> Seq<char> {
    match p {
        Phase::Work => "🍅"@,
        Phase::Break => "☕"@,
        Phase::LongBreak => "🌴"@,
    }
}

/// The name of a phase.
pub open spec fn phase_label(p: Phase) -> Seq<char> {
    match p {
        Phase::Work => "WORK"@,
        Phase::Break => "BREAK"@,
        Phase::LongBreak => "LONG BREAK"@,
    }
}

/// How a phase ended.
#[derive(Debug, Clone, Copy, PartialEq, Eq, Structural)]
pub enum Outcome {
    Completed,
    Skipped,
    Helping,
}

/// What the todo list is doing with keyboard input.
#[derive(Debug, Clone, Copy, PartialEq, Eq, Structural)]
pub enum TodoMode {
    Normal,
    Adding,
    Editing(usize),
}

/// The setting selected on the setup screen.
#[derive(Debug, Clone, Copy, PartialEq, Eq, Structural)]
pub enum SetupField {
    Work,
    Break,
    LongBreak,
    SessionsBeforeLong,
}

/// Position of a setting on the setup screen.
pub open spec fn field_index(f: SetupField) -> usize {
    match f {
        SetupField::Work => 0,
        SetupField::Break => 1,
        SetupField::LongBreak => 2,
        SetupField::SessionsBeforeLong => 3,
    }
}

/// The setting at a position (the last one for positions past the end).
pub open spec fn field_at(i: usize) -> SetupField {
    if i == 0 {
        SetupField::Work
    } else if i == 1 {
        SetupField::Break
    } else if i == 2 {
        SetupField::LongBreak
    } else {
        SetupField::SessionsBeforeLong
    }
}

impl SetupField {
    /// Position of the setting, from 0 (work) to 3 (sessions per cycle).
    pub fn index(self) -> (r: usize)
        ensures
            r == field_index(self),
    {
        match self {
            SetupField::Work => 0,
            SetupField::Break => 1,
            SetupField::LongBreak => 2,
            SetupField::SessionsBeforeLong => 3,
        }
    }

    fn at(i: usize) -> (r: SetupField)
        ensures
            r == field_at(i),
    {
        if i == 0 {
            SetupField::Work
        } else if i == 1 {
            SetupField::Break
        } else if i == 2 {
            SetupField::LongBreak
        } else {
            SetupField::SessionsBeforeLong
        }
    }

    /// The next setting down; the last one stays where it is.
    pub fn next(self) -> (r: Self)
        ensures
            r == field_at(if field_index(self) + 1 <= 3 { (field_index(self) + 1) as usize } else { 3 }),
    {
        let i = self.index();
        let j = if i + 1 <= 3 { i + 1 } else { 3 };
        Self::at(j)
    }

    /// The next setting up; the first one stays where it is.
    pub fn prev(self) -> (r: Self)
        ensures
            r == field_at(if field_index(self) >= 1 { (field_index(self) - 1) as usize } else { 0 }),
    {
        let i = self.index();
        Self::at(if i >= 1 { i - 1 } else { 0 })
    }
}

/// The current time, as the event loop last read it.
pub struct Clock {
    /// Milliseconds on a monotonic clock.
    pub now_ms: u64,
    /// Local time of day, `HH:MM`.
    pub time_hm: String,
    /// Local time of day on a 12-hour clock, `H:MM AM`.
    pub time_12h: String,
    /// Local date, `YYYY-MM-DD`.
    pub date: String,
}

/// A clock reading as a mathematical value.
pub struct ClockView {
    pub now_ms: u64,
    pub time_hm: Seq<char>,
    pub time_12h: Seq<char>,
    pub date: Seq<char>,
}

impl View for Clock {
    type V = ClockView;

    open spec fn view(&self) -> ClockView {
        ClockView { now_ms: self.now_ms, time_hm: self.time_hm@, time_12h: self.time_12h@, date: self.date@ }
    }
}

impl Clock {
    /// A reading at time zero with empty wall-clock texts.
    pub fn start() -> (r: Clock)
        ensures
            r@ == (ClockView { now_ms: 0, time_hm: Seq::empty(), time_12h: Seq::empty(), date: Seq::empty() }),
    {
        Clock { now_ms: 0, time_hm: String::new(), time_12h: String::new(), date: String::new() }
    }

    /// A copy of this reading.
    pub fn duplicate(&self) -> (r: Clock)
        ensures
            r@ == self@,
    {
        Clock {
            now_ms: self.now_ms,
            time_hm: self.time_hm.clone(),
            time_12h: self.time_12h.clone(),
            date: self.date.clone(),
        }
    }
}

/// Timing of the current phase. Times are milliseconds on the monotonic clock.
pub struct TimerState {
    pub phase_start: u64,
    pub pause_accumulated: u64,
    pub pause_start: Option<u64>,
    pub overtime_notified: bool,
    pub last_tick: u64,
    pub phase_start_wall: String,
    pub phase_start_wall_12h: String,
}

/// The timer as a mathematical value.
pub struct TimerView {
    pub phase_start: u64,
    pub pause_accumulated: u64,
    pub pause_start: Option<u64>,
    pub overtime_notified: bool,
    pub last_tick: u64,
    pub phase_start_wall: Seq<char>,
    pub phase_start_wall_12h: Seq<char>,
}

impl View for TimerState {
    type V = TimerView;

    open spec fn view(&self) -> TimerView {
        TimerView {
            phase_start: self.phase_start,
            pause_accumulated: self.pause_accumulated,
            pause_start: self.pause_start,
            overtime_notified: self.overtime_notified,
            last_tick: self.last_tick,
            phase_start_wall: self.phase_start_wall@,
            phase_start_wall_12h: self.phase_start_wall_12h@,
        }
    }
}

/// A timer that starts at `c` (wall-clock texts taken from `c`).
pub open spec fn fresh_timer(c: ClockView) -> TimerView {
    TimerView {
        phase_start: c.now_ms,
        pause_accumulated: 0,
        pause_start: None,
        overtime_notified: false,
        last_tick: c.now_ms,
        phase_start_wall: c.time_hm,
        phase_start_wall_12h: c.time_12h,
    }
}

impl TimerState {
    fn duplicate(&self) -> (r: Self)
        ensures
            r@ == self@,
    {
        TimerState {
            phase_start: self.phase_start,
            pause_accumulated: self.pause_accumulated,
            pause_start: self.pause_start,
            overtime_notified: self.overtime_notified,
            last_tick: self.last_tick,
            phase_start_wall: self.phase_start_wall.clone(),
            phase_start_wall_12h: self.phase_start_wall_12h.clone(),
        }
    }

    fn new(clock: &Clock) -> (r: Self)
        ensures
            r@ == (TimerView { phase_start_wall: Seq::empty(), phase_start_wall_12h: Seq::empty(), ..fresh_timer(clock@) }),
    {
        TimerState {
            phase_start: clock.now_ms,
            pause_accumulated: 0,
            pause_start: None,
            overtime_notified: false,
            last_tick: clock.now_ms,
            phase_start_wall: String::new(),
            phase_start_wall_12h: String::new(),
        }
    }

    /// Restarts the timer at the clock's time.
    pub fn reset(&mut self, clock: &Clock)
        ensures
            final(self)@ == fresh_timer(clock@),
    {
        self.phase_start = clock.now_ms;
        self.pause_accumulated = 0;
        self.pause_start = None;
        self.overtime_notified = false;
        self.last_tick = clock.now_ms;
        self.phase_start_wall = clock.time_hm.clone();
        self.phase_start_wall_12h = clock.time_12h.clone();
    }
}


/// One finished phase, as shown in the session log.
pub struct HistoryEntry {
    pub session: u32,
    pub phase: Phase,
    pub elapsed_secs: u64,
    pub total_secs: u64,
    pub outcome: Outcome,
    pub task: String,
    pub start_time: String,
    pub end_time: String,
}

/// A history entry as a mathematical value.
pub struct HistoryView {
    pub session: u32,
    pub phase: Phase,
    pub elapsed_secs: u64,
    pub total_secs: u64,
    pub outcome: Outcome,
    pub task: Seq<char>,
    pub start_time: Seq<char>,
    pub end_time: Seq<char>,
}

impl View for HistoryEntry {
    type V = HistoryView;

    open spec fn view(&self) -> HistoryView {
        HistoryView {
            session: self.session,
            phase: self.phase,
            elapsed_secs: self.elapsed_secs,
            total_secs: self.total_secs,
            outcome: self.outcome,
            task: self.task@,
            start_time: self.start_time@,
            end_time: self.end_time@,
        }
    }
}

/// The views of a history.
pub open spec fn history_views(s: Seq<HistoryEntry>) -> Seq<HistoryView> {
    s.map_values(|e: HistoryEntry| e@)
}

impl HistoryEntry {
    fn duplicate(&self) -> (r: Self)
        ensures
            r@ == self@,
    {
        HistoryEntry {
            session: self.session,
            phase: self.phase,
            elapsed_secs: self.elapsed_secs,
            total_secs: self.total_secs,
            outcome: self.outcome,
            task: self.task.clone(),
            start_time: self.start_time.clone(),
            end_time: self.end_time.clone(),
        }
    }
}

fn duplicate_history(h: &Vec<HistoryEntry>) -> (r: Vec<HistoryEntry>)
    ensures
        history_views(r@) == history_views(h@),
{
    let mut r: Vec<HistoryEntry> = Vec::new();
    let mut i: usize = 0;
    while i < h.len()
        invariant
            i <= h@.len(),
            r@.len() == i,
            forall|j: int| 0 <= j < i ==> #[trigger] r@[j]@ == h@[j]@,
        decreases h@.len() - i,
    {
        r.push(h[i].duplicate());
        i = i + 1;
    }
    assert(history_views(r@) =~= history_views(h@));
    r
}

/// The todo list and its editing state.
pub struct TodoState {
    pub items: Vec<TodoItem>,
    pub cursor: usize,
    pub mode: TodoMode,
    pub input_buffer: String,
    pub picking: bool,
}

/// The todo list as a mathematical value.
pub struct TodoView {
    pub items: Seq<TodoItemView>,
    pub cursor: usize,
    pub mode: TodoMode,
    pub input_buffer: Seq<char>,
    pub picking: bool,
}

impl View for TodoState {
    type V = TodoView;

    open spec fn view(&self) -> TodoView {
        TodoView {
            items: todo_views(self.items@),
            cursor: self.cursor,
            mode: self.mode,
            input_buffer: self.input_buffer@,
            picking: self.picking,
        }
    }
}

/// The todo list after confirming the non-empty `text` (input mode unchanged).
pub open spec fn todo_with_text(t: TodoView, text: Seq<char>) -> TodoView {
    match t.mode {
        TodoMode::Adding => TodoView {
            items: t.items.push(TodoItemView { text: text, done: false }),
            cursor: t.items.len() as usize,
            ..t
        },
        TodoMode::Editing(idx) => if idx < t.items.len() {
            TodoView { items: t.items.update(idx as int, TodoItemView { text: text, ..t.items[idx as int] }), ..t }
        } else {
            t
        },
        TodoMode::Normal => t,
    }
}

impl TodoState {
    fn duplicate(&self) -> (r: Self)
        ensures
            r@ == self@,
    {
        let mut items: Vec<TodoItem> = Vec::new();
        let mut i: usize = 0;
        while i < self.items.len()
            invariant
                i <= self.items@.len(),
                items@.len() == i,
                forall|j: int| 0 <= j < i ==> #[trigger] items@[j]@ == self.items@[j]@,
            decreases self.items@.len() - i,
        {
            items.push(self.items[i].duplicate());
            i = i + 1;
        }
        assert(todo_views(items@) =~= todo_views(self.items@));
        TodoState {
            items: items,
            cursor: self.cursor,
            mode: self.mode,
            input_buffer: self.input_buffer.clone(),
            picking: self.picking,
        }
    }

    fn apply_text(&mut self, text: String)
        ensures
            final(self)@ == todo_with_text(old(self)@, text@),
    {
        let ghost items0 = self@.items;
        let ghost tv = text@;
        match self.mode {
            TodoMode::Adding => {
                self.items.push(TodoItem { text: text, done: false });
                assert(todo_views(self.items@) =~= items0.push(TodoItemView { text: tv, done: false }));
                self.cursor = self.items.len() - 1;
            },
            TodoMode::Editing(idx) => {
                if idx < self.items.len() {
                    self.items[idx].text = text;
                    assert(todo_views(self.items@) =~= items0.update(idx as int, TodoItemView { text: tv, ..items0[idx as int] }));
                }
            },
            TodoMode::Normal => {},
        }
    }

    fn new() -> (r: Self)
        ensures
            r@ == (TodoView { items: Seq::empty(), cursor: 0, mode: TodoMode::Normal, input_buffer: Seq::empty(), picking: true }),
    {
        let r = TodoState { items: Vec::new(), cursor: 0, mode: TodoMode::Normal, input_buffer: String::new(), picking: true };
        assert(todo_views(r.items@) =~= Seq::empty());
        r
    }
}

/// A work session that ended and waits for its notes before it is logged.
pub struct PendingEntry {
    pub elapsed_secs: u64,
    pub end_wall_12h: String,
    pub is_helping: bool,
}

/// The pending entry as a mathematical value.
pub struct PendingView {
    pub elapsed_secs: u64,
    pub end_wall_12h: Seq<char>,
    pub is_helping: bool,
}

impl View for PendingEntry {
    type V = PendingView;

    open spec fn view(&self) -> PendingView {
        PendingView { elapsed_secs: self.elapsed_secs, end_wall_12h: self.end_wall_12h@, is_helping: self.is_helping }
    }
}

impl PendingEntry {
    fn duplicate(&self) -> (r: Self)
        ensures
            r@ == self@,
    {
        PendingEntry { elapsed_secs: self.elapsed_secs, end_wall_12h: self.end_wall_12h.clone(), is_helping: self.is_helping }
    }

    fn new() -> (r: Self)
        ensures
            r@ == (PendingView { elapsed_secs: 0, end_wall_12h: Seq::empty(), is_helping: false }),
    {
        PendingEntry { elapsed_secs: 0, end_wall_12h: String::new(), is_helping: false }
    }
}

/// Navigation state of the daily log screen.
pub struct DailyLogState {
    pub expanded: Vec<String>,
    pub cursor: usize,
    pub return_from: Screen,
}

/// The daily log screen as a mathematical value.
pub struct DailyLogView {
    pub expanded: Seq<Seq<char>>,
    pub cursor: usize,
    pub return_from: Screen,
}

/// The views of a list of strings.
pub open spec fn string_views(s: Seq<String>) -> Seq<Seq<char>> {
    s.map_values(|x: String| x@)
}

impl View for DailyLogState {
    type V = DailyLogView;

    open spec fn view(&self) -> DailyLogView {
        DailyLogView { expanded: string_views(self.expanded@), cursor: self.cursor, return_from: self.return_from }
    }
}

impl DailyLogState {
    fn duplicate(&self) -> (r: Self)
        ensures
            r@ == self@,
    {
        let mut expanded: Vec<String> = Vec::new();
        let mut i: usize = 0;
        while i < self.expanded.len()
            invariant
                i <= self.expanded@.len(),
                expanded@.len() == i,
                forall|j: int| 0 <= j < i ==> #[trigger] expanded@[j]@ == self.expanded@[j]@,
            decreases self.expanded@.len() - i,
        {
            expanded.push(self.expanded[i].clone());
            i = i + 1;
        }
        assert(string_views(expanded@) =~= string_views(self.expanded@));
        DailyLogState { expanded: expanded, cursor: self.cursor, return_from: self.return_from }
    }

    fn new() -> (r: Self)
        ensures
            r@ == (DailyLogView { expanded: Seq::empty(), cursor: 0, return_from: Screen::TodoList }),
    {
        let r = DailyLogState { expanded: Vec::new(), cursor: 0, return_from: Screen::TodoList };
        assert(string_views(r.expanded@) =~= Seq::empty());
        r
    }
}

/// The first-run screen where the log directory is chosen.
pub struct OnboardingState {
    pub input_buffer: String,
    pub error: Option<String>,
}

/// The onboarding screen as a mathematical value.
pub struct OnboardingView {
    pub input_buffer: Seq<char>,
    pub error: Option<Seq<char>>,
}

impl View for OnboardingState {
    type V = OnboardingView;

    open spec fn view(&self) -> OnboardingView {
        OnboardingView {
            input_buffer: self.input_buffer@,
            error: match self.error {
                Some(e) => Some(e@),
                None => None,
            },
        }
    }
}

impl OnboardingState {
    fn duplicate(&self) -> (r: Self)
        ensures
            r@ == self@,
    {
        let error = match &self.error {
            Some(e) => Some(e.clone()),
            None => None,
        };
        OnboardingState { input_buffer: self.input_buffer.clone(), error: error }
    }

    fn new(default_dir: &str) -> (r: Self)
        ensures
            r@ == (OnboardingView { input_buffer: default_dir@, error: None }),
    {
        OnboardingState { input_buffer: default_dir.to_string(), error: None }
    }
}

/// Outside work the state machine asks for; the event loop performs it.
pub enum Effect {
    /// Append an entry to the work log.
    SaveWorkEntry(WorkEntry),
    /// Persist the timer settings.
    SaveConfig(Config),
    /// Persist the todo list as it stands.
    SaveTodos,
    /// Replace the todo list with the saved one.
    LoadTodos,
    /// Replace the daily totals with those read from the logs.
    LoadDailyStats,
    /// Show a desktop notification.
    Notify(String, String),
    /// Expand and create the log directory typed on the onboarding screen, then persist
    /// the given settings, with the prepared directory as their log directory, if there
    /// are any, and report with `onboarding_finish`.
    PrepareLogDir(String, Option<Config>),
}

/// An effect as a mathematical value.
pub enum EffectView {
    SaveWorkEntry(WorkEntryView),
    SaveConfig(ConfigView),
    SaveTodos,
    LoadTodos,
    LoadDailyStats,
    Notify(Seq<char>, Seq<char>),
    PrepareLogDir(Seq<char>, Option<ConfigView>),
}

impl View for Effect {
    type V = EffectView;

    open spec fn view(&self) -> EffectView {
        match self {
            Effect::SaveWorkEntry(e) => EffectView::SaveWorkEntry(e@),
            Effect::SaveConfig(c) => EffectView::SaveConfig(c@),
            Effect::SaveTodos => EffectView::SaveTodos,
            Effect::LoadTodos => EffectView::LoadTodos,
            Effect::LoadDailyStats => EffectView::LoadDailyStats,
            Effect::Notify(t, m) => EffectView::Notify(t@, m@),
            Effect::PrepareLogDir(d, c) => EffectView::PrepareLogDir(d@, config_opt_view(*c)),
        }
    }
}

/// The view of optional settings.
pub open spec fn config_opt_view(c: Option<Config>) -> Option<ConfigView> {
    match c {
        Some(x) => Some(x@),
        None => None,
    }
}

/// The views of a list of effects.
pub open spec fn effect_views(s: Seq<Effect>) -> Seq<EffectView> {
    s.map_values(|e: Effect| e@)
}

impl Effect {
    fn duplicate(&self) -> (r: Self)
        ensures
            r@ == self@,
    {
        match self {
            Effect::SaveWorkEntry(e) => Effect::SaveWorkEntry(e.duplicate()),
            Effect::SaveConfig(c) => Effect::SaveConfig(c.duplicate()),
            Effect::SaveTodos => Effect::SaveTodos,
            Effect::LoadTodos => Effect::LoadTodos,
            Effect::LoadDailyStats => Effect::LoadDailyStats,
            Effect::Notify(t, m) => Effect::Notify(t.clone(), m.clone()),
            Effect::PrepareLogDir(d, c) => Effect::PrepareLogDir(
                d.clone(),
                match c {
                    Some(x) => Some(x.duplicate()),
                    None => None,
                },
            ),
        }
    }
}

fn duplicate_effects(v: &Vec<Effect>) -> (r: Vec<Effect>)
    ensures
        effect_views(r@) == effect_views(v@),
{
    let mut r: Vec<Effect> = Vec::new();
    let mut i: usize = 0;
    while i < v.len()
        invariant
            i <= v@.len(),
            r@.len() == i,
            forall|j: int| 0 <= j < i ==> #[trigger] r@[j]@ == v@[j]@,
        decreases v@.len() - i,
    {
        r.push(v[i].duplicate());
        i = i + 1;
    }
    assert(effect_views(r@) =~= effect_views(v@));
    r
}

/// What the event loop found when it set up the log directory.
pub enum LogDirSetup {
    /// The directory could not be created; the text says why.
    DirError(String),
    /// The directory (the expanded path) exists but the settings could not be saved.
    SaveError(String, String),
    /// The directory (the expanded path) is ready.
    Ready(String),
}


/// The whole state of the timer application.
pub struct App {
    /// User-configured default work phase duration (persisted).
    pub work_secs: u64,
    /// The current work phase's actual duration; starts equal to `work_secs` and
    /// may be reduced via `shorten_work` within a phase.
    current_work_secs: u64,
    pub break_secs: u64,
    pub long_break_secs: u64,
    pub sessions_before_long: u32,
    pub log_dir: String,
    pub phase: Phase,
    pub session: u32,
    pub paused: bool,
    pub should_quit: bool,
    pub confirm_quit: bool,
    pub timer: TimerState,
    pub history: Vec<HistoryEntry>,
    pub screen: Screen,
    pub selected_field: SetupField,
    pub daily_stats: DailyStats,
    persist: bool,
    pub current_task: String,
    pub task_input_buffer: String,
    pub notes_input_buffer: String,
    pub renaming_task: bool,
    pub pending: PendingEntry,
    pub todo: TodoState,
    pub daily_log: DailyLogState,
    pub onboarding: OnboardingState,
    pub manual_break: bool,
    last_date: String,
    /// The latest clock reading; the event loop refreshes it before each event.
    pub clock: Clock,
    /// Outside work requested and not yet performed, oldest first.
    pub effects: Vec<Effect>,
}

/// The application state as a mathematical value.
#[verifier::ext_equal]
pub struct AppView {
    pub work_secs: u64,
    pub current_work_secs: u64,
    pub break_secs: u64,
    pub long_break_secs: u64,
    pub sessions_before_long: u32,
    pub log_dir: Seq<char>,
    pub phase: Phase,
    pub session: u32,
    pub paused: bool,
    pub should_quit: bool,
    pub confirm_quit: bool,
    pub timer: TimerView,
    pub history: Seq<HistoryView>,
    pub screen: Screen,
    pub selected_field: SetupField,
    pub daily_stats: Seq<(Seq<char>, DayStats)>,
    pub persist: bool,
    pub current_task: Seq<char>,
    pub task_input_buffer: Seq<char>,
    pub notes_input_buffer: Seq<char>,
    pub renaming_task: bool,
    pub pending: PendingView,
    pub todo: TodoView,
    pub daily_log: DailyLogView,
    pub onboarding: OnboardingView,
    pub manual_break: bool,
    pub last_date: Seq<char>,
    pub clock: ClockView,
    pub effects: Seq<EffectView>,
}

impl View for App {
    type V = AppView;

    closed spec fn view(&self) -> AppView {
        AppView {
            work_secs: self.work_secs,
            current_work_secs: self.current_work_secs,
            break_secs: self.break_secs,
            long_break_secs: self.long_break_secs,
            sessions_before_long: self.sessions_before_long,
            log_dir: self.log_dir@,
            phase: self.phase,
            session: self.session,
            paused: self.paused,
            should_quit: self.should_quit,
            confirm_quit: self.confirm_quit,
            timer: self.timer@,
            history: history_views(self.history@),
            screen: self.screen,
            selected_field: self.selected_field,
            daily_stats: self.daily_stats@,
            persist: self.persist,
            current_task: self.current_task@,
            task_input_buffer: self.task_input_buffer@,
            notes_input_buffer: self.notes_input_buffer@,
            renaming_task: self.renaming_task,
            pending: self.pending@,
            todo: self.todo@,
            daily_log: self.daily_log@,
            onboarding: self.onboarding@,
            manual_break: self.manual_break,
            last_date: self.last_date@,
            clock: self.clock@,
            effects: effect_views(self.effects@),
        }
    }
}

/// `a - b`, or 0 when `b` is larger.
pub open spec fn sat_sub(a: int, b: int) -> int {
    if a >= b {
        a - b
    } else {
        0
    }
}

/// `a + b`, capped at `u64::MAX`.
pub open spec fn sat_add(a: int, b: int) -> int {
    if a + b <= u64::MAX {
        a + b
    } else {
        u64::MAX as int
    }
}

/// The smaller of two integers.
pub open spec fn min_int(a: int, b: int) -> int {
    if a <= b {
        a
    } else {
        b
    }
}

/// The larger of two integers.
pub open spec fn max_int(a: int, b: int) -> int {
    if a >= b {
        a
    } else {
        b
    }
}

/// The state a configuration starts in.
pub open spec fn initial_view(cfg: ConfigView, clock: ClockView, persist: bool) -> AppView {
    AppView {
        work_secs: cfg.work_secs,
        current_work_secs: cfg.work_secs,
        break_secs: cfg.break_secs,
        long_break_secs: cfg.long_break_secs,
        sessions_before_long: if cfg.sessions_before_long >= 1 { cfg.sessions_before_long } else { 1 },
        log_dir: cfg.log_dir,
        phase: Phase::Work,
        session: 1,
        paused: false,
        should_quit: false,
        confirm_quit: false,
        timer: TimerView { phase_start_wall: Seq::empty(), phase_start_wall_12h: Seq::empty(), ..fresh_timer(clock) },
        history: Seq::empty(),
        screen: Screen::TodoList,
        selected_field: SetupField::Work,
        daily_stats: Seq::empty(),
        persist: persist,
        current_task: Seq::empty(),
        task_input_buffer: Seq::empty(),
        notes_input_buffer: Seq::empty(),
        renaming_task: false,
        pending: PendingView { elapsed_secs: 0, end_wall_12h: Seq::empty(), is_helping: false },
        todo: TodoView { items: Seq::empty(), cursor: 0, mode: TodoMode::Normal, input_buffer: Seq::empty(), picking: true },
        daily_log: DailyLogView { expanded: Seq::empty(), cursor: 0, return_from: Screen::TodoList },
        onboarding: OnboardingView { input_buffer: cfg.log_dir, error: None },
        manual_break: false,
        last_date: Seq::empty(),
        clock: clock,
        effects: Seq::empty(),
    }
}

impl AppView {
    /// Length of the current phase in seconds.
    pub open spec fn phase_total(self) -> u64 {
        match self.phase {
            Phase::Work => self.current_work_secs,
            Phase::Break => self.break_secs,
            Phase::LongBreak => self.long_break_secs,
        }
    }

    /// Milliseconds spent paused in the current phase, the running pause included.
    pub open spec fn paused_ms(self) -> int {
        let extra = match self.timer.pause_start {
            Some(ps) => sat_sub(self.clock.now_ms as int, ps as int),
            None => 0,
        };
        sat_add(self.timer.pause_accumulated as int, extra)
    }

    /// Whole seconds the current phase has run, pauses excluded; a break never
    /// counts past its length, work (and a manual break) does.
    pub open spec fn elapsed(self) -> u64 {
        let raw = sat_sub(sat_sub(self.clock.now_ms as int, self.timer.phase_start as int), self.paused_ms()) / 1000;
        if self.phase == Phase::Work || self.manual_break {
            raw as u64
        } else {
            min_int(raw, self.phase_total() as int) as u64
        }
    }

    /// Seconds left in the current phase.
    pub open spec fn remaining(self) -> u64 {
        sat_sub(self.phase_total() as int, self.elapsed() as int) as u64
    }

    /// Seconds the current phase has run past its length.
    pub open spec fn overtime(self) -> u64 {
        sat_sub(self.elapsed() as int, self.phase_total() as int) as u64
    }

    /// A work phase has reached its length.
    pub open spec fn is_overtime(self) -> bool {
        self.phase == Phase::Work && self.elapsed() >= self.phase_total()
    }

    /// A work phase (not a manual break) is under way.
    pub open spec fn active_work(self) -> bool {
        self.phase == Phase::Work && !self.manual_break
    }

    /// The settings as they stand.
    pub open spec fn config(self) -> ConfigView {
        ConfigView {
            work_secs: self.work_secs,
            break_secs: self.break_secs,
            long_break_secs: self.long_break_secs,
            sessions_before_long: self.sessions_before_long,
            log_dir: self.log_dir,
        }
    }

    /// `self` with one more effect queued.
    pub open spec fn with_effect(self, e: EffectView) -> AppView {
        AppView { effects: self.effects.push(e), ..self }
    }

    /// The totals logged for today (an empty day when none).
    pub open spec fn today_stats(self) -> DayStats {
        day_or_empty(self.daily_stats, self.clock.date)
    }

    /// Today's totals can take `work` and `helping` more seconds and one more session.
    pub open spec fn can_add_today(self, work: u64, helping: u64) -> bool {
        &&& self.today_stats().work_secs + work <= u64::MAX
        &&& self.today_stats().helping_secs + helping <= u64::MAX
        &&& self.today_stats().sessions + 1 <= u32::MAX
    }

    /// `self` with `work` and `helping` seconds and one session added to today's totals.
    pub open spec fn add_today(self, work: u64, helping: u64) -> AppView {
        AppView {
            daily_stats: upsert(self.daily_stats, self.clock.date, add_day(self.today_stats(), work, helping, 1)),
            ..self
        }
    }

    /// The timer restarted at the clock's time, unpaused.
    pub open spec fn reset_timer(self) -> AppView {
        AppView { timer: fresh_timer(self.clock), paused: false, ..self }
    }

    /// The phase that follows the current one: a long break after every
    /// `sessions_before_long`-th work session, a short break after the others, and
    /// work (of the next session, at the configured length) after any break.
    pub open spec fn advance_phase(self) -> AppView {
        match self.phase {
            Phase::Work => AppView {
                phase: if self.session % self.sessions_before_long == 0 { Phase::LongBreak } else { Phase::Break },
                ..self
            },
            _ => AppView { session: (self.session + 1) as u32, phase: Phase::Work, current_work_secs: self.work_secs, ..self },
        }
    }

    /// `secs` seconds of work logged for today (written out when persisting).
    pub open spec fn record_work(self, secs: u64, end_wall: Seq<char>, outcome: Outcome) -> AppView {
        let v = if self.persist {
            self.with_effect(
                EffectView::SaveWorkEntry(
                    WorkEntryView {
                        date: self.clock.date,
                        start_time: self.timer.phase_start_wall_12h,
                        end_time: end_wall,
                        duration_secs: secs,
                        task: self.current_task,
                        completed: outcome == Outcome::Completed,
                        helping: false,
                        notes: Seq::empty(),
                    },
                ),
            )
        } else {
            self
        };
        v.add_today(secs, 0)
    }

    /// The history entry of the current work phase ending now after `elapsed` seconds.
    pub open spec fn work_history(self, elapsed: u64, outcome: Outcome) -> HistoryView {
        HistoryView {
            session: self.session,
            phase: Phase::Work,
            elapsed_secs: elapsed,
            total_secs: self.phase_total(),
            outcome: outcome,
            task: self.current_task,
            start_time: self.timer.phase_start_wall,
            end_time: self.clock.time_hm,
        }
    }

    /// The work phase ends: logged when it lasted, and added to the history.
    pub open spec fn record_and_log_work(self, elapsed: u64, outcome: Outcome) -> AppView {
        let v = if elapsed > 0 { self.record_work(elapsed, self.clock.time_12h, outcome) } else { self };
        AppView { history: v.history.push(self.work_history(elapsed, outcome)), ..v }
    }

    /// A break ends and is added to the history.
    pub open spec fn log_phase_completion(self, elapsed: u64, outcome: Outcome) -> AppView {
        AppView {
            history: self.history.push(
                HistoryView {
                    session: self.session,
                    phase: self.phase,
                    elapsed_secs: elapsed,
                    total_secs: self.phase_total(),
                    outcome: outcome,
                    task: Seq::empty(),
                    start_time: self.timer.phase_start_wall,
                    end_time: self.clock.time_hm,
                },
            ),
            ..self
        }
    }

    /// A notification that a break starts, when persisting and in a break.
    pub open spec fn notify_break_start(self) -> AppView {
        if !self.persist {
            self
        } else {
            match self.phase {
                Phase::LongBreak => self.with_effect(
                    EffectView::Notify("🌴 Long break!"@, "Great work! Relax for "@ + dec((self.long_break_secs / 60) as nat) + " min"@),
                ),
                Phase::Break => self.with_effect(
                    EffectView::Notify("☕ Break time!"@, "Relax for "@ + dec((self.break_secs / 60) as nat) + " min"@),
                ),
                Phase::Work => self,
            }
        }
    }

    /// A notification that the break is over, when persisting.
    pub open spec fn notify_break_over(self) -> AppView {
        if self.persist {
            self.with_effect(EffectView::Notify("🍅 Break's over!"@, "Time to get back to work"@))
        } else {
            self
        }
    }

    /// The todo list screen, out of any input mode (reloaded when persisting).
    pub open spec fn prepare_todo_list(self) -> AppView {
        let v = AppView { todo: TodoView { mode: TodoMode::Normal, input_buffer: Seq::empty(), ..self.todo }, ..self };
        let w = if self.persist { v.with_effect(EffectView::LoadTodos) } else { v };
        AppView { screen: Screen::TodoList, ..w }
    }

    /// The todo list in picking mode with the cursor on the first entry.
    pub open spec fn return_to_task_picker(self) -> AppView {
        AppView { todo: TodoView { picking: true, cursor: 0, ..self.todo }, ..self }.prepare_todo_list()
    }

    /// What ending the current phase may require.
    pub open spec fn finish_ok(self) -> bool {
        &&& self.phase == Phase::Work ==> self.sessions_before_long >= 1
        &&& self.phase == Phase::Work && self.elapsed() > 0 ==> self.can_add_today(self.elapsed(), 0)
        &&& self.phase != Phase::Work ==> self.session < u32::MAX
    }

    /// A work phase of the configured length starts on the timer screen.
    pub open spec fn begin_work_phase(self) -> AppView {
        AppView { current_work_secs: self.work_secs, screen: Screen::Timer, ..self }.reset_timer()
    }

    /// The setting under the cursor raised by one step (a minute, or one session),
    /// up to its maximum.
    pub open spec fn incremented(self) -> AppView {
        match self.selected_field {
            SetupField::Work => AppView { work_secs: min_int(self.work_secs + 60, 7200) as u64, ..self },
            SetupField::Break => AppView { break_secs: min_int(self.break_secs + 60, 3600) as u64, ..self },
            SetupField::LongBreak => AppView { long_break_secs: min_int(self.long_break_secs + 60, 3600) as u64, ..self },
            SetupField::SessionsBeforeLong => AppView {
                sessions_before_long: min_int(self.sessions_before_long + 1, 10) as u32,
                ..self
            },
        }
    }

    /// The setting under the cursor can be raised without overflow.
    pub open spec fn can_increment(self) -> bool {
        match self.selected_field {
            SetupField::Work => self.work_secs + 60 <= u64::MAX,
            SetupField::Break => self.break_secs + 60 <= u64::MAX,
            SetupField::LongBreak => self.long_break_secs + 60 <= u64::MAX,
            SetupField::SessionsBeforeLong => self.sessions_before_long + 1 <= u32::MAX,
        }
    }

    /// The setting under the cursor lowered by one step, down to its minimum.
    pub open spec fn decremented(self) -> AppView {
        match self.selected_field {
            SetupField::Work => AppView { work_secs: max_int(sat_sub(self.work_secs as int, 60), 60) as u64, ..self },
            SetupField::Break => AppView { break_secs: max_int(sat_sub(self.break_secs as int, 60), 60) as u64, ..self },
            SetupField::LongBreak => AppView {
                long_break_secs: max_int(sat_sub(self.long_break_secs as int, 60), 60) as u64,
                ..self
            },
            SetupField::SessionsBeforeLong => AppView {
                sessions_before_long: max_int(sat_sub(self.sessions_before_long as int, 1), 1) as u32,
                ..self
            },
        }
    }

    /// The gap since the last tick, and a finished work phase when it shows the
    /// machine slept through a running work phase (the sleep does not count as work).
    pub open spec fn handle_sleep_gap(self) -> AppView {
        let gap = sat_sub(self.clock.now_ms as int, self.timer.last_tick as int);
        let v = AppView { timer: TimerView { last_tick: self.clock.now_ms, ..self.timer }, ..self };
        if gap < 30000 {
            v
        } else if v.active_work() && !v.paused {
            self.slept(gap).finish_phase(Outcome::Completed)
        } else {
            v
        }
    }

    /// The state after a sleep of `gap` milliseconds was taken out of the work timer.
    pub open spec fn slept(self, gap: int) -> AppView {
        AppView {
            timer: TimerView {
                last_tick: self.clock.now_ms,
                pause_accumulated: sat_add(self.timer.pause_accumulated as int, sat_sub(gap, 1000)) as u64,
                ..self.timer
            },
            ..self
        }
    }

    /// Ending a phase after a sleep is possible.
    pub open spec fn sleep_gap_ok(self) -> bool {
        let gap = sat_sub(self.clock.now_ms as int, self.timer.last_tick as int);
        gap >= 30000 && self.active_work() && !self.paused ==> self.slept(gap).finish_ok()
    }

    /// A new day (when persisting) starts a new first session with an empty history
    /// and reloads the totals and the todo list.
    pub open spec fn check_date_change(self) -> AppView {
        if !self.persist {
            self
        } else {
            let v = if self.last_date.len() > 0 && self.last_date != self.clock.date {
                AppView { session: 1, history: Seq::empty(), ..self }.with_effect(EffectView::LoadDailyStats).with_effect(
                    EffectView::LoadTodos,
                )
            } else {
                self
            };
            AppView { last_date: self.clock.date, ..v }
        }
    }

    /// A running break that has run its length ends by itself.
    pub open spec fn break_done(self) -> bool {
        !self.paused && self.remaining() == 0 && self.phase != Phase::Work && !self.manual_break
    }

    /// A break that is done ends; nothing else changes.
    pub open spec fn auto_complete_break(self) -> AppView {
        if self.break_done() {
            self.finish_phase(Outcome::Completed)
        } else {
            self
        }
    }

    /// The one "time's up" notification of a work phase, when persisting.
    pub open spec fn check_overtime_notification(self) -> AppView {
        if self.persist && self.active_work() && self.is_overtime() && !self.timer.overtime_notified {
            AppView { timer: TimerView { overtime_notified: true, ..self.timer }, ..self }.with_effect(
                EffectView::Notify("⏰ Time's up!"@, "Take a break when you're ready"@),
            )
        } else {
            self
        }
    }

    /// One tick of the event loop.
    pub open spec fn tick(self) -> AppView {
        self.handle_sleep_gap().check_date_change().auto_complete_break().check_overtime_notification()
    }

    /// What a tick may require.
    pub open spec fn tick_ok(self) -> bool {
        &&& self.sleep_gap_ok()
        &&& self.handle_sleep_gap().check_date_change().break_done() ==> self.handle_sleep_gap().check_date_change().session
            < u32::MAX
    }

    /// Pausing, or resuming with the pause added to the paused time.
    pub open spec fn toggled_pause(self) -> AppView {
        if self.paused {
            let acc = match self.timer.pause_start {
                Some(ps) => sat_add(self.timer.pause_accumulated as int, sat_sub(self.clock.now_ms as int, ps as int)) as u64,
                None => self.timer.pause_accumulated,
            };
            AppView { timer: TimerView { pause_accumulated: acc, pause_start: None, ..self.timer }, paused: false, ..self }
        } else {
            AppView { timer: TimerView { pause_start: Some(self.clock.now_ms), ..self.timer }, paused: true, ..self }
        }
    }

    /// The pending entry (with `notes`) written out, when persisting.
    pub open spec fn save_pending_entry(self, notes: Seq<char>) -> AppView {
        if self.persist {
            self.with_effect(
                EffectView::SaveWorkEntry(
                    WorkEntryView {
                        date: self.clock.date,
                        start_time: self.timer.phase_start_wall_12h,
                        end_time: self.pending.end_wall_12h,
                        duration_secs: self.pending.elapsed_secs,
                        task: self.current_task,
                        completed: true,
                        helping: self.pending.is_helping,
                        notes: notes,
                    },
                ),
            )
        } else {
            self
        }
    }

    /// The break after an ended work session starts on the timer screen.
    pub open spec fn transition_to_break(self) -> AppView {
        AppView { screen: Screen::Timer, ..self.advance_phase().reset_timer() }.notify_break_start()
    }

    /// Advancing the phase is possible.
    pub open spec fn advance_ok(self) -> bool {
        &&& self.phase == Phase::Work ==> self.sessions_before_long >= 1
        &&& self.phase != Phase::Work ==> self.session < u32::MAX
    }

    /// The current work phase ends early with `outcome` (completed, or helping
    /// others): it is counted for today and the notes screen asks about it.
    pub open spec fn complete_work_session(self, outcome: Outcome) -> AppView {
        if !self.active_work() {
            self
        } else {
            let e = self.elapsed();
            let v1 = AppView {
                pending: PendingView { elapsed_secs: e, end_wall_12h: self.clock.time_12h, is_helping: outcome == Outcome::Helping },
                history: self.history.push(self.work_history(e, outcome)),
                ..self
            };
            let v2 = if outcome == Outcome::Helping { v1.add_today(0, e) } else { v1.add_today(e, 0) };
            AppView { notes_input_buffer: Seq::empty(), screen: Screen::NotesInput, ..v2 }
        }
    }

    /// Ending the work session early with `outcome` is possible.
    pub open spec fn complete_ok(self, outcome: Outcome) -> bool {
        self.active_work() ==> if outcome == Outcome::Helping {
            self.can_add_today(0, self.elapsed())
        } else {
            self.can_add_today(self.elapsed(), 0)
        }
    }

    /// A work phase is under way on the timer or daily log screen.
    pub open spec fn has_active_work_session(self) -> bool {
        self.active_work() && (self.screen == Screen::Timer || self.screen == Screen::DailyLog)
    }

    /// Work seconds counted for today, the running work phase on the timer screen included.
    pub open spec fn today_work(self) -> int {
        self.today_stats().work_secs + if self.active_work() && self.screen == Screen::Timer { self.elapsed() as int } else { 0 }
    }

    /// The current phase ends with `outcome`: it is recorded, the next phase starts
    /// with a fresh timer, the user is notified, and a new work phase begins at the
    /// task picker when the timer screen is showing.
    pub open spec fn finish_phase(self, outcome: Outcome) -> AppView {
        let e = self.elapsed();
        let v1 = if self.phase == Phase::Work {
            self.record_and_log_work(e, outcome)
        } else {
            self.log_phase_completion(e, outcome)
        };
        let v2 = v1.advance_phase().reset_timer();
        let v3 = if self.phase != Phase::Work && v2.phase == Phase::Work {
            v2.notify_break_over()
        } else if self.phase == Phase::Work {
            v2.notify_break_start()
        } else {
            v2
        };
        if v3.phase == Phase::Work && v3.screen == Screen::Timer {
            v3.return_to_task_picker()
        } else {
            v3
        }
    }
}


impl AppView {
    /// `c` typed into the log directory input; any error is cleared.
    pub open spec fn typed_onboarding(self, c: char) -> AppView {
        (AppView {
                onboarding: OnboardingView { input_buffer: self.onboarding.input_buffer.push(c), error: None },
                ..self
            })
    }

    /// The last character of the log directory input erased; any error is cleared.
    pub open spec fn erased_onboarding(self) -> AppView {
        (AppView {
                onboarding: OnboardingView {
                    input_buffer: if self.onboarding.input_buffer.len() > 0 {
                        self.onboarding.input_buffer.drop_last()
                    } else {
                        self.onboarding.input_buffer
                    },
                    error: None,
                },
                ..self
            })
    }

    /// The default log directory back in the input; any error is cleared.
    pub open spec fn reset_onboarding(self) -> AppView {
        (AppView {
                onboarding: OnboardingView { input_buffer: "/Users/alvisf/Documents/Notes/daily-logs"@, error: None },
                ..self
            })
    }

    /// The setup cursor one setting down (the last setting stays selected).
    pub open spec fn next_field(self) -> AppView {
        (AppView {
                selected_field: field_at(
                    if field_index(self.selected_field) + 1 <= 3 { (field_index(self.selected_field) + 1) as usize } else { 3 },
                ),
                ..self
            })
    }

    /// The setup cursor one setting up (the first setting stays selected).
    pub open spec fn prev_field(self) -> AppView {
        (AppView {
                selected_field: field_at(
                    if field_index(self.selected_field) >= 1 { (field_index(self.selected_field) - 1) as usize } else { 0 },
                ),
                ..self
            })
    }

    /// The settings saved (when persisting) and a work phase started.
    pub open spec fn start_timer(self) -> AppView {
        (if self.persist {
                self.with_effect(EffectView::SaveConfig(self.config()))
            } else {
                self
            }).begin_work_phase()
    }

    /// `c` typed into the task name.
    pub open spec fn typed_task(self, c: char) -> AppView {
        (AppView { task_input_buffer: self.task_input_buffer.push(c), ..self })
    }

    /// The last character of the task name erased.
    pub open spec fn erased_task(self) -> AppView {
        (AppView {
                task_input_buffer: if self.task_input_buffer.len() > 0 {
                    self.task_input_buffer.drop_last()
                } else {
                    self.task_input_buffer
                },
                ..self
            })
    }

    /// The typed name, trimmed, as the current task: back to the timer when renaming, on to the setup screen otherwise.
    pub open spec fn submit_task(self) -> AppView {
        (AppView {
                current_task: trim(self.task_input_buffer),
                task_input_buffer: Seq::empty(),
                renaming_task: false,
                screen: if self.renaming_task { Screen::Timer } else { Screen::Setup },
                ..self
            })
    }

    /// The todo cursor one entry up (the first entry stays selected).
    pub open spec fn todo_up(self) -> AppView {
        (AppView {
                todo: TodoView { cursor: sat_sub(self.todo.cursor as int, 1) as usize, ..self.todo },
                ..self
            })
    }

    /// Typing a new todo, from an empty input.
    pub open spec fn todo_start_add(self) -> AppView {
        (AppView {
                todo: TodoView { input_buffer: Seq::empty(), mode: TodoMode::Adding, ..self.todo },
                ..self
            })
    }

    /// `c` typed into the todo text.
    pub open spec fn typed_todo(self, c: char) -> AppView {
        (AppView {
                todo: TodoView { input_buffer: self.todo.input_buffer.push(c), ..self.todo },
                ..self
            })
    }

    /// The last character of the todo text erased.
    pub open spec fn erased_todo(self) -> AppView {
        (AppView {
                todo: TodoView {
                    input_buffer: if self.todo.input_buffer.len() > 0 {
                        self.todo.input_buffer.drop_last()
                    } else {
                        self.todo.input_buffer
                    },
                    ..self.todo
                },
                ..self
            })
    }

    /// Todo input mode left, the typed text dropped.
    pub open spec fn todo_cancelled(self) -> AppView {
        (AppView {
                todo: TodoView { mode: TodoMode::Normal, input_buffer: Seq::empty(), ..self.todo },
                ..self
            })
    }

    /// The daily log shown, remembering the screen it was opened from.
    pub open spec fn open_daily_log(self) -> AppView {
        (AppView {
                daily_log: DailyLogView { return_from: self.screen, cursor: 0, expanded: Seq::empty() },
                screen: Screen::DailyLog,
                ..self
            })
    }

    /// Back to the screen the daily log was opened from.
    pub open spec fn close_daily_log(self) -> AppView {
        (AppView { screen: self.daily_log.return_from, ..self })
    }

    /// The quit confirmation shown.
    pub open spec fn request_quit(self) -> AppView {
        (AppView { confirm_quit: true, ..self })
    }

    /// The quit confirmation dismissed.
    pub open spec fn cancel_quit(self) -> AppView {
        (AppView { confirm_quit: false, ..self })
    }

    /// The quit confirmation dismissed and the running work session ended as completed.
    pub open spec fn confirm_quit_end_session(self) -> AppView {
        (AppView { confirm_quit: false, ..self }).complete_work_session(Outcome::Completed)
    }

    /// An open-ended break running on the timer screen.
    pub open spec fn start_manual_break(self) -> AppView {
        (AppView { manual_break: true, screen: Screen::Timer, ..self }).reset_timer()
    }

    /// The open-ended break over, back at the task picker.
    pub open spec fn end_manual_break(self) -> AppView {
        (AppView { manual_break: false, ..self }).return_to_task_picker()
    }

    /// `c` typed into the notes.
    pub open spec fn typed_notes(self, c: char) -> AppView {
        (AppView { notes_input_buffer: self.notes_input_buffer.push(c), ..self })
    }

    /// The last character of the notes erased.
    pub open spec fn erased_notes(self) -> AppView {
        (AppView {
                notes_input_buffer: if self.notes_input_buffer.len() > 0 {
                    self.notes_input_buffer.drop_last()
                } else {
                    self.notes_input_buffer
                },
                ..self
            })
    }

    /// The ended session logged with the typed notes (trimmed), and the break started.
    pub open spec fn submit_notes(self) -> AppView {
        (AppView {
                notes_input_buffer: Seq::empty(),
                ..self.save_pending_entry(trim(self.notes_input_buffer))
            }).transition_to_break()
    }

    /// The ended session logged without notes, and the break started.
    pub open spec fn skip_notes(self) -> AppView {
        (AppView {
                notes_input_buffer: Seq::empty(),
                ..self.save_pending_entry(Seq::empty())
            }).transition_to_break()
    }

    /// The todo list shown for editing, the cursor kept.
    pub open spec fn open_todo_manager(self) -> AppView {
        (AppView { todo: TodoView { picking: false, ..self.todo }, ..self }).prepare_todo_list()
    }

    /// The daily log cursor one day up (the first day stays selected).
    pub open spec fn daily_log_cursor_up(self) -> AppView {
        (AppView {
                daily_log: DailyLogView { cursor: sat_sub(self.daily_log.cursor as int, 1) as usize, ..self.daily_log },
                ..self
            })
    }

    /// The daily log cursor one past day down (the last one stays selected).
    pub open spec fn daily_log_cursor_down(self) -> AppView {
        (if self.past_days().len() > 0 && self.daily_log.cursor < self.past_days().len() - 1 {
                AppView {
                    daily_log: DailyLogView { cursor: (self.daily_log.cursor + 1) as usize, ..self.daily_log },
                    ..self
                }
            } else {
                self
            })
    }
}

impl AppView {
    /// The typed directory accepted: refused with an error when empty after trimming,
    /// otherwise to be prepared (with the settings to save there when persisting).
    pub open spec fn onboarding_confirmed(self) -> AppView {
        if trim(self.onboarding.input_buffer).len() == 0 {
            AppView { onboarding: OnboardingView { error: Some("Path cannot be empty"@), ..self.onboarding }, ..self }
        } else {
            self.with_effect(
                EffectView::PrepareLogDir(
                    trim(self.onboarding.input_buffer),
                    if self.persist { Some(self.config()) } else { None },
                ),
            )
        }
    }

    /// The log directory `path` prepared: it becomes the one in use, the saved totals
    /// and todo list are loaded (when persisting), and the todo list shows.
    pub open spec fn dir_ready(self, path: Seq<char>) -> AppView {
        AppView {
            screen: Screen::TodoList,
            ..(if self.persist {
                AppView { log_dir: path, ..self }.with_effect(EffectView::LoadDailyStats).with_effect(EffectView::LoadTodos)
            } else {
                AppView { log_dir: path, ..self }
            })
        }
    }

    /// The typed name dropped: back to the timer when renaming, to the task picker otherwise.
    pub open spec fn skip_task_input(self) -> AppView {
        if self.renaming_task {
            AppView { task_input_buffer: Seq::empty(), renaming_task: false, screen: Screen::Timer, ..self }
        } else {
            AppView { task_input_buffer: Seq::empty(), ..self }.return_to_task_picker()
        }
    }

    /// Five minutes of a running work phase not counted (nothing happens otherwise).
    pub open spec fn distracted(self) -> AppView {
        if self.active_work() {
            AppView {
                timer: TimerView { pause_accumulated: sat_add(self.timer.pause_accumulated as int, 300000) as u64, ..self.timer },
                ..self
            }
        } else {
            self
        }
    }

    /// Five minutes taken off a running work phase, down to one minute (nothing happens otherwise).
    pub open spec fn shortened(self) -> AppView {
        if self.active_work() {
            AppView { current_work_secs: max_int(sat_sub(self.current_work_secs as int, 300), 60) as u64, ..self }
        } else {
            self
        }
    }

    /// The task name input opened to rename a running work phase's task (nothing happens otherwise).
    pub open spec fn rename_task(self) -> AppView {
        if self.active_work() {
            AppView { renaming_task: true, task_input_buffer: self.current_task, screen: Screen::TaskInput, ..self }
        } else {
            self
        }
    }

    /// A running work phase ended as completed and its break started (nothing happens otherwise).
    pub open spec fn confirm_break(self) -> AppView {
        if self.active_work() {
            self.record_and_log_work(self.elapsed(), Outcome::Completed).advance_phase().reset_timer().notify_break_start()
        } else {
            self
        }
    }

    /// The todo cursor one entry down (the last entry stays selected).
    pub open spec fn todo_down(self) -> AppView {
        if self.todo.items.len() > 0 {
            AppView {
                todo: TodoView { cursor: min_int(self.todo.cursor + 1, self.todo.items.len() - 1) as usize, ..self.todo },
                ..self
            }
        } else {
            self
        }
    }

    /// Editing the todo under the cursor, its text in the input.
    pub open spec fn todo_start_edit(self) -> AppView {
        if self.todo.items.len() > 0 {
            AppView {
                todo: TodoView {
                    input_buffer: self.todo.items[self.todo.cursor as int].text,
                    mode: TodoMode::Editing(self.todo.cursor),
                    ..self.todo
                },
                ..self
            }
        } else {
            self
        }
    }

    /// The todo under the cursor deleted (the cursor moves up when it was on the last
    /// entry) and the list saved.
    pub open spec fn todo_deleted(self) -> AppView {
        if self.todo.items.len() > 0 {
            AppView {
                todo: TodoView {
                    items: self.todo.items.remove(self.todo.cursor as int),
                    cursor: if self.todo.cursor >= self.todo.items.len() - 1 && self.todo.cursor > 0 {
                        (self.todo.cursor - 1) as usize
                    } else {
                        self.todo.cursor
                    },
                    ..self.todo
                },
                ..self
            }.persist_todos()
        } else {
            self
        }
    }

    /// Enter on a todo: when picking, its text becomes the task and the setup screen
    /// shows; otherwise it is toggled.
    pub open spec fn todo_selected(self) -> AppView {
        if self.todo.items.len() == 0 {
            self
        } else if self.todo.picking {
            AppView { current_task: self.todo.items[self.todo.cursor as int].text, screen: Screen::Setup, ..self }
        } else {
            self.todo_toggled()
        }
    }

    /// Esc on the todo list: quitting when picking, back to the timer otherwise.
    pub open spec fn todo_back(self) -> AppView {
        if self.todo.picking {
            AppView { should_quit: true, ..self }
        } else {
            AppView { screen: Screen::Timer, ..self }
        }
    }

    /// When picking, an empty task name input for a task not on the list.
    pub open spec fn todo_custom_task(self) -> AppView {
        if self.todo.picking {
            AppView { task_input_buffer: Seq::empty(), screen: Screen::TaskInput, ..self }
        } else {
            self
        }
    }
}

impl App {
    fn with_config(cfg: &Config, clock: Clock, persist: bool) -> (r: Self)
        ensures
            r@ == initial_view(cfg@, clock@, persist),
    {
        let timer = TimerState::new(&clock);
        let r = App {
            work_secs: cfg.work_secs,
            current_work_secs: cfg.work_secs,
            break_secs: cfg.break_secs,
            long_break_secs: cfg.long_break_secs,
            sessions_before_long: if cfg.sessions_before_long >= 1 { cfg.sessions_before_long } else { 1 },
            log_dir: cfg.log_dir.clone(),
            phase: Phase::Work,
            session: 1,
            paused: false,
            should_quit: false,
            confirm_quit: false,
            timer: timer,
            history: Vec::new(),
            screen: Screen::TodoList,
            selected_field: SetupField::Work,
            daily_stats: DailyStats::new(),
            persist: persist,
            current_task: String::new(),
            task_input_buffer: String::new(),
            notes_input_buffer: String::new(),
            renaming_task: false,
            pending: PendingEntry::new(),
            todo: TodoState::new(),
            daily_log: DailyLogState::new(),
            onboarding: OnboardingState::new(cfg.log_dir.as_str()),
            manual_break: false,
            last_date: String::new(),
            clock: clock,
            effects: Vec::new(),
        };
        assert(history_views(r.history@) =~= Seq::empty());
        assert(effect_views(r.effects@) =~= Seq::empty());
        assert(r@ =~= initial_view(cfg@, clock@, persist));
        r
    }

    /// The application as it starts: with the saved settings (the log directory among
    /// them), persisting its work. On a first run it asks for the log directory;
    /// otherwise it asks for the saved daily totals and todo list to be loaded.
    pub fn new(cfg: &Config, first_run: bool, clock: Clock) -> (r: Self)
        ensures
            first_run ==> r@ == (AppView {
                screen: Screen::Onboarding,
                last_date: clock@.date,
                ..initial_view(cfg@, clock@, true)
            }),
            !first_run ==> r@ == (AppView {
                last_date: clock@.date,
                effects: seq![EffectView::LoadDailyStats, EffectView::LoadTodos],
                ..initial_view(cfg@, clock@, true)
            }),
    {
        let today = clock.date.clone();
        let mut app = Self::with_config(cfg, clock, true);
        if first_run {
            app.screen = Screen::Onboarding;
        } else {
            app.push_effect(Effect::LoadDailyStats);
            app.push_effect(Effect::LoadTodos);
        }
        app.last_date = today;
        proof {
            if !first_run {
                assert(app@.effects =~= seq![EffectView::LoadDailyStats, EffectView::LoadTodos]);
            }
        }
        app
    }

    /// An application that persists nothing, with the given lengths in minutes,
    /// the default log directory and a clock at time zero.
    pub fn with_test_config(work_mins: u64, break_mins: u64, long_break_mins: u64, sessions_before_long: u32) -> (r: Self)
        requires
            work_mins * 60 <= u64::MAX,
            break_mins * 60 <= u64::MAX,
            long_break_mins * 60 <= u64::MAX,
        ensures
            r@ == initial_view(
                ConfigView {
                    work_secs: (work_mins * 60) as u64,
                    break_secs: (break_mins * 60) as u64,
                    long_break_secs: (long_break_mins * 60) as u64,
                    sessions_before_long: sessions_before_long,
                    log_dir: "/Users/alvisf/Documents/Notes/daily-logs"@,
                },
                ClockView { now_ms: 0, time_hm: Seq::empty(), time_12h: Seq::empty(), date: Seq::empty() },
                false,
            ),
    {
        let cfg = Config {
            work_secs: work_mins * 60,
            break_secs: break_mins * 60,
            long_break_secs: long_break_mins * 60,
            sessions_before_long: sessions_before_long,
            log_dir: store::default_log_dir(),
        };
        Self::with_config(&cfg, Clock::start(), false)
    }

    /// The settings as they stand.
    pub fn current_config(&self) -> (r: Config)
        ensures
            r@ == self@.config(),
    {
        Config {
            work_secs: self.work_secs,
            break_secs: self.break_secs,
            long_break_secs: self.long_break_secs,
            sessions_before_long: self.sessions_before_long,
            log_dir: self.log_dir.clone(),
        }
    }

    /// Whether the application persists its work (the one built by `new` does).
    pub fn persists(&self) -> (r: bool)
        ensures
            r == self@.persist,
    {
        self.persist
    }

    /// Length of the current work phase in seconds.
    pub fn current_work_secs(&self) -> (r: u64)
        ensures
            r == self@.current_work_secs,
    {
        self.current_work_secs
    }

    /// Takes a new reading of the clock; nothing else changes.
    pub fn set_clock(&mut self, clock: Clock)
        ensures
            final(self)@ == (AppView { clock: clock@, ..old(self)@ }),
    {
        self.clock = clock;
    }

    /// Takes out the queued effects, oldest first, leaving none queued.
    pub fn take_effects(&mut self) -> (r: Vec<Effect>)
        ensures
            effect_views(r@) == old(self)@.effects,
            final(self)@ == (AppView { effects: Seq::empty(), ..old(self)@ }),
    {
        let mut r: Vec<Effect> = Vec::new();
        std::mem::swap(&mut r, &mut self.effects);
        assert(effect_views(self.effects@) =~= Seq::empty());
        r
    }

    /// Takes the saved todo list (what a `LoadTodos` effect read).
    pub fn load_todos(&mut self, items: Vec<TodoItem>)
        ensures
            final(self)@ == (AppView { todo: TodoView { items: todo_views(items@), ..old(self)@.todo }, ..old(self)@ }),
    {
        self.todo.items = items;
    }

    /// Takes the daily totals read from the logs (what a `LoadDailyStats` effect read).
    pub fn load_daily_stats(&mut self, stats: DailyStats)
        ensures
            final(self)@ == (AppView { daily_stats: stats@, ..old(self)@ }),
    {
        self.daily_stats = stats;
    }

    fn push_effect(&mut self, e: Effect)
        ensures
            final(self)@ == old(self)@.with_effect(e@),
    {
        self.effects.push(e);
        assert(effect_views(self.effects@) =~= effect_views(old(self).effects@).push(e@));
    }

    fn push_history(&mut self, h: HistoryEntry)
        ensures
            final(self)@ == (AppView { history: old(self)@.history.push(h@), ..old(self)@ }),
    {
        self.history.push(h);
        assert(history_views(self.history@) =~= history_views(old(self).history@).push(h@));
    }

    // -- Timer --

    /// Length of the current phase in seconds.
    pub fn phase_total_secs(&self) -> (r: u64)
        ensures
            r == self@.phase_total(),
    {
        match self.phase {
            Phase::Work => self.current_work_secs,
            Phase::Break => self.break_secs,
            Phase::LongBreak => self.long_break_secs,
        }
    }

    /// Whole seconds the current phase has run at the clock's time, pauses excluded;
    /// a break never counts past its length.
    pub fn elapsed_secs(&self) -> (r: u64)
        ensures
            r == self@.elapsed(),
    {
        let now = self.clock.now_ms;
        let extra: u64 = match self.timer.pause_start {
            Some(ps) => if now >= ps { now - ps } else { 0 },
            None => 0,
        };
        let acc = self.timer.pause_accumulated;
        let total_paused: u64 = if acc <= u64::MAX - extra { acc + extra } else { u64::MAX };
        let since_start: u64 = if now >= self.timer.phase_start { now - self.timer.phase_start } else { 0 };
        let raw: u64 = (if since_start >= total_paused { since_start - total_paused } else { 0 }) / 1000;
        if self.phase == Phase::Work || self.manual_break {
            raw
        } else {
            let total = self.phase_total_secs();
            if raw <= total { raw } else { total }
        }
    }

    /// Seconds left in the current phase.
    pub fn remaining_secs(&self) -> (r: u64)
        ensures
            r == self@.remaining(),
    {
        let total = self.phase_total_secs();
        let e = self.elapsed_secs();
        if total >= e { total - e } else { 0 }
    }

    /// Seconds the current phase has run past its length.
    pub fn overtime_secs(&self) -> (r: u64)
        ensures
            r == self@.overtime(),
    {
        let total = self.phase_total_secs();
        let e = self.elapsed_secs();
        if e >= total { e - total } else { 0 }
    }

    /// Whether a work phase has reached its length.
    pub fn is_overtime(&self) -> (r: bool)
        ensures
            r == self@.is_overtime(),
    {
        self.phase == Phase::Work && self.elapsed_secs() >= self.phase_total_secs()
    }

    fn is_in_active_work(&self) -> (r: bool)
        ensures
            r == self@.active_work(),
    {
        self.phase == Phase::Work && !self.manual_break
    }

    fn reset_timer(&mut self)
        ensures
            final(self)@ == old(self)@.reset_timer(),
    {
        self.timer.reset(&self.clock);
        self.paused = false;
    }

    fn record_work(&mut self, secs: u64, end_wall: &str, outcome: Outcome)
        requires
            old(self)@.can_add_today(secs, 0),
        ensures
            final(self)@ == old(self)@.record_work(secs, end_wall@, outcome),
    {
        if self.persist {
            let e = WorkEntry {
                date: self.clock.date.clone(),
                start_time: self.timer.phase_start_wall_12h.clone(),
                end_time: end_wall.to_string(),
                duration_secs: secs,
                task: self.current_task.clone(),
                completed: outcome == Outcome::Completed,
                helping: false,
                notes: String::new(),
            };
            self.push_effect(Effect::SaveWorkEntry(e));
        }
        let today = self.clock.date.clone();
        self.daily_stats.add(today.as_str(), secs, 0, 1);
    }

    fn work_history(&self, elapsed: u64, outcome: Outcome) -> (h: HistoryEntry)
        ensures
            h@ == self@.work_history(elapsed, outcome),
    {
        HistoryEntry {
            session: self.session,
            phase: Phase::Work,
            elapsed_secs: elapsed,
            total_secs: self.phase_total_secs(),
            outcome: outcome,
            task: self.current_task.clone(),
            start_time: self.timer.phase_start_wall.clone(),
            end_time: self.clock.time_hm.clone(),
        }
    }

    fn record_and_log_work(&mut self, elapsed: u64, outcome: Outcome)
        requires
            elapsed > 0 ==> old(self)@.can_add_today(elapsed, 0),
        ensures
            final(self)@ == old(self)@.record_and_log_work(elapsed, outcome),
    {
        let h = self.work_history(elapsed, outcome);
        if elapsed > 0 {
            let end_12h = self.clock.time_12h.clone();
            self.record_work(elapsed, end_12h.as_str(), outcome);
        }
        self.push_history(h);
    }

    fn log_phase_completion(&mut self, elapsed: u64, outcome: Outcome)
        ensures
            final(self)@ == old(self)@.log_phase_completion(elapsed, outcome),
    {
        let h = HistoryEntry {
            session: self.session,
            phase: self.phase,
            elapsed_secs: elapsed,
            total_secs: self.phase_total_secs(),
            outcome: outcome,
            task: String::new(),
            start_time: self.timer.phase_start_wall.clone(),
            end_time: self.clock.time_hm.clone(),
        };
        self.push_history(h);
    }

    fn notify_break_start(&mut self)
        ensures
            final(self)@ == old(self)@.notify_break_start(),
    {
        if !self.persist {
            return;
        }
        match self.phase {
            Phase::LongBreak => {
                let mut m = "Great work! Relax for ".to_string();
                push_dec(&mut m, self.long_break_secs / 60);
                m.append(" min");
                self.push_effect(Effect::Notify("🌴 Long break!".to_string(), m));
            },
            Phase::Break => {
                let mut m = "Relax for ".to_string();
                push_dec(&mut m, self.break_secs / 60);
                m.append(" min");
                self.push_effect(Effect::Notify("☕ Break time!".to_string(), m));
            },
            Phase::Work => {},
        }
    }

    fn notify_break_over(&mut self)
        ensures
            final(self)@ == old(self)@.notify_break_over(),
    {
        if self.persist {
            self.push_effect(Effect::Notify("🍅 Break's over!".to_string(), "Time to get back to work".to_string()));
        }
    }

    fn prepare_todo_list(&mut self)
        ensures
            final(self)@ == old(self)@.prepare_todo_list(),
    {
        self.todo.mode = TodoMode::Normal;
        self.todo.input_buffer = String::new();
        if self.persist {
            self.push_effect(Effect::LoadTodos);
        }
        self.screen = Screen::TodoList;
    }

    // -- Todo list --

    /// Shows the todo list for picking the next task, cursor on the first entry.
    pub fn return_to_task_picker(&mut self)
        ensures
            final(self)@ == old(self)@.return_to_task_picker(),
    {
        self.todo.picking = true;
        self.todo.cursor = 0;
        self.prepare_todo_list();
    }

    /// Shows the todo list for editing, keeping the cursor.
    pub fn open_todo_manager(&mut self)
        ensures
            final(self)@ == old(self)@.open_todo_manager(),
    {
        self.todo.picking = false;
        self.prepare_todo_list();
    }

    fn finish_phase(&mut self, outcome: Outcome)
        requires
            old(self)@.finish_ok(),
        ensures
            final(self)@ == old(self)@.finish_phase(outcome),
    {
        let elapsed = self.elapsed_secs();
        let prev = self.phase;
        if prev == Phase::Work {
            self.record_and_log_work(elapsed, outcome);
        } else {
            self.log_phase_completion(elapsed, outcome);
        }
        self.advance_phase();
        self.reset_timer();
        if prev != Phase::Work && self.phase == Phase::Work {
            self.notify_break_over();
        } else if prev == Phase::Work {
            self.notify_break_start();
        }
        if self.phase == Phase::Work && self.screen == Screen::Timer {
            self.return_to_task_picker();
        }
    }

    fn advance_phase(&mut self)
        requires
            old(self)@.phase == Phase::Work ==> old(self)@.sessions_before_long >= 1,
            old(self)@.phase != Phase::Work ==> old(self)@.session < u32::MAX,
        ensures
            final(self)@ == old(self)@.advance_phase(),
    {
        match self.phase {
            Phase::Work => {
                if self.session % self.sessions_before_long == 0 {
                    self.phase = Phase::LongBreak;
                } else {
                    self.phase = Phase::Break;
                }
            },
            Phase::Break | Phase::LongBreak => {
                self.session = self.session + 1;
                self.phase = Phase::Work;
                self.current_work_secs = self.work_secs;
            },
        }
    }
}


impl App {
    // -- Onboarding screen --

    /// Types a character of the log directory.
    pub fn onboarding_input_char(&mut self, c: char)
        ensures
            final(self)@ == old(self)@.typed_onboarding(c),
    {
        push_char(&mut self.onboarding.input_buffer, c);
        self.onboarding.error = None;
    }

    /// Erases the last character of the log directory.
    pub fn onboarding_input_backspace(&mut self)
        ensures
            final(self)@ == old(self)@.erased_onboarding(),
    {
        crate::text::pop_char(&mut self.onboarding.input_buffer);
        self.onboarding.error = None;
    }

    /// Puts the default log directory back in the input.
    pub fn onboarding_reset_to_default(&mut self)
        ensures
            final(self)@ == old(self)@.reset_onboarding(),
    {
        self.onboarding.input_buffer = store::default_log_dir();
        self.onboarding.error = None;
    }

    /// Accepts the typed directory: an empty one (after trimming) is refused with an
    /// error; otherwise the directory is to be prepared (and the settings saved there
    /// when persisting), and `onboarding_finish` reports how that went.
    pub fn onboarding_confirm(&mut self)
        ensures
            final(self)@ == old(self)@.onboarding_confirmed(),
    {
        let trimmed = trim_string(self.onboarding.input_buffer.as_str());
        if trimmed.as_str().is_empty() {
            self.onboarding.error = Some("Path cannot be empty".to_string());
            return;
        }
        let cfg = if self.persist { Some(self.current_config()) } else { None };
        self.push_effect(Effect::PrepareLogDir(trimmed, cfg));
    }

    /// Takes the outcome of preparing the log directory: an error is shown and the
    /// screen stays; once ready the directory is used, the saved totals and todos are
    /// loaded (when persisting) and the todo list shows.
    pub fn onboarding_finish(&mut self, result: LogDirSetup)
        ensures
            match result {
                LogDirSetup::DirError(e) => final(self)@ == (AppView {
                    onboarding: OnboardingView { error: Some("Could not create directory: "@ + e@), ..old(self)@.onboarding },
                    ..old(self)@
                }),
                LogDirSetup::SaveError(path, e) => final(self)@ == (AppView {
                    log_dir: path@,
                    onboarding: OnboardingView { error: Some("Could not save config: "@ + e@), ..old(self)@.onboarding },
                    ..old(self)@
                }),
                LogDirSetup::Ready(path) => final(self)@ == old(self)@.dir_ready(path@),
            },
    {
        match result {
            LogDirSetup::DirError(e) => {
                let mut msg = "Could not create directory: ".to_string();
                msg.append(e.as_str());
                self.onboarding.error = Some(msg);
            },
            LogDirSetup::SaveError(path, e) => {
                self.log_dir = path;
                let mut msg = "Could not save config: ".to_string();
                msg.append(e.as_str());
                self.onboarding.error = Some(msg);
            },
            LogDirSetup::Ready(path) => {
                self.log_dir = path;
                if self.persist {
                    self.push_effect(Effect::LoadDailyStats);
                    self.push_effect(Effect::LoadTodos);
                }
                self.screen = Screen::TodoList;
            },
        }
    }

    // -- Setup screen --

    /// Moves the setup cursor down (it stops at the last setting).
    pub fn next_field(&mut self)
        ensures
            final(self)@ == old(self)@.next_field(),
    {
        self.selected_field = self.selected_field.next();
    }

    /// Moves the setup cursor up (it stops at the first setting).
    pub fn prev_field(&mut self)
        ensures
            final(self)@ == old(self)@.prev_field(),
    {
        self.selected_field = self.selected_field.prev();
    }

    /// Raises the selected setting by a minute (or a session): work up to 120 min,
    /// breaks up to 60 min, sessions up to 10.
    pub fn increment_field(&mut self)
        requires
            old(self)@.can_increment(),
        ensures
            final(self)@ == old(self)@.incremented(),
    {
        match self.selected_field {
            SetupField::Work => {
                let v = self.work_secs + SECONDS_PER_MINUTE;
                self.work_secs = if v <= MAX_WORK_SECS { v } else { MAX_WORK_SECS };
            },
            SetupField::Break => {
                let v = self.break_secs + SECONDS_PER_MINUTE;
                self.break_secs = if v <= MAX_BREAK_SECS { v } else { MAX_BREAK_SECS };
            },
            SetupField::LongBreak => {
                let v = self.long_break_secs + SECONDS_PER_MINUTE;
                self.long_break_secs = if v <= MAX_BREAK_SECS { v } else { MAX_BREAK_SECS };
            },
            SetupField::SessionsBeforeLong => {
                let v = self.sessions_before_long + 1;
                self.sessions_before_long = if v <= MAX_SESSIONS { v } else { MAX_SESSIONS };
            },
        }
    }

    /// Lowers the selected setting by a minute (or a session): lengths down to one
    /// minute, sessions down to one.
    pub fn decrement_field(&mut self)
        ensures
            final(self)@ == old(self)@.decremented(),
    {
        match self.selected_field {
            SetupField::Work => {
                let v = if self.work_secs >= SECONDS_PER_MINUTE { self.work_secs - SECONDS_PER_MINUTE } else { 0 };
                self.work_secs = if v >= MIN_WORK_SECS { v } else { MIN_WORK_SECS };
            },
            SetupField::Break => {
                let v = if self.break_secs >= SECONDS_PER_MINUTE { self.break_secs - SECONDS_PER_MINUTE } else { 0 };
                self.break_secs = if v >= MIN_BREAK_SECS { v } else { MIN_BREAK_SECS };
            },
            SetupField::LongBreak => {
                let v = if self.long_break_secs >= SECONDS_PER_MINUTE {
                    self.long_break_secs - SECONDS_PER_MINUTE
                } else {
                    0
                };
                self.long_break_secs = if v >= MIN_BREAK_SECS { v } else { MIN_BREAK_SECS };
            },
            SetupField::SessionsBeforeLong => {
                let v = if self.sessions_before_long >= 1 { self.sessions_before_long - 1 } else { 0 };
                self.sessions_before_long = if v >= 1 { v } else { 1 };
            },
        }
    }

    /// Saves the settings (when persisting) and starts a work phase.
    pub fn start_timer(&mut self)
        ensures
            final(self)@ == old(self)@.start_timer(),
    {
        if self.persist {
            let cfg = self.current_config();
            self.push_effect(Effect::SaveConfig(cfg));
        }
        self.begin_work_phase();
    }

    fn begin_work_phase(&mut self)
        ensures
            final(self)@ == old(self)@.begin_work_phase(),
    {
        self.current_work_secs = self.work_secs;
        self.screen = Screen::Timer;
        self.reset_timer();
    }

    // -- Task input --

    /// Types a character of the task name.
    pub fn task_input_char(&mut self, c: char)
        ensures
            final(self)@ == old(self)@.typed_task(c),
    {
        push_char(&mut self.task_input_buffer, c);
    }

    /// Erases the last character of the task name.
    pub fn task_input_backspace(&mut self)
        ensures
            final(self)@ == old(self)@.erased_task(),
    {
        crate::text::pop_char(&mut self.task_input_buffer);
    }

    /// Takes the typed name (trimmed) as the current task: back to the timer when
    /// renaming, on to the setup screen otherwise.
    pub fn submit_task(&mut self)
        ensures
            final(self)@ == old(self)@.submit_task(),
    {
        self.current_task = trim_string(self.task_input_buffer.as_str());
        self.task_input_buffer = String::new();
        if self.renaming_task {
            self.renaming_task = false;
            self.screen = Screen::Timer;
        } else {
            self.screen = Screen::Setup;
        }
    }

    /// Drops the typed name: back to the timer when renaming, to the task picker otherwise.
    pub fn skip_task_input(&mut self)
        ensures
            final(self)@ == old(self)@.skip_task_input(),
    {
        self.task_input_buffer = String::new();
        if self.renaming_task {
            self.renaming_task = false;
            self.screen = Screen::Timer;
        } else {
            self.return_to_task_picker();
        }
    }
}


/// Number of work sessions in `h` that ended completed or helping.
pub open spec fn count_completed_work(h: Seq<HistoryView>) -> nat
    decreases h.len(),
{
    if h.len() == 0 {
        0
    } else {
        count_completed_work(h.drop_last()) + if h.last().phase == Phase::Work && (h.last().outcome == Outcome::Completed
            || h.last().outcome == Outcome::Helping) {
            1nat
        } else {
            0nat
        }
    }
}

impl App {
    // -- Timer --

    /// One tick of the event loop: detects a sleep of the machine, a new day, a break
    /// that has run out, and a work phase that has just run out.
    pub fn tick(&mut self)
        requires
            old(self)@.tick_ok(),
        ensures
            final(self)@ == old(self)@.tick(),
    {
        self.handle_sleep_gap();
        self.check_date_change();
        self.auto_complete_break();
        self.check_overtime_notification();
    }

    fn handle_sleep_gap(&mut self)
        requires
            old(self)@.sleep_gap_ok(),
        ensures
            final(self)@ == old(self)@.handle_sleep_gap(),
    {
        let now = self.clock.now_ms;
        let gap: u64 = if now >= self.timer.last_tick { now - self.timer.last_tick } else { 0 };
        self.timer.last_tick = now;
        if gap < SLEEP_THRESHOLD_MS {
            return;
        }
        if self.is_in_active_work() && !self.paused {
            let extra: u64 = if gap >= 1000 { gap - 1000 } else { 0 };
            let acc = self.timer.pause_accumulated;
            self.timer.pause_accumulated = if acc <= u64::MAX - extra { acc + extra } else { u64::MAX };
            self.finish_phase(Outcome::Completed);
        }
    }

    fn check_date_change(&mut self)
        ensures
            final(self)@ == old(self)@.check_date_change(),
    {
        if !self.persist {
            return;
        }
        let today = self.clock.date.clone();
        if !self.last_date.as_str().is_empty() && self.last_date != today {
            self.session = 1;
            self.history = Vec::new();
            assert(history_views(self.history@) =~= Seq::empty());
            self.push_effect(Effect::LoadDailyStats);
            self.push_effect(Effect::LoadTodos);
        }
        self.last_date = today;
    }

    fn auto_complete_break(&mut self)
        requires
            old(self)@.break_done() ==> old(self)@.session < u32::MAX,
        ensures
            final(self)@ == old(self)@.auto_complete_break(),
    {
        if !self.paused && self.remaining_secs() == 0 && self.phase != Phase::Work && !self.manual_break {
            self.finish_phase(Outcome::Completed);
        }
    }

    fn check_overtime_notification(&mut self)
        ensures
            final(self)@ == old(self)@.check_overtime_notification(),
    {
        if self.persist && self.is_in_active_work() && self.is_overtime() && !self.timer.overtime_notified {
            self.timer.overtime_notified = true;
            self.push_effect(Effect::Notify("⏰ Time's up!".to_string(), "Take a break when you're ready".to_string()));
        }
    }

    /// Pauses the timer, or resumes it adding the pause to the paused time.
    pub fn toggle_pause(&mut self)
        ensures
            final(self)@ == old(self)@.toggled_pause(),
    {
        if self.paused {
            if let Some(ps) = self.timer.pause_start {
                let now = self.clock.now_ms;
                let d: u64 = if now >= ps { now - ps } else { 0 };
                let acc = self.timer.pause_accumulated;
                self.timer.pause_accumulated = if acc <= u64::MAX - d { acc + d } else { u64::MAX };
            }
            self.timer.pause_start = None;
            self.paused = false;
        } else {
            self.timer.pause_start = Some(self.clock.now_ms);
            self.paused = true;
        }
    }

    /// A distraction: five minutes of the running work phase do not count.
    pub fn distraction(&mut self)
        ensures
            final(self)@ == old(self)@.distracted(),
    {
        if !self.is_in_active_work() {
            return;
        }
        let acc = self.timer.pause_accumulated;
        let d: u64 = DISTRACTION_SECS * 1000;
        self.timer.pause_accumulated = if acc <= u64::MAX - d { acc + d } else { u64::MAX };
    }

    /// Takes five minutes off the running work phase, down to one minute.
    pub fn shorten_work(&mut self)
        ensures
            final(self)@ == old(self)@.shortened(),
    {
        if !self.is_in_active_work() {
            return;
        }
        let v = if self.current_work_secs >= WRAP_UP_SECS { self.current_work_secs - WRAP_UP_SECS } else { 0 };
        self.current_work_secs = if v >= MIN_WORK_SECS { v } else { MIN_WORK_SECS };
    }

    /// Opens the task name input to rename the running work phase's task.
    pub fn rename_task(&mut self)
        ensures
            final(self)@ == old(self)@.rename_task(),
    {
        if !self.is_in_active_work() {
            return;
        }
        self.renaming_task = true;
        self.task_input_buffer = self.current_task.clone();
        self.screen = Screen::TaskInput;
    }

    /// Ends the current phase as skipped.
    pub fn skip_phase(&mut self)
        requires
            old(self)@.finish_ok(),
        ensures
            final(self)@ == old(self)@.finish_phase(Outcome::Skipped),
    {
        self.finish_phase(Outcome::Skipped);
    }

    /// Ends the running work phase as completed and starts the break.
    pub fn confirm_break(&mut self)
        requires
            old(self)@.active_work() ==> old(self)@.finish_ok(),
        ensures
            final(self)@ == old(self)@.confirm_break(),
    {
        if !self.is_in_active_work() {
            return;
        }
        let elapsed = self.elapsed_secs();
        self.record_and_log_work(elapsed, Outcome::Completed);
        self.advance_phase();
        self.reset_timer();
        self.notify_break_start();
    }

    /// The position of the current session in its cycle, from 1 to `sessions_before_long`.
    pub fn sessions_in_cycle(&self) -> (r: u32)
        requires
            self@.session >= 1,
            self@.sessions_before_long >= 1,
        ensures
            r == (self@.session - 1) % (self@.sessions_before_long as int) + 1,
    {
        ((self.session - 1) % self.sessions_before_long) + 1
    }

    /// Number of work sessions in the history that ended completed or helping.
    pub fn completed_work_sessions(&self) -> (r: usize)
        ensures
            r == count_completed_work(self@.history),
    {
        let mut n: usize = 0;
        let mut i: usize = 0;
        let ghost h = self@.history;
        while i < self.history.len()
            invariant
                i <= self.history@.len(),
                h == history_views(self.history@),
                n == count_completed_work(h.take(i as int)),
                n <= i,
            decreases self.history@.len() - i,
        {
            let e = &self.history[i];
            assert(h.take(i + 1).drop_last() == h.take(i as int));
            assert(h[i as int] == e@);
            if e.phase == Phase::Work && (e.outcome == Outcome::Completed || e.outcome == Outcome::Helping) {
                n = n + 1;
            }
            i = i + 1;
        }
        assert(h.take(i as int) == h);
        n
    }
}


/// The dates before or after `today` in `s`, latest first.
pub open spec fn past_days(s: Seq<(Seq<char>, DayStats)>, today: Seq<char>) -> Seq<Seq<char>>
    decreases s.len(),
{
    if s.len() == 0 {
        seq![]
    } else {
        let rest = past_days(s.drop_last(), today);
        if s.last().0 != today {
            seq![s.last().0] + rest
        } else {
            rest
        }
    }
}

/// Position of the first `d` in `s` (`s.len()` when absent).
pub open spec fn position_of(s: Seq<Seq<char>>, d: Seq<char>) -> int
    decreases s.len(),
{
    if s.len() == 0 || s[0] == d {
        0
    } else {
        1 + position_of(s.drop_first(), d)
    }
}

/// `position_of` finds `d` at `k` when `k` is its first occurrence, or the length when
/// `d` does not occur.
pub proof fn lemma_position_of(s: Seq<Seq<char>>, d: Seq<char>, k: int)
    requires
        0 <= k <= s.len(),
        forall|j: int| 0 <= j < k ==> s[j] != d,
        k < s.len() ==> s[k] == d,
    ensures
        position_of(s, d) == k,
    decreases k,
{
    if k > 0 {
        lemma_position_of(s.drop_first(), d, k - 1);
    }
}

impl AppView {
    /// The todo list saved, when persisting.
    pub open spec fn persist_todos(self) -> AppView {
        if self.persist {
            self.with_effect(EffectView::SaveTodos)
        } else {
            self
        }
    }

    /// The todo cursor is on an entry whenever there is one.
    pub open spec fn todo_cursor_ok(self) -> bool {
        self.todo.items.len() > 0 ==> self.todo.cursor < self.todo.items.len()
    }

    /// What confirming the todo input does: an empty (trimmed) text just leaves input
    /// mode; otherwise it is added as a new open entry (and selected), or replaces the
    /// text of the entry being edited, and the list is saved.
    pub open spec fn todo_confirmed(self) -> AppView {
        let text = trim(self.todo.input_buffer);
        if text.len() == 0 {
            AppView { todo: TodoView { mode: TodoMode::Normal, input_buffer: Seq::empty(), ..self.todo }, ..self }
        } else {
            let t2 = todo_with_text(self.todo, text);
            AppView { todo: TodoView { mode: TodoMode::Normal, input_buffer: Seq::empty(), ..t2 }, ..self }.persist_todos()
        }
    }

    /// The entry under the cursor marked done or open again, and the list saved.
    pub open spec fn todo_toggled(self) -> AppView {
        if self.todo.items.len() == 0 {
            self
        } else {
            let c = self.todo.cursor as int;
            AppView {
                todo: TodoView {
                    items: self.todo.items.update(c, TodoItemView { done: !self.todo.items[c].done, ..self.todo.items[c] }),
                    ..self.todo
                },
                ..self
            }.persist_todos()
        }
    }

    /// The past days of the daily log, latest first.
    pub open spec fn past_days(self) -> Seq<Seq<char>> {
        past_days(self.daily_stats, self.clock.date)
    }

    /// The past day under the daily log cursor expanded, or folded when it was expanded
    /// (nothing happens when the cursor is on no past day).
    pub open spec fn toggled_expand(self) -> AppView {
        let days = self.past_days();
        let c = self.daily_log.cursor as int;
        let ex = self.daily_log.expanded;
        if c < days.len() {
            let p = position_of(ex, days[c]);
            AppView {
                daily_log: DailyLogView { expanded: if p < ex.len() { ex.remove(p) } else { ex.push(days[c]) }, ..self.daily_log },
                ..self
            }
        } else {
            self
        }
    }
}

impl App {
    fn persist_todos(&mut self)
        ensures
            final(self)@ == old(self)@.persist_todos(),
    {
        if self.persist {
            self.push_effect(Effect::SaveTodos);
        }
    }

    /// Whether the todo list is taking text input.
    pub fn todo_is_input_mode(&self) -> (r: bool)
        ensures
            r == !(self@.todo.mode is Normal),
    {
        match self.todo.mode {
            TodoMode::Normal => false,
            _ => true,
        }
    }

    /// Moves the todo cursor up (it stops at the first entry).
    pub fn todo_up(&mut self)
        ensures
            final(self)@ == old(self)@.todo_up(),
    {
        self.todo.cursor = if self.todo.cursor >= 1 { self.todo.cursor - 1 } else { 0 };
    }

    /// Moves the todo cursor down (it stops at the last entry).
    pub fn todo_down(&mut self)
        requires
            old(self)@.todo.items.len() > 0 ==> old(self)@.todo.cursor < usize::MAX,
        ensures
            final(self)@ == old(self)@.todo_down(),
    {
        if self.todo.items.len() > 0 {
            let next = self.todo.cursor + 1;
            let last = self.todo.items.len() - 1;
            self.todo.cursor = if next <= last { next } else { last };
        }
    }

    /// Starts typing a new todo.
    pub fn todo_start_add(&mut self)
        ensures
            final(self)@ == old(self)@.todo_start_add(),
    {
        self.todo.input_buffer = String::new();
        self.todo.mode = TodoMode::Adding;
    }

    /// Starts editing the todo under the cursor, its text in the input.
    pub fn todo_start_edit(&mut self)
        requires
            old(self)@.todo_cursor_ok(),
        ensures
            final(self)@ == old(self)@.todo_start_edit(),
    {
        if self.todo.items.len() == 0 {
            return;
        }
        let c = self.todo.cursor;
        self.todo.input_buffer = self.todo.items[c].text.clone();
        self.todo.mode = TodoMode::Editing(c);
    }

    /// Types a character of the todo text.
    pub fn todo_input_char(&mut self, c: char)
        ensures
            final(self)@ == old(self)@.typed_todo(c),
    {
        push_char(&mut self.todo.input_buffer, c);
    }

    /// Erases the last character of the todo text.
    pub fn todo_input_backspace(&mut self)
        ensures
            final(self)@ == old(self)@.erased_todo(),
    {
        crate::text::pop_char(&mut self.todo.input_buffer);
    }

    /// Confirms the typed todo text (see `AppView::todo_confirmed`).
    pub fn todo_confirm_input(&mut self)
        ensures
            final(self)@ == old(self)@.todo_confirmed(),
    {
        let text = trim_string(self.todo.input_buffer.as_str());
        if text.as_str().is_empty() {
            self.todo.mode = TodoMode::Normal;
            self.todo.input_buffer = String::new();
            return;
        }
        self.todo.apply_text(text);
        self.todo.mode = TodoMode::Normal;
        self.todo.input_buffer = String::new();
        self.persist_todos();
    }

    /// Leaves todo input mode, dropping the typed text.
    pub fn todo_cancel_input(&mut self)
        ensures
            final(self)@ == old(self)@.todo_cancelled(),
    {
        self.todo.mode = TodoMode::Normal;
        self.todo.input_buffer = String::new();
    }

    /// Deletes the todo under the cursor (the cursor moves up when it was on the last
    /// entry) and saves the list.
    pub fn todo_delete(&mut self)
        requires
            old(self)@.todo_cursor_ok(),
        ensures
            final(self)@ == old(self)@.todo_deleted(),
    {
        if self.todo.items.len() == 0 {
            return;
        }
        let ghost items0 = self@.todo.items;
        let c = self.todo.cursor;
        self.todo.items.remove(c);
        assert(todo_views(self.todo.items@) =~= items0.remove(c as int));
        if self.todo.cursor >= self.todo.items.len() && self.todo.cursor > 0 {
            self.todo.cursor = self.todo.cursor - 1;
        }
        self.persist_todos();
    }

    /// Marks the todo under the cursor done, or open again, and saves the list.
    pub fn todo_toggle(&mut self)
        requires
            old(self)@.todo_cursor_ok(),
        ensures
            final(self)@ == old(self)@.todo_toggled(),
    {
        if self.todo.items.len() == 0 {
            return;
        }
        let ghost items0 = self@.todo.items;
        let c = self.todo.cursor;
        let d = !self.todo.items[c].done;
        self.todo.items[c].done = d;
        assert(todo_views(self.todo.items@) =~= items0.update(c as int, TodoItemView { done: d, ..items0[c as int] }));
        self.persist_todos();
    }

    /// Enter on a todo: when picking, its text becomes the task and the setup screen
    /// shows; otherwise it is toggled.
    pub fn todo_select(&mut self)
        requires
            old(self)@.todo_cursor_ok(),
        ensures
            final(self)@ == old(self)@.todo_selected(),
    {
        if self.todo.items.len() == 0 {
            return;
        }
        if self.todo.picking {
            self.current_task = self.todo.items[self.todo.cursor].text.clone();
            self.screen = Screen::Setup;
        } else {
            self.todo_toggle();
        }
    }

    /// Esc on the todo list: quits when picking, back to the timer otherwise.
    pub fn todo_back(&mut self)
        ensures
            final(self)@ == old(self)@.todo_back(),
    {
        if self.todo.picking {
            self.should_quit = true;
        } else {
            self.screen = Screen::Timer;
        }
    }

    /// When picking, opens an empty task name input for a task not on the list.
    pub fn todo_custom_task(&mut self)
        ensures
            final(self)@ == old(self)@.todo_custom_task(),
    {
        if !self.todo.picking {
            return;
        }
        self.task_input_buffer = String::new();
        self.screen = Screen::TaskInput;
    }

    // -- Daily log --

    /// Opens the daily log, remembering the screen to return to.
    pub fn open_daily_log(&mut self)
        ensures
            final(self)@ == old(self)@.open_daily_log(),
    {
        self.daily_log.return_from = self.screen;
        self.daily_log.cursor = 0;
        self.daily_log.expanded = Vec::new();
        assert(string_views(self.daily_log.expanded@) =~= Seq::empty());
        self.screen = Screen::DailyLog;
    }

    /// Closes the daily log, back to the screen it was opened from.
    pub fn close_daily_log(&mut self)
        ensures
            final(self)@ == old(self)@.close_daily_log(),
    {
        self.screen = self.daily_log.return_from;
    }

    /// Moves the daily log cursor up (it stops at the first day).
    pub fn daily_log_cursor_up(&mut self)
        ensures
            final(self)@ == old(self)@.daily_log_cursor_up(),
    {
        self.daily_log.cursor = if self.daily_log.cursor >= 1 { self.daily_log.cursor - 1 } else { 0 };
    }

    /// The dates in the daily totals other than today, latest first.
    pub fn past_days(&self) -> (r: Vec<String>)
        ensures
            string_views(r@) == self@.past_days(),
    {
        let ghost s = self.daily_stats@;
        let ghost today = self.clock.date@;
        let mut days: Vec<String> = Vec::new();
        let mut i: usize = self.daily_stats.len();
        assert(s.take(i as int) == s);
        while i > 0
            invariant
                i <= s.len(),
                s == self.daily_stats@,
                today == self.clock.date@,
                past_days(s, today) == string_views(days@) + past_days(s.take(i as int), today),
            decreases i,
        {
            let d = self.daily_stats.date_at(i - 1);
            let ghost before = days@;
            assert(s.take(i as int).drop_last() == s.take(i - 1));
            assert(s.take(i as int).last() == s[i - 1]);
            if *d != self.clock.date {
                days.push(d.clone());
                assert(string_views(days@) == string_views(before).push(d@));
                assert(string_views(days@) + past_days(s.take(i - 1), today) =~= string_views(before) + past_days(
                    s.take(i as int),
                    today,
                ));
            }
            i = i - 1;
        }
        assert(past_days(s.take(0), today) == Seq::<Seq<char>>::empty());
        assert(string_views(days@) + Seq::<Seq<char>>::empty() == string_views(days@));
        days
    }

    /// Moves the daily log cursor down (it stops at the last past day).
    pub fn daily_log_cursor_down(&mut self)
        ensures
            final(self)@ == old(self)@.daily_log_cursor_down(),
    {
        let days = self.past_days();
        let n = days.len();
        if n > 0 && self.daily_log.cursor < n - 1 {
            self.daily_log.cursor = self.daily_log.cursor + 1;
        }
    }

    /// Expands or folds the past day under the daily log cursor.
    pub fn daily_log_toggle_expand(&mut self)
        ensures
            final(self)@ == old(self)@.toggled_expand(),
    {
        let days = self.past_days();
        let c = self.daily_log.cursor;
        if c >= days.len() {
            return;
        }
        let ghost ex = self@.daily_log.expanded;
        let ghost target = days@[c as int]@;
        assert(string_views(days@)[c as int] == target);
        let mut p: usize = 0;
        let n = self.daily_log.expanded.len();
        while p < n
            invariant
                p <= n == self.daily_log.expanded@.len(),
                c < days@.len(),
                ex == string_views(self.daily_log.expanded@),
                ex == old(self)@.daily_log.expanded,
                target == days@[c as int]@,
                string_views(days@) == old(self)@.past_days(),
                c == old(self)@.daily_log.cursor,
                forall|j: int| 0 <= j < p ==> ex[j] != target,
                self@ == old(self)@,
            decreases n - p,
        {
            assert(ex[p as int] == self.daily_log.expanded@[p as int]@);
            if self.daily_log.expanded[p] == days[c] {
                proof {
                    lemma_position_of(ex, target, p as int);
                }
                self.daily_log.expanded.remove(p);
                assert(string_views(self.daily_log.expanded@) =~= ex.remove(p as int));
                return;
            }
            p = p + 1;
        }
        proof {
            lemma_position_of(ex, target, p as int);
        }
        self.daily_log.expanded.push(days[c].clone());
        assert(string_views(self.daily_log.expanded@) =~= ex.push(target));
    }
}


impl App {
    // -- Quitting --

    /// Asks for confirmation before quitting.
    pub fn request_quit(&mut self)
        ensures
            final(self)@ == old(self)@.request_quit(),
    {
        self.confirm_quit = true;
    }

    /// Dismisses the quit confirmation.
    pub fn cancel_quit(&mut self)
        ensures
            final(self)@ == old(self)@.cancel_quit(),
    {
        self.confirm_quit = false;
    }

    /// Dismisses the quit confirmation and ends the running work session.
    pub fn confirm_quit_end_session(&mut self)
        requires
            old(self)@.complete_ok(Outcome::Completed),
        ensures
            final(self)@ == old(self)@.confirm_quit_end_session(),
    {
        self.confirm_quit = false;
        self.end_task();
    }

    /// Whether a work phase is under way on the timer or daily log screen.
    pub fn has_active_work_session(&self) -> (r: bool)
        ensures
            r == self@.has_active_work_session(),
    {
        self.is_in_active_work() && (self.screen == Screen::Timer || self.screen == Screen::DailyLog)
    }

    // -- Manual break --

    /// Starts an open-ended break on the timer screen.
    pub fn start_manual_break(&mut self)
        ensures
            final(self)@ == old(self)@.start_manual_break(),
    {
        self.manual_break = true;
        self.screen = Screen::Timer;
        self.reset_timer();
    }

    /// Ends the open-ended break, back to the task picker.
    pub fn end_manual_break(&mut self)
        ensures
            final(self)@ == old(self)@.end_manual_break(),
    {
        self.manual_break = false;
        self.return_to_task_picker();
    }

    // -- Ending a work session early, with notes --

    /// Ends the running work session as completed and asks for notes.
    pub fn end_task(&mut self)
        requires
            old(self)@.complete_ok(Outcome::Completed),
        ensures
            final(self)@ == old(self)@.complete_work_session(Outcome::Completed),
    {
        self.complete_work_session(Outcome::Completed);
    }

    /// Ends the running work session as time spent helping others and asks whom.
    pub fn help_others(&mut self)
        requires
            old(self)@.complete_ok(Outcome::Helping),
        ensures
            final(self)@ == old(self)@.complete_work_session(Outcome::Helping),
    {
        self.complete_work_session(Outcome::Helping);
    }

    fn complete_work_session(&mut self, outcome: Outcome)
        requires
            old(self)@.complete_ok(outcome),
        ensures
            final(self)@ == old(self)@.complete_work_session(outcome),
    {
        if !self.is_in_active_work() {
            return;
        }
        let elapsed = self.elapsed_secs();
        let h = self.work_history(elapsed, outcome);
        self.pending.elapsed_secs = elapsed;
        self.pending.end_wall_12h = self.clock.time_12h.clone();
        self.pending.is_helping = outcome == Outcome::Helping;
        self.push_history(h);
        let today = self.clock.date.clone();
        if outcome == Outcome::Helping {
            self.daily_stats.add(today.as_str(), 0, elapsed, 1);
        } else {
            self.daily_stats.add(today.as_str(), elapsed, 0, 1);
        }
        self.notes_input_buffer = String::new();
        self.screen = Screen::NotesInput;
    }

    /// Types a character of the notes.
    pub fn notes_input_char(&mut self, c: char)
        ensures
            final(self)@ == old(self)@.typed_notes(c),
    {
        push_char(&mut self.notes_input_buffer, c);
    }

    /// Erases the last character of the notes.
    pub fn notes_input_backspace(&mut self)
        ensures
            final(self)@ == old(self)@.erased_notes(),
    {
        crate::text::pop_char(&mut self.notes_input_buffer);
    }

    /// Logs the ended session with the typed notes (trimmed) and starts the break.
    pub fn submit_notes(&mut self)
        requires
            old(self)@.advance_ok(),
        ensures
            final(self)@ == old(self)@.submit_notes(),
    {
        let notes = trim_string(self.notes_input_buffer.as_str());
        self.save_pending_entry(notes.as_str());
        self.notes_input_buffer = String::new();
        self.transition_to_break();
    }

    /// Logs the ended session without notes and starts the break.
    pub fn skip_notes(&mut self)
        requires
            old(self)@.advance_ok(),
        ensures
            final(self)@ == old(self)@.skip_notes(),
    {
        let empty = String::new();
        self.save_pending_entry(empty.as_str());
        self.notes_input_buffer = String::new();
        self.transition_to_break();
    }

    fn save_pending_entry(&mut self, notes: &str)
        ensures
            final(self)@ == old(self)@.save_pending_entry(notes@),
    {
        if self.persist {
            let e = WorkEntry {
                date: self.clock.date.clone(),
                start_time: self.timer.phase_start_wall_12h.clone(),
                end_time: self.pending.end_wall_12h.clone(),
                duration_secs: self.pending.elapsed_secs,
                task: self.current_task.clone(),
                completed: true,
                helping: self.pending.is_helping,
                notes: notes.to_string(),
            };
            self.push_effect(Effect::SaveWorkEntry(e));
        }
    }

    fn transition_to_break(&mut self)
        requires
            old(self)@.advance_ok(),
        ensures
            final(self)@ == old(self)@.transition_to_break(),
    {
        self.advance_phase();
        self.reset_timer();
        self.screen = Screen::Timer;
        self.notify_break_start();
    }

    /// On quitting: logs the session waiting for notes, or the running work phase
    /// (as skipped) when there is one and it has lasted.
    pub fn save_current_work_if_needed(&mut self)
        requires
            !(old(self)@.screen == Screen::NotesInput && old(self)@.pending.elapsed_secs > 0)
                && old(self)@.has_active_work_session() && old(self)@.elapsed() > 0 ==> old(self)@.can_add_today(
                old(self)@.elapsed(),
                0,
            ),
        ensures
            old(self)@.screen == Screen::NotesInput && old(self)@.pending.elapsed_secs > 0 ==> final(self)@ == old(
                self,
            )@.save_pending_entry(Seq::empty()),
            !(old(self)@.screen == Screen::NotesInput && old(self)@.pending.elapsed_secs > 0) ==> final(self)@ == (if old(
                self,
            )@.has_active_work_session() && old(self)@.elapsed() > 0 {
                old(self)@.record_work(old(self)@.elapsed(), old(self)@.clock.time_12h, Outcome::Skipped)
            } else {
                old(self)@
            }),
    {
        if self.screen == Screen::NotesInput && self.pending.elapsed_secs > 0 {
            let empty = String::new();
            self.save_pending_entry(empty.as_str());
            return;
        }
        if self.has_active_work_session() {
            let elapsed = self.elapsed_secs();
            if elapsed > 0 {
                let end_12h = self.clock.time_12h.clone();
                self.record_work(elapsed, end_12h.as_str(), Outcome::Skipped);
            }
        }
    }

    /// Work seconds counted for today, the running work phase on the timer screen included.
    pub fn today_work_secs(&self) -> (r: u64)
        requires
            self@.today_work() <= u64::MAX,
        ensures
            r == self@.today_work(),
    {
        let saved = match self.daily_stats.get(self.clock.date.as_str()) {
            Some(d) => d.work_secs,
            None => 0,
        };
        let current = if self.is_in_active_work() && self.screen == Screen::Timer { self.elapsed_secs() } else { 0 };
        saved + current
    }

    /// Sessions counted for today.
    pub fn today_sessions(&self) -> (r: u32)
        ensures
            r == self@.today_stats().sessions,
    {
        match self.daily_stats.get(self.clock.date.as_str()) {
            Some(d) => d.sessions,
            None => 0,
        }
    }

    /// Seconds spent helping others today.
    pub fn today_helping_secs(&self) -> (r: u64)
        ensures
            r == self@.today_stats().helping_secs,
    {
        match self.daily_stats.get(self.clock.date.as_str()) {
            Some(d) => d.helping_secs,
            None => 0,
        }
    }
}

/// `secs` as `MM:SS` (minutes zero-padded to two digits, more when needed).
pub fn format_duration(secs: u64) -> (r: String)
    ensures
        r@ == store::mmss(secs),
{
    store::format_mmss(secs)
}


/// A key press, as the event loop reports it.
#[derive(Debug, Clone, Copy, PartialEq, Eq, Structural)]
pub enum Key {
    Char(char),
    Up,
    Down,
    Left,
    Right,
    Enter,
    Esc,
    Backspace,
    Other,
}

impl AppView {
    /// What a key does on the quit confirmation: `q`/`y` quit, `e` ends the running
    /// work session, Esc/`n` cancel.
    pub open spec fn quit_dialog_key(self, key: Key) -> AppView {
        match key {
            Key::Char('q') | Key::Char('y') => AppView { should_quit: true, ..self },
            Key::Char('e') => self.confirm_quit_end_session(),
            Key::Esc | Key::Char('n') => self.cancel_quit(),
            _ => self,
        }
    }

    /// What a key does on the setup screen.
    pub open spec fn setup_key(self, key: Key) -> AppView {
        match key {
            Key::Up | Key::Char('k') => self.prev_field(),
            Key::Down | Key::Char('j') => self.next_field(),
            Key::Left | Key::Char('h') => self.decremented(),
            Key::Right | Key::Char('l') => self.incremented(),
            Key::Enter => self.start_timer(),
            Key::Esc => self.return_to_task_picker(),
            Key::Char('q') => self.request_quit(),
            _ => self,
        }
    }

    /// What a key does on the todo list.
    pub open spec fn todo_key(self, key: Key) -> AppView {
        if !(self.todo.mode is Normal) {
            match key {
                Key::Enter => self.todo_confirmed(),
                Key::Esc => self.todo_cancelled(),
                Key::Backspace => self.erased_todo(),
                Key::Char(c) => self.typed_todo(c),
                _ => self,
            }
        } else {
            match key {
                Key::Up | Key::Char('k') => self.todo_up(),
                Key::Down | Key::Char('j') => self.todo_down(),
                Key::Enter => self.todo_selected(),
                Key::Char('a') => self.todo_start_add(),
                Key::Char('e') => self.todo_start_edit(),
                Key::Char('d') => self.todo_deleted(),
                Key::Char(' ') => self.todo_toggled(),
                Key::Char('n') => self.todo_custom_task(),
                Key::Char('l') => self.open_daily_log(),
                Key::Char('b') => self.start_manual_break(),
                Key::Esc => self.todo_back(),
                Key::Char('q') => self.request_quit(),
                _ => self,
            }
        }
    }

    /// What a key does on the timer screen.
    pub open spec fn timer_key(self, key: Key) -> AppView {
        if self.manual_break {
            match key {
                Key::Enter => self.end_manual_break(),
                Key::Char(' ') => self.toggled_pause(),
                Key::Char('l') => self.open_daily_log(),
                Key::Char('q') | Key::Esc => self.request_quit(),
                _ => self,
            }
        } else {
            match key {
                Key::Char('q') | Key::Esc => self.request_quit(),
                Key::Char(' ') => self.toggled_pause(),
                Key::Char('e') => self.complete_work_session(Outcome::Completed),
                Key::Char('h') => self.complete_work_session(Outcome::Helping),
                Key::Char('s') | Key::Char('n') => self.finish_phase(Outcome::Skipped),
                Key::Char('d') => self.distracted(),
                Key::Char('w') => self.shortened(),
                Key::Char('r') => self.rename_task(),
                Key::Char('l') => self.open_daily_log(),
                Key::Char('t') => self.open_todo_manager(),
                Key::Enter => self.confirm_break(),
                _ => self,
            }
        }
    }

    /// What a key does: the quit confirmation takes every key while it shows;
    /// otherwise the screen decides.
    pub open spec fn key_pressed(self, key: Key) -> AppView {
        if self.confirm_quit {
            self.quit_dialog_key(key)
        } else {
            match self.screen {
                Screen::Onboarding => match key {
                    Key::Char(c) => self.typed_onboarding(c),
                    Key::Backspace => self.erased_onboarding(),
                    Key::Enter => self.onboarding_confirmed(),
                    Key::Esc => self.reset_onboarding(),
                    _ => self,
                },
                Screen::Setup => self.setup_key(key),
                Screen::TodoList => self.todo_key(key),
                Screen::TaskInput => match key {
                    Key::Enter => self.submit_task(),
                    Key::Esc => self.skip_task_input(),
                    Key::Backspace => self.erased_task(),
                    Key::Char(c) => self.typed_task(c),
                    _ => self,
                },
                Screen::Timer => self.timer_key(key),
                Screen::NotesInput => match key {
                    Key::Enter => self.submit_notes(),
                    Key::Esc => self.skip_notes(),
                    Key::Backspace => self.erased_notes(),
                    Key::Char(c) => self.typed_notes(c),
                    _ => self,
                },
                Screen::DailyLog => match key {
                    Key::Esc | Key::Backspace => self.close_daily_log(),
                    Key::Char('q') => self.request_quit(),
                    _ => self,
                },
            }
        }
    }

    /// What handling a key may require.
    pub open spec fn key_ok(self, key: Key) -> bool {
        if self.confirm_quit {
            key == Key::Char('e') ==> self.complete_ok(Outcome::Completed)
        } else {
            match self.screen {
                Screen::Setup => (key == Key::Right || key == Key::Char('l')) ==> self.can_increment(),
                Screen::TodoList => self.todo.mode is Normal ==> {
                    &&& (key == Key::Down || key == Key::Char('j')) ==> (self.todo.items.len() > 0 ==> self.todo.cursor
                        < usize::MAX)
                    &&& (key == Key::Enter || key == Key::Char('e') || key == Key::Char('d') || key == Key::Char(' '))
                        ==> self.todo_cursor_ok()
                },
                Screen::Timer => !self.manual_break ==> {
                    &&& key == Key::Char('e') ==> self.complete_ok(Outcome::Completed)
                    &&& key == Key::Char('h') ==> self.complete_ok(Outcome::Helping)
                    &&& (key == Key::Char('s') || key == Key::Char('n')) ==> self.finish_ok()
                    &&& key == Key::Enter ==> (self.active_work() ==> self.finish_ok())
                },
                Screen::NotesInput => (key == Key::Enter || key == Key::Esc) ==> self.advance_ok(),
                _ => true,
            }
        }
    }

    /// The end of a pass of the event loop: the timer ticks while its screen shows,
    /// and quitting logs the work still open.
    pub open spec fn after_input(self) -> AppView {
        let v = if self.screen == Screen::Timer { self.tick() } else { self };
        if v.should_quit {
            if v.screen == Screen::NotesInput && v.pending.elapsed_secs > 0 {
                v.save_pending_entry(Seq::empty())
            } else if v.has_active_work_session() && v.elapsed() > 0 {
                v.record_work(v.elapsed(), v.clock.time_12h, Outcome::Skipped)
            } else {
                v
            }
        } else {
            v
        }
    }

    /// What the end of a pass may require.
    pub open spec fn after_input_ok(self) -> bool {
        &&& self.screen == Screen::Timer ==> self.tick_ok()
        &&& {
            let v = if self.screen == Screen::Timer { self.tick() } else { self };
            v.should_quit && !(v.screen == Screen::NotesInput && v.pending.elapsed_secs > 0) && v.has_active_work_session()
                && v.elapsed() > 0 ==> v.can_add_today(v.elapsed(), 0)
        }
    }
}

impl App {
    /// Handles a key press (see `AppView::key_pressed`); returns whether the quit
    /// confirmation took it, in which case the pass of the event loop ends there.
    pub fn handle_key(&mut self, key: Key) -> (dialog: bool)
        requires
            old(self)@.key_ok(key),
        ensures
            dialog == old(self)@.confirm_quit,
            final(self)@ == old(self)@.key_pressed(key),
    {
        if self.confirm_quit {
            match key {
                Key::Char('q') | Key::Char('y') => self.should_quit = true,
                Key::Char('e') => self.confirm_quit_end_session(),
                Key::Esc | Key::Char('n') => self.cancel_quit(),
                _ => {},
            }
            return true;
        }
        match self.screen {
            Screen::Onboarding => match key {
                Key::Char(c) => self.onboarding_input_char(c),
                Key::Backspace => self.onboarding_input_backspace(),
                Key::Enter => self.onboarding_confirm(),
                Key::Esc => self.onboarding_reset_to_default(),
                _ => {},
            },
            Screen::Setup => match key {
                Key::Up | Key::Char('k') => self.prev_field(),
                Key::Down | Key::Char('j') => self.next_field(),
                Key::Left | Key::Char('h') => self.decrement_field(),
                Key::Right | Key::Char('l') => self.increment_field(),
                Key::Enter => self.start_timer(),
                Key::Esc => self.return_to_task_picker(),
                Key::Char('q') => self.request_quit(),
                _ => {},
            },
            Screen::TodoList => {
                if self.todo_is_input_mode() {
                    match key {
                        Key::Enter => self.todo_confirm_input(),
                        Key::Esc => self.todo_cancel_input(),
                        Key::Backspace => self.todo_input_backspace(),
                        Key::Char(c) => self.todo_input_char(c),
                        _ => {},
                    }
                } else {
                    match key {
                        Key::Up | Key::Char('k') => self.todo_up(),
                        Key::Down | Key::Char('j') => self.todo_down(),
                        Key::Enter => self.todo_select(),
                        Key::Char('a') => self.todo_start_add(),
                        Key::Char('e') => self.todo_start_edit(),
                        Key::Char('d') => self.todo_delete(),
                        Key::Char(' ') => self.todo_toggle(),
                        Key::Char('n') => self.todo_custom_task(),
                        Key::Char('l') => self.open_daily_log(),
                        Key::Char('b') => self.start_manual_break(),
                        Key::Esc => self.todo_back(),
                        Key::Char('q') => self.request_quit(),
                        _ => {},
                    }
                }
            },
            Screen::TaskInput => match key {
                Key::Enter => self.submit_task(),
                Key::Esc => self.skip_task_input(),
                Key::Backspace => self.task_input_backspace(),
                Key::Char(c) => self.task_input_char(c),
                _ => {},
            },
            Screen::Timer => {
                if self.manual_break {
                    match key {
                        Key::Enter => self.end_manual_break(),
                        Key::Char(' ') => self.toggle_pause(),
                        Key::Char('l') => self.open_daily_log(),
                        Key::Char('q') | Key::Esc => self.request_quit(),
                        _ => {},
                    }
                } else {
                    match key {
                        Key::Char('q') | Key::Esc => self.request_quit(),
                        Key::Char(' ') => self.toggle_pause(),
                        Key::Char('e') => self.end_task(),
                        Key::Char('h') => self.help_others(),
                        Key::Char('s') | Key::Char('n') => self.skip_phase(),
                        Key::Char('d') => self.distraction(),
                        Key::Char('w') => self.shorten_work(),
                        Key::Char('r') => self.rename_task(),
                        Key::Char('l') => self.open_daily_log(),
                        Key::Char('t') => self.open_todo_manager(),
                        Key::Enter => self.confirm_break(),
                        _ => {},
                    }
                }
            },
            Screen::NotesInput => match key {
                Key::Enter => self.submit_notes(),
                Key::Esc => self.skip_notes(),
                Key::Backspace => self.notes_input_backspace(),
                Key::Char(c) => self.notes_input_char(c),
                _ => {},
            },
            Screen::DailyLog => match key {
                Key::Esc | Key::Backspace => self.close_daily_log(),
                Key::Char('q') => self.request_quit(),
                _ => {},
            },
        }
        false
    }

    /// The end of a pass of the event loop (see `AppView::after_input`); returns
    /// whether the application quits.
    pub fn after_input(&mut self) -> (quit: bool)
        requires
            old(self)@.after_input_ok(),
        ensures
            quit == old(self)@.after_input().should_quit,
            final(self)@ == old(self)@.after_input(),
    {
        if self.screen == Screen::Timer {
            self.tick();
        }
        if self.should_quit {
            self.save_current_work_if_needed();
            return true;
        }
        false
    }
}


impl App {
    fn duplicate(&self) -> (r: App)
        ensures
            r@ == self@,
    {
        App {
            work_secs: self.work_secs,
            current_work_secs: self.current_work_secs,
            break_secs: self.break_secs,
            long_break_secs: self.long_break_secs,
            sessions_before_long: self.sessions_before_long,
            log_dir: self.log_dir.clone(),
            phase: self.phase,
            session: self.session,
            paused: self.paused,
            should_quit: self.should_quit,
            confirm_quit: self.confirm_quit,
            timer: self.timer.duplicate(),
            history: duplicate_history(&self.history),
            screen: self.screen,
            selected_field: self.selected_field,
            daily_stats: self.daily_stats.duplicate(),
            persist: self.persist,
            current_task: self.current_task.clone(),
            task_input_buffer: self.task_input_buffer.clone(),
            notes_input_buffer: self.notes_input_buffer.clone(),
            renaming_task: self.renaming_task,
            pending: self.pending.duplicate(),
            todo: self.todo.duplicate(),
            daily_log: self.daily_log.duplicate(),
            onboarding: self.onboarding.duplicate(),
            manual_break: self.manual_break,
            last_date: self.last_date.clone(),
            clock: self.clock.duplicate(),
            effects: duplicate_effects(&self.effects),
        }
    }

    fn can_add_today_exec(&self, work: u64, helping: u64) -> (r: bool)
        ensures
            r == self@.can_add_today(work, helping),
    {
        let t = match self.daily_stats.get(self.clock.date.as_str()) {
            Some(d) => d,
            None => DayStats { work_secs: 0, helping_secs: 0, sessions: 0 },
        };
        work <= u64::MAX - t.work_secs && helping <= u64::MAX - t.helping_secs && t.sessions < u32::MAX
    }

    /// Whether the current phase can end without a total overflowing
    /// (see `AppView::finish_ok`).
    pub fn finish_allowed(&self) -> (r: bool)
        ensures
            r == self@.finish_ok(),
    {
        if self.phase == Phase::Work {
            if self.sessions_before_long < 1 {
                return false;
            }
            let e = self.elapsed_secs();
            e == 0 || self.can_add_today_exec(e, 0)
        } else {
            self.session < u32::MAX
        }
    }

    /// Whether the work session can end early with `outcome` without a total overflowing.
    pub fn complete_allowed(&self, outcome: Outcome) -> (r: bool)
        ensures
            r == self@.complete_ok(outcome),
    {
        if !self.is_in_active_work() {
            return true;
        }
        let e = self.elapsed_secs();
        if outcome == Outcome::Helping {
            self.can_add_today_exec(0, e)
        } else {
            self.can_add_today_exec(e, 0)
        }
    }

    /// Whether the phase can advance without a counter overflowing.
    pub fn advance_allowed(&self) -> (r: bool)
        ensures
            r == self@.advance_ok(),
    {
        if self.phase == Phase::Work {
            self.sessions_before_long >= 1
        } else {
            self.session < u32::MAX
        }
    }

    /// Whether the setting under the cursor can be raised without overflow.
    pub fn increment_allowed(&self) -> (r: bool)
        ensures
            r == self@.can_increment(),
    {
        match self.selected_field {
            SetupField::Work => self.work_secs <= u64::MAX - 60,
            SetupField::Break => self.break_secs <= u64::MAX - 60,
            SetupField::LongBreak => self.long_break_secs <= u64::MAX - 60,
            SetupField::SessionsBeforeLong => self.sessions_before_long < u32::MAX,
        }
    }

    /// Whether `handle_key` can take `key` (see `AppView::key_ok`).
    pub fn key_allowed(&self, key: Key) -> (r: bool)
        ensures
            r == self@.key_ok(key),
    {
        if self.confirm_quit {
            return key != Key::Char('e') || self.complete_allowed(Outcome::Completed);
        }
        match self.screen {
            Screen::Setup => !(key == Key::Right || key == Key::Char('l')) || self.increment_allowed(),
            Screen::TodoList => {
                if !self.todo_is_input_mode() {
                    let n = self.todo.items.len();
                    let down_ok = !(key == Key::Down || key == Key::Char('j')) || n == 0 || self.todo.cursor < usize::MAX;
                    let on_entry = !(key == Key::Enter || key == Key::Char('e') || key == Key::Char('d') || key
                        == Key::Char(' ')) || n == 0 || self.todo.cursor < n;
                    down_ok && on_entry
                } else {
                    true
                }
            },
            Screen::Timer => {
                if self.manual_break {
                    true
                } else if key == Key::Char('e') {
                    self.complete_allowed(Outcome::Completed)
                } else if key == Key::Char('h') {
                    self.complete_allowed(Outcome::Helping)
                } else if key == Key::Char('s') || key == Key::Char('n') {
                    self.finish_allowed()
                } else if key == Key::Enter {
                    !self.is_in_active_work() || self.finish_allowed()
                } else {
                    true
                }
            },
            Screen::NotesInput => !(key == Key::Enter || key == Key::Esc) || self.advance_allowed(),
            _ => true,
        }
    }

    /// Whether `tick` can run without a total or counter overflowing
    /// (see `AppView::tick_ok`).
    pub fn tick_allowed(&self) -> (r: bool)
        ensures
            r == self@.tick_ok(),
    {
        let now = self.clock.now_ms;
        let gap: u64 = if now >= self.timer.last_tick { now - self.timer.last_tick } else { 0 };
        if gap >= SLEEP_THRESHOLD_MS && self.is_in_active_work() && !self.paused {
            let mut slept = self.duplicate();
            let extra: u64 = if gap >= 1000 { gap - 1000 } else { 0 };
            let acc = slept.timer.pause_accumulated;
            slept.timer.last_tick = now;
            slept.timer.pause_accumulated = if acc <= u64::MAX - extra { acc + extra } else { u64::MAX };
            assert(slept@ == self@.slept(gap as int));
            if !slept.finish_allowed() {
                return false;
            }
        }
        let mut c = self.duplicate();
        c.handle_sleep_gap();
        c.check_date_change();
        let done = !c.paused && c.remaining_secs() == 0 && c.phase != Phase::Work && !c.manual_break;
        !done || c.session < u32::MAX
    }

    /// Whether `after_input` can run without a total or counter overflowing
    /// (see `AppView::after_input_ok`).
    pub fn after_input_allowed(&self) -> (r: bool)
        ensures
            r == self@.after_input_ok(),
    {
        let mut c = self.duplicate();
        if c.screen == Screen::Timer {
            if !c.tick_allowed() {
                return false;
            }
            c.tick();
        }
        if c.should_quit && !(c.screen == Screen::NotesInput && c.pending.elapsed_secs > 0) && c.has_active_work_session() {
            let e = c.elapsed_secs();
            if e > 0 {
                return c.can_add_today_exec(e, 0);
            }
        }
        true
    }

    /// Whether today's work total, the running phase included, fits in a `u64`.
    pub fn today_work_fits(&self) -> (r: bool)
        ensures
            r == (self@.today_work() <= u64::MAX),
    {
        let saved = match self.daily_stats.get(self.clock.date.as_str()) {
            Some(d) => d.work_secs,
            None => 0,
        };
        if self.is_in_active_work() && self.screen == Screen::Timer {
            self.elapsed_secs() <= u64::MAX - saved
        } else {
            true
        }
    }
}

} // verus!
