//! Properties of the timer that span several operations or hold of every state.

use vstd::prelude::*;

use crate::app::{count_completed_work, lemma_position_of, AppView, ClockView, Key, Outcome, Phase, Screen};
use crate::stats::{add_day, day_or_empty, law_lookup_after_upsert, lookup, upsert, DayStats};
use crate::store::{
    bump, date_heading, date_name_ok, entry_body, entry_lead, entry_mark, entry_text, is_date, lemma_lead_line_counts,
    lemma_heading_sets_date, mmss, month_of, quarter, quarterly_fold, quarterly_heading, quarterly_step, times_plain, work_entry_text,
    year_field, QuarterState, WorkEntryView, config_lines, config_text, law_config_round_trip, log_dir_storable,
    expanded_path, ConfigView,
};
use crate::text::{
    contains, dec, is_digit, lemma_dec_digits, lemma_lines_concat, lemma_lines_single, lemma_zero_pad_digits, lines, strip_cr,
    lemma_trimmed_end, trim, zero_pad,
};
use vstd::utf8::{decode_utf8, decode_utf8_split, encode_utf8, encode_utf8_decode_utf8, encode_utf8_valid_utf8};

verus! {

/// Each setting lies in the range the setup screen allows.
pub open spec fn settings_in_range(v: AppView) -> bool {
    &&& 60 <= v.work_secs <= 7200
    &&& 60 <= v.break_secs <= 3600
    &&& 60 <= v.long_break_secs <= 3600
    &&& 1 <= v.sessions_before_long <= 10
}

/// A long break follows a work session exactly when that session closes its cycle,
/// that is when its position in the cycle (from 1 to `sessions_before_long`) is the last.
pub proof fn law_long_break_closes_cycle(v: AppView)
    requires
        v.phase == Phase::Work,
        v.session >= 1,
        v.sessions_before_long >= 1,
    ensures
        1 <= (v.session - 1) % (v.sessions_before_long as int) + 1 <= v.sessions_before_long,
        v.advance_phase().phase == Phase::LongBreak <==> (v.session - 1) % (v.sessions_before_long as int) + 1
            == v.sessions_before_long,
        v.advance_phase().phase != Phase::Work,
        v.advance_phase().session == v.session,
{
    let k = v.sessions_before_long as int;
    let s = v.session as int;
    assert(1 <= (s - 1) % k + 1 <= k) by (nonlinear_arith)
        requires
            k >= 1,
    ;
    assert(s % k == 0 <==> (s - 1) % k + 1 == k) by (nonlinear_arith)
        requires
            k >= 1,
            s >= 1,
    ;
}

/// A break is always followed by the work phase of the next session.
pub proof fn law_break_leads_to_next_session(v: AppView)
    requires
        v.phase != Phase::Work,
        v.session < u32::MAX,
    ensures
        v.advance_phase().phase == Phase::Work,
        v.advance_phase().session == v.session + 1,
{
}

/// On the setup screen every key keeps each setting within its range.
#[verifier::spinoff_prover]
pub proof fn law_setup_keeps_settings_in_range(v: AppView, key: Key)
    requires
        settings_in_range(v),
        v.screen == Screen::Setup,
        !v.confirm_quit,
    ensures
        settings_in_range(v.key_pressed(key)),
{
}

/// Raising a setting one step and lowering it again gives the state back, as long as
/// the raise was not cut at the maximum.
pub proof fn law_decrement_undoes_increment(v: AppView)
    requires
        settings_in_range(v),
        v.selected_field == crate::app::SetupField::Work ==> v.work_secs + 60 <= 7200,
        v.selected_field == crate::app::SetupField::Break ==> v.break_secs + 60 <= 3600,
        v.selected_field == crate::app::SetupField::LongBreak ==> v.long_break_secs + 60 <= 3600,
        v.selected_field == crate::app::SetupField::SessionsBeforeLong ==> v.sessions_before_long + 1 <= 10,
    ensures
        v.incremented().decremented() == v,
{
}

/// Pausing and resuming at the same instant changes nothing.
pub proof fn law_pause_resume_same_instant(v: AppView)
    requires
        !v.paused,
        v.timer.pause_start is None,
    ensures
        v.toggled_pause().toggled_pause() == v,
{
}

/// The state with the clock moved to `now_ms`.
pub open spec fn at_time(v: AppView, now_ms: u64) -> AppView {
    AppView { clock: ClockView { now_ms: now_ms, ..v.clock }, ..v }
}

/// While paused, the elapsed time stands still as the clock runs on.
pub proof fn law_paused_time_stands_still(v: AppView, later: u64)
    requires
        v.paused,
        v.timer.pause_start matches Some(ps) && v.timer.phase_start <= ps <= v.clock.now_ms,
        v.clock.now_ms <= later,
        v.timer.pause_accumulated + (later - v.timer.pause_start->0) <= u64::MAX,
    ensures
        at_time(v, later).elapsed() == v.elapsed(),
{
}

/// A distraction takes exactly five minutes off a running work phase that has run at
/// least that long; outside a running work phase it changes nothing.
pub proof fn law_distraction_takes_five_minutes(v: AppView)
    ensures
        v.active_work() && v.elapsed() >= 300 && v.paused_ms() + 300000 <= u64::MAX ==> v.distracted().elapsed()
            == v.elapsed() - 300,
        !v.active_work() ==> v.distracted() == v,
{
}

/// Shortening a work phase lasts for that phase only: the configured length stays, and
/// every way into a work phase (starting one from the setup screen or the task picker,
/// or the end of a break) runs for the configured length again.
pub proof fn law_shortening_lasts_one_phase(v: AppView)
    ensures
        v.shortened().work_secs == v.work_secs,
        v.shortened().begin_work_phase().current_work_secs == v.work_secs,
        v.phase != Phase::Work ==> v.shortened().advance_phase().current_work_secs == v.work_secs,
        v.active_work() && v.current_work_secs >= 360 ==> v.shortened().current_work_secs == v.current_work_secs - 300,
{
}

/// A shortened work phase skipped, and the break after it skipped too, leaves the
/// next work phase at the configured length.
#[verifier::spinoff_prover]
pub proof fn law_shortening_ends_with_phase(v: AppView)
    requires
        v.active_work(),
        v.shortened().finish_ok(),
        v.session < u32::MAX,
    ensures
        v.shortened().finish_phase(Outcome::Skipped).finish_phase(Outcome::Skipped).phase == Phase::Work,
        v.shortened().finish_phase(Outcome::Skipped).finish_phase(Outcome::Skipped).phase_total() == v.work_secs,
{
}

/// Dismissing the quit confirmation gives back the state it was asked from.
pub proof fn law_cancel_undoes_quit_request(v: AppView)
    requires
        !v.confirm_quit,
    ensures
        v.request_quit().cancel_quit() == v,
{
}

/// In every text input, Backspace right after typing a character gives the state back
/// (on the onboarding screen, when no error was showing).
#[verifier::spinoff_prover]
pub proof fn law_backspace_undoes_typing(v: AppView, c: char)
    requires
        !v.confirm_quit,
        v.screen == Screen::TaskInput || v.screen == Screen::NotesInput || (v.screen == Screen::Onboarding
            && v.onboarding.error is None) || (v.screen == Screen::TodoList && !(v.todo.mode is Normal)),
    ensures
        v.key_pressed(Key::Char(c)).key_pressed(Key::Backspace) == v,
{
    let w = v.key_pressed(Key::Char(c));
    if v.screen == Screen::TaskInput {
        assert(w == v.typed_task(c));
        assert(v.task_input_buffer.push(c).drop_last() == v.task_input_buffer);
        assert(w.key_pressed(Key::Backspace) == w.erased_task());
    } else if v.screen == Screen::NotesInput {
        assert(w == v.typed_notes(c));
        assert(v.notes_input_buffer.push(c).drop_last() == v.notes_input_buffer);
        assert(w.key_pressed(Key::Backspace) == w.erased_notes());
    } else if v.screen == Screen::Onboarding {
        assert(w == v.typed_onboarding(c));
        assert(v.onboarding.input_buffer.push(c).drop_last() == v.onboarding.input_buffer);
        assert(w.key_pressed(Key::Backspace) == w.erased_onboarding());
    } else {
        assert(w == v.typed_todo(c));
        assert(v.todo.input_buffer.push(c).drop_last() == v.todo.input_buffer);
        assert(w.key_pressed(Key::Backspace) == w.erased_todo());
    }
}

/// Skipping a work phase and then the break that follows lands on the work phase of
/// the next session.
#[verifier::spinoff_prover]
pub proof fn law_two_skips_reach_next_session(v: AppView)
    requires
        v.phase == Phase::Work,
        v.finish_ok(),
        v.session < u32::MAX,
    ensures
        v.finish_phase(Outcome::Skipped).phase != Phase::Work,
        v.finish_phase(Outcome::Skipped).finish_ok(),
        v.finish_phase(Outcome::Skipped).finish_phase(Outcome::Skipped).phase == Phase::Work,
        v.finish_phase(Outcome::Skipped).finish_phase(Outcome::Skipped).session == v.session + 1,
{
}

/// No new day interrupts the ticks: not persisting, no day seen yet, or the same day.
pub open spec fn same_day(v: AppView) -> bool {
    !v.persist || v.last_date.len() == 0 || v.last_date == v.clock.date
}

/// A work phase never ends by itself: without a sleep of the machine or a new day, a
/// tick leaves the phase, the session and the history as they were.
#[verifier::spinoff_prover]
pub proof fn law_work_never_ends_by_itself(v: AppView)
    requires
        v.phase == Phase::Work,
        v.clock.now_ms < v.timer.last_tick + 30000,
        same_day(v),
    ensures
        v.tick_ok(),
        v.tick().phase == Phase::Work,
        v.tick().session == v.session,
        v.tick().history == v.history,
{
}

/// A running break whose time is up ends at the next tick, and the next session's
/// work phase starts.
#[verifier::spinoff_prover]
pub proof fn law_break_ends_when_time_is_up(v: AppView)
    requires
        v.phase != Phase::Work,
        !v.manual_break,
        !v.paused,
        v.remaining() == 0,
        v.session < u32::MAX,
        v.clock.now_ms < v.timer.last_tick + 30000,
        same_day(v),
    ensures
        v.tick_ok(),
        v.tick().phase == Phase::Work,
        v.tick().session == v.session + 1,
        v.tick().history.len() == v.history.len() + 1,
        v.tick().history.last().phase == v.phase,
        v.tick().history.last().outcome == Outcome::Completed,
{
}

/// A sleep of the machine through a running work phase ends it, and the sleep is not
/// counted as work: the phase is logged with the time the timer showed one second
/// after the last tick before the sleep, and its break starts.
#[verifier::spinoff_prover]
pub proof fn law_sleep_is_not_work(v: AppView)
    requires
        v.active_work(),
        !v.paused,
        v.timer.pause_start is None,
        v.timer.phase_start <= v.timer.last_tick,
        v.clock.now_ms >= v.timer.last_tick + 30000,
        v.timer.pause_accumulated + (v.clock.now_ms - v.timer.last_tick) <= u64::MAX,
        v.break_secs > 0,
        v.long_break_secs > 0,
        same_day(v),
        v.tick_ok(),
    ensures
        v.tick().phase != Phase::Work,
        v.tick().history.len() == v.history.len() + 1,
        v.tick().history.last().phase == Phase::Work,
        v.tick().history.last().outcome == Outcome::Completed,
        v.tick().history.last().elapsed_secs == at_time(v, (v.timer.last_tick + 1000) as u64).elapsed(),
{
}

/// Time spent helping others is counted apart from work: ending a work phase as
/// helping adds its time to today's helping total, ending it as done adds it to
/// today's work total; either counts one session, and no other day changes.
#[verifier::spinoff_prover]
pub proof fn law_helping_counts_apart(v: AppView, outcome: Outcome, day: Seq<char>)
    requires
        v.active_work(),
        outcome == Outcome::Completed || outcome == Outcome::Helping,
        v.complete_ok(outcome),
    ensures
        outcome == Outcome::Helping ==> v.complete_work_session(outcome).today_stats() == add_day(
            v.today_stats(),
            0,
            v.elapsed(),
            1,
        ),
        outcome == Outcome::Completed ==> v.complete_work_session(outcome).today_stats() == add_day(
            v.today_stats(),
            v.elapsed(),
            0,
            1,
        ),
        day != v.clock.date ==> lookup(v.complete_work_session(outcome).daily_stats, day) == lookup(v.daily_stats, day),
{
    let d = v.clock.date;
    let val = if outcome == Outcome::Helping {
        add_day(v.today_stats(), 0, v.elapsed(), 1)
    } else {
        add_day(v.today_stats(), v.elapsed(), 0, 1)
    };
    law_lookup_after_upsert(v.daily_stats, d, val, day);
}

/// Taking the break at the end of a running work phase counts one more completed
/// work session.
#[verifier::spinoff_prover]
pub proof fn law_confirm_break_counts_session(v: AppView)
    requires
        v.active_work(),
        v.finish_ok(),
    ensures
        count_completed_work(v.confirm_break().history) == count_completed_work(v.history) + 1,
{
    let w = v.record_and_log_work(v.elapsed(), Outcome::Completed);
    assert(w.history.drop_last() == v.history);
}

/// On the todo list every key keeps the cursor on an entry whenever there is one.
#[verifier::spinoff_prover]
pub proof fn law_todo_keys_keep_cursor_on_list(v: AppView, key: Key)
    requires
        v.screen == Screen::TodoList,
        !v.confirm_quit,
        v.todo_cursor_ok(),
        v.key_ok(key),
    ensures
        v.key_pressed(key).todo_cursor_ok(),
{
}

#[verifier::spinoff_prover]
proof fn lemma_phase_end_writes_nothing(v: AppView, outcome: Outcome)
    requires
        !v.persist,
    ensures
        v.finish_phase(outcome).effects == v.effects,
        v.finish_phase(outcome).persist == v.persist,
        v.complete_work_session(outcome).effects == v.effects,
        v.tick().effects == v.effects,
        v.tick().persist == v.persist,
{
}

#[verifier::spinoff_prover]
proof fn lemma_screen_keys_write_nothing(v: AppView, key: Key)
    requires
        !v.persist,
        !v.confirm_quit,
    ensures
        v.screen == Screen::Timer ==> v.timer_key(key).effects == v.effects,
        v.screen == Screen::TodoList ==> v.todo_key(key).effects == v.effects,
        v.screen == Screen::Setup ==> v.setup_key(key).effects == v.effects,
{
    lemma_phase_end_writes_nothing(v, Outcome::Completed);
    lemma_phase_end_writes_nothing(v, Outcome::Helping);
    lemma_phase_end_writes_nothing(v, Outcome::Skipped);
}

#[verifier::spinoff_prover]
proof fn lemma_after_input_writes_nothing(v: AppView)
    requires
        !v.persist,
    ensures
        v.after_input().effects == v.effects,
{
    lemma_phase_end_writes_nothing(v, Outcome::Completed);
    let t = if v.screen == Screen::Timer { v.tick() } else { v };
    assert(t.effects == v.effects && !t.persist);
}

/// Without persisting, nothing is ever written or sent: no key (but on the
/// onboarding screen, which prepares the log directory) and no tick queues an effect.
#[verifier::spinoff_prover]
pub proof fn law_nothing_written_without_persisting(v: AppView, key: Key)
    requires
        !v.persist,
    ensures
        v.screen != Screen::Onboarding || v.confirm_quit ==> v.key_pressed(key).effects == v.effects,
        v.tick().effects == v.effects,
        v.after_input().effects == v.effects,
{
    lemma_phase_end_writes_nothing(v, Outcome::Completed);
    lemma_after_input_writes_nothing(v);
    if v.confirm_quit {
        let w = AppView { confirm_quit: false, ..v };
        lemma_phase_end_writes_nothing(w, Outcome::Completed);
    } else {
        lemma_screen_keys_write_nothing(v, key);
    }
}

/// In the daily log, expanding a folded past day and folding it again gives the
/// state back.
pub proof fn law_expand_then_fold(v: AppView)
    requires
        (v.daily_log.cursor as int) < v.past_days().len(),
        !v.daily_log.expanded.contains(v.past_days()[v.daily_log.cursor as int]),
    ensures
        v.toggled_expand().toggled_expand() == v,
{
    let d = v.past_days()[v.daily_log.cursor as int];
    let ex = v.daily_log.expanded;
    lemma_position_of(ex, d, ex.len() as int);
    assert forall|j: int| 0 <= j < ex.len() implies ex.push(d)[j] != d by {
        assert(ex.push(d)[j] == ex[j]);
    }
    lemma_position_of(ex.push(d), d, ex.len() as int);
    assert(ex.push(d).remove(ex.len() as int) =~= ex);
}

/// Quitting during a running work phase keeps the work done so far: today's work
/// total grows by the time the phase has run, and when persisting the last effect
/// writes it to the log (as not completed).
#[verifier::spinoff_prover]
pub proof fn law_quit_keeps_open_work(v: AppView)
    requires
        v.should_quit,
        v.active_work(),
        v.screen == Screen::Timer || v.screen == Screen::DailyLog,
        v.clock.now_ms < v.timer.last_tick + 30000,
        same_day(v),
        v.elapsed() > 0,
        v.can_add_today(v.elapsed(), 0),
    ensures
        v.after_input_ok(),
        v.after_input().today_stats().work_secs == v.today_stats().work_secs + v.elapsed(),
        v.after_input().today_stats().sessions == v.today_stats().sessions + 1,
        v.persist ==> (v.after_input().effects.last() matches crate::app::EffectView::SaveWorkEntry(w) && w.duration_secs
            == v.elapsed() && !w.completed),
{
    let t = if v.screen == Screen::Timer { v.tick() } else { v };
    assert(t.elapsed() == v.elapsed());
    assert(t.today_stats() == v.today_stats());
    let u = if t.persist {
        t.with_effect(
            crate::app::EffectView::SaveWorkEntry(
                crate::store::WorkEntryView {
                    date: t.clock.date,
                    start_time: t.timer.phase_start_wall_12h,
                    end_time: t.clock.time_12h,
                    duration_secs: t.elapsed(),
                    task: t.current_task,
                    completed: false,
                    helping: false,
                    notes: Seq::empty(),
                },
            ),
        )
    } else {
        t
    };
    law_lookup_after_upsert(u.daily_stats, u.clock.date, add_day(u.today_stats(), t.elapsed(), 0, 1), u.clock.date);
}

/// The session number and the cycle length are at least 1, and the timer is paused
/// exactly when a pause is running.
pub open spec fn counters_ok(v: AppView) -> bool {
    &&& v.session >= 1
    &&& v.sessions_before_long >= 1
    &&& v.paused <==> v.timer.pause_start is Some
}

#[verifier::spinoff_prover]
proof fn lemma_phase_end_keeps_counters(v: AppView, outcome: Outcome)
    requires
        counters_ok(v),
        v.finish_ok(),
    ensures
        counters_ok(v.finish_phase(outcome)),
{
}

#[verifier::spinoff_prover]
proof fn lemma_tick_keeps_counters(v: AppView)
    requires
        counters_ok(v),
        v.tick_ok(),
    ensures
        counters_ok(v.tick()),
{
    let gap = if v.clock.now_ms >= v.timer.last_tick { v.clock.now_ms - v.timer.last_tick } else { 0 };
    if gap >= 30000 && v.active_work() && !v.paused {
        lemma_phase_end_keeps_counters(v.slept(gap), Outcome::Completed);
    }
    let w = v.handle_sleep_gap().check_date_change();
    if w.break_done() {
        lemma_phase_end_keeps_counters(w, Outcome::Completed);
    }
}

#[verifier::spinoff_prover]
proof fn lemma_timer_keys_keep_counters(v: AppView, key: Key)
    requires
        counters_ok(v),
        v.key_ok(key),
        !v.confirm_quit,
        v.screen == Screen::Timer,
    ensures
        counters_ok(v.key_pressed(key)),
{
    if !v.manual_break && (key == Key::Char('s') || key == Key::Char('n') || key == Key::Enter && v.active_work()) {
        lemma_phase_end_keeps_counters(v, Outcome::Skipped);
    }
}

#[verifier::spinoff_prover]
proof fn lemma_dialog_keys_keep_counters(v: AppView, key: Key)
    requires
        counters_ok(v),
        v.confirm_quit,
    ensures
        counters_ok(v.quit_dialog_key(key)),
{
}

#[verifier::spinoff_prover]
proof fn lemma_todo_keys_keep_counters(v: AppView, key: Key)
    requires
        counters_ok(v),
        v.screen == Screen::TodoList,
    ensures
        counters_ok(v.todo_key(key)),
{
}

#[verifier::spinoff_prover]
proof fn lemma_setup_keys_keep_counters(v: AppView, key: Key)
    requires
        counters_ok(v),
    ensures
        counters_ok(v.setup_key(key)),
{
}

#[verifier::spinoff_prover]
proof fn lemma_notes_keys_keep_counters(v: AppView)
    requires
        counters_ok(v),
        v.advance_ok(),
    ensures
        counters_ok(v.submit_notes()),
        counters_ok(v.skip_notes()),
{
}

#[verifier::spinoff_prover]
proof fn lemma_other_keys_keep_counters(v: AppView, key: Key)
    requires
        counters_ok(v),
        v.key_ok(key),
        v.confirm_quit || v.screen != Screen::Timer,
    ensures
        counters_ok(v.key_pressed(key)),
{
    if v.confirm_quit {
        lemma_dialog_keys_keep_counters(v, key);
    } else if v.screen == Screen::TodoList {
        lemma_todo_keys_keep_counters(v, key);
    } else if v.screen == Screen::Setup {
        lemma_setup_keys_keep_counters(v, key);
    } else if v.screen == Screen::NotesInput {
        if key == Key::Enter || key == Key::Esc {
            lemma_notes_keys_keep_counters(v);
        }
    }
}

#[verifier::spinoff_prover]
proof fn lemma_after_input_keeps_counters(v: AppView)
    requires
        counters_ok(v),
        v.after_input_ok(),
    ensures
        counters_ok(v.after_input()),
{
    if v.screen == Screen::Timer {
        lemma_tick_keeps_counters(v);
    }
}

/// Every key keeps the session number and the cycle length at least 1, and the timer
/// paused exactly when a pause is running; so does every pass of the event loop.
pub proof fn law_counters_stay_consistent(v: AppView, key: Key)
    requires
        counters_ok(v),
    ensures
        v.key_ok(key) ==> counters_ok(v.key_pressed(key)),
        v.tick_ok() ==> counters_ok(v.tick()),
        v.after_input_ok() ==> counters_ok(v.after_input()),
{
    if v.tick_ok() {
        lemma_tick_keeps_counters(v);
    }
    if v.key_ok(key) {
        if !v.confirm_quit && v.screen == Screen::Timer {
            lemma_timer_keys_keep_counters(v, key);
        } else {
            lemma_other_keys_keep_counters(v, key);
        }
    }
    if v.after_input_ok() {
        lemma_after_input_keeps_counters(v);
    }
}

/// The settings saved when a work phase starts carry the log directory in use, and
/// reading the settings file back gives them again, directory included (when the
/// directory can be stored).
pub proof fn law_saved_settings_keep_log_dir(v: AppView)
    requires
        v.persist,
    ensures
        v.start_timer().effects.last() == crate::app::EffectView::SaveConfig(v.config()),
        v.config().log_dir == v.log_dir,
        log_dir_storable(v.log_dir) ==> config_lines(lines(config_text(v.config()))) == v.config(),
{
    if log_dir_storable(v.log_dir) {
        law_config_round_trip(v.config());
    }
}

/// Onboarding with saving on: confirming a typed directory asks for it to be prepared
/// with the settings as they stand; the settings saved for it (the expanded directory
/// as their log directory) are the settings the application has once that directory
/// is ready.
pub proof fn law_onboarding_saves_new_dir(v: AppView, home: Seq<char>)
    requires
        v.persist,
        trim(v.onboarding.input_buffer).len() > 0,
    ensures
        v.onboarding_confirmed().effects.last() == crate::app::EffectView::PrepareLogDir(
            trim(v.onboarding.input_buffer),
            Some(v.config()),
        ),
        v.onboarding_confirmed().dir_ready(expanded_path(trim(v.onboarding.input_buffer), home)).log_dir
            == expanded_path(trim(v.onboarding.input_buffer), home),
        v.onboarding_confirmed().dir_ready(expanded_path(trim(v.onboarding.input_buffer), home)).config() == (ConfigView {
            log_dir: expanded_path(trim(v.onboarding.input_buffer), home),
            ..v.config()
        }),
{
}

/// Deleting on a non-empty todo list removes exactly the entry under the cursor: the
/// entries before it stay where they were, those after it move up by one, and the list
/// is one shorter.
pub proof fn law_delete_removes_selected(v: AppView)
    requires
        v.todo.items.len() > 0,
        v.todo_cursor_ok(),
    ensures
        v.todo_deleted().todo.items.len() == v.todo.items.len() - 1,
        forall|j: int| 0 <= j < v.todo.cursor ==> #[trigger] v.todo_deleted().todo.items[j] == v.todo.items[j],
        forall|j: int|
            v.todo.cursor <= j < v.todo.items.len() - 1 ==> #[trigger] v.todo_deleted().todo.items[j] == v.todo.items[j
                + 1],
        v.todo.cursor + 1 < v.todo.items.len() ==> v.todo_deleted().todo.cursor == v.todo.cursor,
        v.todo.cursor + 1 == v.todo.items.len() && v.todo.cursor > 0 ==> v.todo_deleted().todo.cursor == v.todo.cursor - 1,
        v.todo.items.len() == 1 ==> v.todo_deleted().todo.cursor == 0,
        v.todo_deleted().todo_cursor_ok(),
        v.persist ==> v.todo_deleted().effects == v.effects.push(crate::app::EffectView::SaveTodos),
        !v.persist ==> v.todo_deleted().effects == v.effects,
{
}

/// Every entry line starts with `- ` and its checkbox: `[h]` for a session spent
/// helping others, `[x]` for a completed one, `[ ]` for any other; and the text
/// appended to a log for an entry ends with those lines.
pub proof fn law_entry_mark(e: WorkEntryView, is_new: bool, existing: Seq<char>)
    ensures
        entry_text(e).len() >= 6,
        entry_text(e)[0] == '-',
        entry_text(e)[1] == ' ',
        entry_text(e)[2] == '[',
        e.helping ==> entry_text(e)[3] == 'h',
        !e.helping && e.completed ==> entry_text(e)[3] == 'x',
        !e.helping && !e.completed ==> entry_text(e)[3] == ' ',
        entry_text(e)[4] == ']',
        entry_text(e)[5] == ' ',
        work_entry_text(e, is_new, existing).len() >= entry_text(e).len(),
        work_entry_text(e, is_new, existing).subrange(
            work_entry_text(e, is_new, existing).len() - entry_text(e).len(),
            work_entry_text(e, is_new, existing).len() as int,
        ) == entry_text(e),
{
    let w = work_entry_text(e, is_new, existing);
    let t = entry_text(e);
    assert(w.subrange(w.len() - t.len(), w.len() as int) =~= t);
}

/// A work session ended early (as done, or to help others) and then closed on the
/// notes screen, with notes typed or skipped, writes one entry when persisting: dated
/// today, for the current task, as long as the session ran, completed, marked as
/// helping exactly when it was ended to help others, with the typed notes trimmed (or
/// none when skipped).
pub proof fn law_ended_session_entry(v: AppView, outcome: Outcome, typed: Seq<char>)
    requires
        v.persist,
        v.active_work(),
        outcome == Outcome::Completed || outcome == Outcome::Helping,
    ensures
        ({
            let w = AppView { notes_input_buffer: typed, ..v.complete_work_session(outcome) };
            let k = v.effects.len() as int;
            &&& w.submit_notes().effects.len() > k
            &&& w.submit_notes().effects[k] matches crate::app::EffectView::SaveWorkEntry(e) && e.helping == (outcome
                == Outcome::Helping) && e.completed && e.duration_secs == v.elapsed() && e.date == v.clock.date && e.task
                == v.current_task && e.notes == trim(typed)
            &&& w.skip_notes().effects.len() > k
            &&& w.skip_notes().effects[k] matches crate::app::EffectView::SaveWorkEntry(e) && e.helping == (outcome
                == Outcome::Helping) && e.completed && e.duration_secs == v.elapsed() && e.date == v.clock.date && e.task
                == v.current_task && e.notes.len() == 0
        }),
{
}

/// While a work phase runs on the timer screen, today's work time is the time already
/// logged for today plus the time the phase has run.
pub proof fn law_today_counts_running_work(v: AppView)
    requires
        v.active_work(),
        v.screen == Screen::Timer,
    ensures
        v.today_work() == day_or_empty(v.daily_stats, v.clock.date).work_secs + v.elapsed(),
{
}

/// While a work phase runs unpaused on the timer screen, today's work time grows by one
/// second for every second on the clock.
pub proof fn law_today_work_grows_with_clock(v: AppView)
    requires
        v.active_work(),
        v.screen == Screen::Timer,
        !v.paused,
        v.timer.pause_start is None,
        v.timer.phase_start + v.timer.pause_accumulated <= v.clock.now_ms,
        v.clock.now_ms + 1000 <= u64::MAX,
    ensures
        at_time(v, (v.clock.now_ms + 1000) as u64).today_work() == v.today_work() + 1,
{
    let x = v.clock.now_ms - v.timer.phase_start - v.timer.pause_accumulated;
    assert((x + 1000) / 1000 == x / 1000 + 1);
}

/// Ending a running work phase as done on the timer screen leaves today's work time
/// as it was: the time it ran moves from the running phase into today's totals.
pub proof fn law_ending_work_keeps_today(v: AppView)
    requires
        v.active_work(),
        v.screen == Screen::Timer,
        v.complete_ok(Outcome::Completed),
    ensures
        v.complete_work_session(Outcome::Completed).today_work() == v.today_work(),
{
    let d = day_or_empty(v.daily_stats, v.clock.date);
    law_lookup_after_upsert(v.daily_stats, v.clock.date, add_day(d, v.elapsed(), 0, 1), v.clock.date);
}

/// When persisting, a new date (after an earlier one) starts the day afresh: the first
/// session, an empty history, and the new date remembered.
pub proof fn law_new_day_starts_first_session(v: AppView)
    requires
        v.persist,
        v.last_date.len() > 0,
        v.last_date != v.clock.date,
    ensures
        v.check_date_change().session == 1,
        v.check_date_change().history.len() == 0,
        v.check_date_change().last_date == v.clock.date,
        v.check_date_change().effects == v.effects.push(crate::app::EffectView::LoadDailyStats).push(
            crate::app::EffectView::LoadTodos,
        ),
{
}

/// On the same date, or on the first tick of a run, the sessions, the history and the
/// queued work carry on; only the date is remembered. Without persisting nothing changes.
pub proof fn law_same_day_keeps_sessions(v: AppView)
    requires
        v.last_date.len() == 0 || v.last_date == v.clock.date,
    ensures
        v.check_date_change().session == v.session,
        v.check_date_change().history == v.history,
        v.check_date_change().effects == v.effects,
        v.persist ==> v.check_date_change().last_date == v.clock.date,
        !v.persist ==> v.check_date_change() == v,
{
}

/// A tick during a work phase, with no sleep to account for, on a new date (when
/// persisting) leaves the first session of the day and an empty history.
pub proof fn law_tick_on_new_day(v: AppView)
    requires
        v.persist,
        v.phase == Phase::Work,
        v.last_date.len() > 0,
        v.last_date != v.clock.date,
        v.clock.now_ms < v.timer.last_tick + 30000,
    ensures
        v.tick().session == 1,
        v.tick().history.len() == 0,
        v.tick().last_date == v.clock.date,
{
}

// ---------------------------------------------------------------------------
// What a log gives back of what was written to it
// ---------------------------------------------------------------------------

/// A text without a line break.
pub open spec fn no_line_break(s: Seq<char>) -> bool {
    forall|j: int| 0 <= j < s.len() ==> s[j] != '\n'
}

/// An entry the logs can hold: a date as the logs spell it, times without parentheses,
/// and no field breaking the line.
pub open spec fn entry_writable(e: WorkEntryView) -> bool {
    &&& times_plain(e)
    &&& is_date(e.date)
    &&& trim(e.date) == e.date
    &&& date_name_ok(encode_utf8(e.date))
    &&& no_line_break(e.date)
    &&& no_line_break(e.start_time)
    &&& no_line_break(e.end_time)
    &&& no_line_break(e.task)
    &&& no_line_break(e.notes)
}

/// The totals after one more session of the entry on its date, counted as helping
/// when it was helping.
pub open spec fn logged(stats: Seq<(Seq<char>, DayStats)>, e: WorkEntryView) -> Seq<(Seq<char>, DayStats)> {
    upsert(stats, e.date, bump(day_or_empty(stats, e.date), e.duration_secs as nat, e.helping))
}

/// The state after reading the lines `ls` on from the state `st`.
pub open spec fn fold_from(st: QuarterState, ls: Seq<Seq<char>>) -> QuarterState
    decreases ls.len(),
{
    if ls.len() == 0 {
        st
    } else {
        quarterly_step(fold_from(st, ls.drop_last()), ls.last())
    }
}

proof fn lemma_fold_concat(stats: Seq<(Seq<char>, DayStats)>, a: Seq<Seq<char>>, b: Seq<Seq<char>>)
    ensures
        quarterly_fold(stats, a + b) == fold_from(quarterly_fold(stats, a), b),
    decreases b.len(),
{
    if b.len() == 0 {
        assert(a + b =~= a);
    } else {
        lemma_fold_concat(stats, a, b.drop_last());
        assert((a + b).drop_last() =~= a + b.drop_last());
        assert((a + b).last() == b.last());
    }
}

proof fn lemma_no_line_break_concat(a: Seq<char>, b: Seq<char>)
    requires
        no_line_break(a),
        no_line_break(b),
    ensures
        no_line_break(a + b),
{
    assert forall|j: int| 0 <= j < (a + b).len() implies (a + b)[j] != '\n' by {
        if j < a.len() {
            assert((a + b)[j] == a[j]);
        } else {
            assert((a + b)[j] == b[j - a.len()]);
        }
    }
}

proof fn lemma_digits_no_line_break(s: Seq<char>)
    requires
        forall|i: int| 0 <= i < s.len() ==> is_digit(#[trigger] s[i]),
    ensures
        no_line_break(s),
{
    assert forall|j: int| 0 <= j < s.len() implies s[j] != '\n' by {
        assert(is_digit(s[j]));
    }
}

/// A line that is neither a date heading nor an entry leaves the reading state alone.
proof fn lemma_plain_line(st: QuarterState, l: Seq<char>)
    requires
        l.len() < 2 || l[0] != '-' && l[0] != '#' || l[0] == '#' && l[1] != '#',
    ensures
        quarterly_step(st, l) == st,
{
    reveal_strlit("## ");
    reveal_strlit("- ");
    if l.len() >= 2 {
        assert(l.take(2) != "- "@) by {
            assert(l.take(2)[0] == l[0]);
        }
        if l.len() >= 3 {
            assert(l.take(3) != "## "@) by {
                assert(l.take(3)[0] == l[0]);
                assert(l.take(3)[1] == l[1]);
            }
        }
    }
}

/// The lines of a text that starts with the line `x`.
proof fn lemma_first_line(x: Seq<char>, rest: Seq<char>)
    requires
        no_line_break(x),
    ensures
        lines(x + seq!['\n'] + rest) == seq![strip_cr(x)] + lines(rest),
{
    lemma_lines_single(x);
    lemma_lines_concat(x + seq!['\n'], rest);
}

/// What follows the duration on an entry line: the task after a space, if any.
pub open spec fn entry_tail_text(e: WorkEntryView) -> Seq<char> {
    if e.task.len() == 0 {
        Seq::<char>::empty()
    } else {
        seq![' '] + e.task
    }
}

#[verifier::spinoff_prover]
proof fn lemma_entry_line_breaks(e: WorkEntryView)
    requires
        entry_writable(e),
    ensures
        no_line_break(seq!['-', ' '] + entry_body(e)),
        seq!['-', ' '] + entry_body(e) == seq!['-', ' '] + entry_lead(e) + entry_tail_text(e),
        strip_cr(seq!['-', ' '] + entry_body(e)) == seq!['-', ' '] + entry_lead(e) + (if entry_tail_text(e).len() > 0
            && entry_tail_text(e).last() == '\r' {
            entry_tail_text(e).drop_last()
        } else {
            entry_tail_text(e)
        }),
{
    lemma_zero_pad_digits((e.duration_secs / 60) as nat, 2);
    lemma_zero_pad_digits((e.duration_secs % 60) as nat, 2);
    let m1 = zero_pad(dec((e.duration_secs / 60) as nat), 2);
    let m2 = zero_pad(dec((e.duration_secs % 60) as nat), 2);
    lemma_digits_no_line_break(m1);
    lemma_digits_no_line_break(m2);
    assert(no_line_break(seq![':']));
    lemma_no_line_break_concat(m1, seq![':']);
    lemma_no_line_break_concat(m1 + seq![':'], m2);
    assert(mmss(e.duration_secs) == m1 + seq![':'] + m2);
    let mark = entry_mark(e);
    assert(no_line_break(mark));
    assert(no_line_break(seq!['-', ' ']));
    assert(no_line_break(seq![' ']));
    assert(no_line_break(seq![' ', '–', ' ']));
    assert(no_line_break(seq![' ', '(']));
    assert(no_line_break(seq![')']));
    let tail = entry_tail_text(e);
    assert(no_line_break(Seq::<char>::empty()));
    lemma_no_line_break_concat(seq![' '], e.task);
    let p1 = seq!['-', ' '] + mark;
    lemma_no_line_break_concat(seq!['-', ' '], mark);
    lemma_no_line_break_concat(p1, seq![' ']);
    lemma_no_line_break_concat(p1 + seq![' '], e.start_time);
    let p2 = p1 + seq![' '] + e.start_time;
    lemma_no_line_break_concat(p2, seq![' ', '–', ' ']);
    lemma_no_line_break_concat(p2 + seq![' ', '–', ' '], e.end_time);
    let p3 = p2 + seq![' ', '–', ' '] + e.end_time;
    lemma_no_line_break_concat(p3, seq![' ', '(']);
    lemma_no_line_break_concat(p3 + seq![' ', '('], mmss(e.duration_secs));
    let p4 = p3 + seq![' ', '('] + mmss(e.duration_secs);
    lemma_no_line_break_concat(p4, seq![')']);
    lemma_no_line_break_concat(p4 + seq![')'], tail);
    let x = seq!['-', ' '] + entry_body(e);
    assert(x =~= p4 + seq![')'] + tail);
    assert(x =~= seq!['-', ' '] + entry_lead(e) + tail);
    if tail.len() > 0 && tail.last() == '\r' {
        assert(x.drop_last() =~= seq!['-', ' '] + entry_lead(e) + tail.drop_last());
    } else if tail.len() == 0 {
        assert(x.last() == ')');
    }
}

/// The lines of an entry: its entry line, then its notes line when it has notes.
#[verifier::spinoff_prover]
proof fn lemma_entry_lines(e: WorkEntryView)
    requires
        entry_writable(e),
    ensures
        lines(entry_text(e)) == seq![strip_cr(seq!['-', ' '] + entry_body(e))] + (if e.notes.len() > 0 {
            seq![strip_cr(seq![' ', ' ', '>', ' '] + e.notes)]
        } else {
            Seq::<Seq<char>>::empty()
        }),
{
    lemma_entry_line_breaks(e);
    let x = seq!['-', ' '] + entry_body(e);
    let notes_part = if e.notes.len() > 0 {
        seq![' ', ' ', '>', ' '] + e.notes + seq!['\n']
    } else {
        Seq::<char>::empty()
    };
    assert(entry_text(e) =~= x + seq!['\n'] + notes_part);
    lemma_first_line(x, notes_part);
    if e.notes.len() > 0 {
        let y = seq![' ', ' ', '>', ' '] + e.notes;
        assert(no_line_break(seq![' ', ' ', '>', ' ']));
        lemma_no_line_break_concat(seq![' ', ' ', '>', ' '], e.notes);
        lemma_first_line(y, Seq::<char>::empty());
        assert(notes_part =~= y + seq!['\n'] + Seq::<char>::empty());
        assert(lines(Seq::<char>::empty()) == Seq::<Seq<char>>::empty());
        assert(seq![strip_cr(y)] + Seq::<Seq<char>>::empty() =~= seq![strip_cr(y)]);
    } else {
        assert(lines(Seq::<char>::empty()) == Seq::<Seq<char>>::empty());
    }
}

#[verifier::spinoff_prover]
proof fn lemma_block_lines(e: WorkEntryView)
    requires
        entry_writable(e),
    ensures
        lines(seq!['\n'] + date_heading(e.date) + seq!['\n', '\n'] + entry_text(e)) == seq![
            Seq::<char>::empty(),
            date_heading(e.date),
            Seq::<char>::empty(),
        ] + lines(entry_text(e)),
{
    let h = date_heading(e.date);
    let e0 = Seq::<char>::empty();
    assert(no_line_break(seq!['#', '#', ' ']));
    lemma_no_line_break_concat(seq!['#', '#', ' '], e.date);
    assert(no_line_break(e0));
    assert(e.date.len() > 0) by {
        if e.date.len() == 0 {
            assert(e.date =~= Seq::<char>::empty());
            assert(encode_utf8(e.date).len() == 0);
        }
    }
    lemma_trimmed_end(e.date);
    assert(h.last() == e.date.last());
    assert(strip_cr(h) == h);
    assert(strip_cr(e0) == e0);
    let c = entry_text(e);
    lemma_first_line(e0, c);
    let r2 = h + seq!['\n'] + (e0 + seq!['\n'] + c);
    lemma_first_line(h, e0 + seq!['\n'] + c);
    lemma_first_line(e0, r2);
    assert(seq!['\n'] + h + seq!['\n', '\n'] + c =~= e0 + seq!['\n'] + r2);
    assert(seq![e0] + (seq![h] + (seq![e0] + lines(c))) =~= seq![e0, h, e0] + lines(c));
}

/// The steps of reading a date heading and then an entry line.
#[verifier::spinoff_prover]
proof fn lemma_block_steps(st: QuarterState, e: WorkEntryView)
    requires
        entry_writable(e),
    ensures
        quarterly_step(
            quarterly_step(quarterly_step(quarterly_step(st, Seq::empty()), date_heading(e.date)), Seq::empty()),
            strip_cr(seq!['-', ' '] + entry_body(e)),
        ) == (logged(st.0, e), Some(e.date)),
{
    let e0 = Seq::<char>::empty();
    let s1 = quarterly_step(st, e0);
    lemma_plain_line(st, e0);
    lemma_heading_sets_date(s1, e.date);
    let s2 = quarterly_step(s1, date_heading(e.date));
    lemma_plain_line(s2, e0);
    let s3 = quarterly_step(s2, e0);
    lemma_entry_line_breaks(e);
    let tail = entry_tail_text(e);
    let t2 = if tail.len() > 0 && tail.last() == '\r' { tail.drop_last() } else { tail };
    lemma_lead_line_counts(s3, DayStats { work_secs: 0, helping_secs: 0, sessions: 0 }, e, t2);
}

/// Reading a date heading and then an entry from any state counts the entry on that
/// date; an empty line or a notes line changes nothing.
#[verifier::spinoff_prover]
proof fn lemma_block_reads(st: QuarterState, e: WorkEntryView)
    requires
        entry_writable(e),
    ensures
        fold_from(st, lines(seq!['\n'] + date_heading(e.date) + seq!['\n', '\n'] + entry_text(e))) == (logged(st.0, e), Some(e.date)),
{
    let h = date_heading(e.date);
    let e0 = Seq::<char>::empty();
    lemma_block_lines(e);
    lemma_entry_lines(e);
    lemma_block_steps(st, e);
    let x = strip_cr(seq!['-', ' '] + entry_body(e));
    let s1 = quarterly_step(st, e0);
    let s2 = quarterly_step(s1, h);
    let s3 = quarterly_step(s2, e0);
    let s4 = quarterly_step(s3, x);
    let l1 = seq![e0];
    let l2 = seq![e0, h];
    let l3 = seq![e0, h, e0];
    let l4 = seq![e0, h, e0, x];
    assert(l1.drop_last() =~= Seq::<Seq<char>>::empty());
    assert(fold_from(st, Seq::<Seq<char>>::empty()) == st);
    assert(fold_from(st, l1) == s1);
    assert(l2.drop_last() =~= l1);
    assert(fold_from(st, l2) == s2);
    assert(l3.drop_last() =~= l2);
    assert(fold_from(st, l3) == s3);
    assert(l4.drop_last() =~= l3);
    assert(fold_from(st, l4) == s4);
    let ls = lines(seq!['\n'] + h + seq!['\n', '\n'] + entry_text(e));
    if e.notes.len() > 0 {
        let y = strip_cr(seq![' ', ' ', '>', ' '] + e.notes);
        let l5 = seq![e0, h, e0, x, y];
        assert(ls =~= l5);
        assert(l5.drop_last() =~= l4);
        assert(y[0] == ' ');
        lemma_plain_line(s4, y);
        assert(fold_from(st, l5) == s4);
    } else {
        assert(ls =~= l4);
    }
}

/// Appending an entry to a quarterly log that does not hold its date's heading yet, and
/// reading the log back, counts one session of the entry's duration on its date (as
/// helping when it was helping) on top of what the log held before.
#[verifier::spinoff_prover]
pub proof fn law_appended_entry_reads_back(stats: Seq<(Seq<char>, DayStats)>, existing: Seq<char>, e: WorkEntryView)
    requires
        entry_writable(e),
        existing.len() == 0 || existing.last() == '\n',
        !contains(existing, date_heading(e.date)),
    ensures
        quarterly_fold(stats, lines(existing + work_entry_text(e, false, existing))).0 == logged(
            quarterly_fold(stats, lines(existing)).0,
            e,
        ),
{
    let block = seq!['\n'] + date_heading(e.date) + seq!['\n', '\n'] + entry_text(e);
    assert(work_entry_text(e, false, existing) =~= block);
    lemma_lines_concat(existing, block);
    lemma_fold_concat(stats, lines(existing), lines(block));
    lemma_block_reads(quarterly_fold(stats, lines(existing)), e);
}

#[verifier::spinoff_prover]
proof fn lemma_title_line(e: WorkEntryView)
    requires
        entry_writable(e),
    ensures
        no_line_break(seq!['#', ' '] + quarterly_heading(encode_utf8(e.date))),
        strip_cr(seq!['#', ' '] + quarterly_heading(encode_utf8(e.date))) == seq!['#', ' '] + quarterly_heading(
            encode_utf8(e.date),
        ),
{
    let b = encode_utf8(e.date);
    encode_utf8_valid_utf8(e.date);
    encode_utf8_decode_utf8(e.date);
    decode_utf8_split(b, 4);
    let y = year_field(b);
    assert(e.date =~= y + decode_utf8(b.subrange(4, b.len() as int)));
    assert forall|j: int| 0 <= j < y.len() implies y[j] != '\n' by {
        assert(y[j] == e.date[j]);
    }
    let q = dec(quarter(month_of(b)));
    lemma_dec_digits(quarter(month_of(b)));
    lemma_digits_no_line_break(q);
    assert(no_line_break(seq![' ', 'Q']));
    lemma_no_line_break_concat(y, seq![' ', 'Q']);
    lemma_no_line_break_concat(y + seq![' ', 'Q'], q);
    assert(quarterly_heading(b) == y + seq![' ', 'Q'] + q);
    assert(no_line_break(seq!['#', ' ']));
    lemma_no_line_break_concat(seq!['#', ' '], quarterly_heading(b));
    let first = seq!['#', ' '] + quarterly_heading(b);
    assert(first.last() == q.last());
    assert(is_digit(q[q.len() - 1]));
}

/// Writing an entry to a new quarterly log and reading the log back counts one session
/// of the entry's duration on its date, as helping when it was helping.
#[verifier::spinoff_prover]
pub proof fn law_new_log_reads_back(stats: Seq<(Seq<char>, DayStats)>, e: WorkEntryView)
    requires
        entry_writable(e),
    ensures
        quarterly_fold(stats, lines(work_entry_text(e, true, Seq::empty()))).0 == logged(stats, e),
{
    lemma_title_line(e);
    let first = seq!['#', ' '] + quarterly_heading(encode_utf8(e.date));
    let block = seq!['\n'] + date_heading(e.date) + seq!['\n', '\n'] + entry_text(e);
    let e0 = Seq::<char>::empty();
    assert(work_entry_text(e, true, Seq::empty()) =~= first + seq!['\n'] + (e0 + seq!['\n'] + block));
    lemma_first_line(first, e0 + seq!['\n'] + block);
    assert(no_line_break(e0));
    assert(strip_cr(e0) == e0);
    lemma_first_line(e0, block);
    let pre = seq![first, e0];
    assert(lines(work_entry_text(e, true, Seq::empty())) =~= pre + lines(block));
    lemma_fold_concat(stats, pre, lines(block));
    assert(pre.drop_last() =~= seq![first]);
    assert(pre.drop_last().drop_last() =~= Seq::<Seq<char>>::empty());
    lemma_plain_line((stats, None), first);
    lemma_plain_line((stats, None), e0);
    reveal_with_fuel(quarterly_fold, 3);
    assert(quarterly_fold(stats, pre) == (stats, None::<Seq<char>>));
    lemma_block_reads((stats, None), e);
}

} // verus!
