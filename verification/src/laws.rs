use vstd::prelude::*;
use vstd::utf8::*;

use crate::app::{
    after_event, is_key, is_scoring, is_setup, key_ok, key_step, minute_or_zero, phase_limit,
    target_step, tick_ok, tick_step, tie_choice, AppView, InputTarget,
};
use crate::input::{input_key_ok, input_step, utf8, InputView, KeyCode};
use crate::models::{
    event_points, event_team, opponent, points, CardType, EventView, MatchView, Phase, Team,
};
use crate::text::trimmed;
use crate::ui::{decimal, header_line, panel_lines, panel_title, stat_line, truncated, LineView, Shade};

verus! {

/// Whether a key press is the undo command given while no prompt is open.
pub open spec fn is_undo(a: AppView, code: KeyCode) -> bool {
    !a.input.active && is_key(code, 'u', 'U')
}

/// The clock time and the possession times of two records are the same.
pub open spec fn same_times(x: MatchView, y: MatchView) -> bool {
    &&& x.elapsed_secs == y.elapsed_secs
    &&& x.possession_secs_a == y.possession_secs_a
    &&& x.possession_secs_b == y.possession_secs_b
}

/// Two records agree apart from the clock and possession switches.
pub open spec fn same_record(x: MatchView, y: MatchView) -> bool {
    MatchView { clock_running: y.clock_running, in_possession: y.in_possession, ..x } == y
}

/// A key press moves no clock time, and it either leaves the record (but for
/// the clock and possession switches) and the undo history as they were, or
/// saves the previous record on top of the history.
pub open spec fn saves_or_keeps(a: AppView, b: AppView) -> bool {
    &&& same_times(a.state, b.state)
    &&& {
        ||| (same_record(b.state, a.state) && b.undo_stack == a.undo_stack)
        ||| b.undo_stack == a.undo_stack.push(a.state)
    }
}

proof fn lemma_target_step_history(a: AppView, target: InputTarget, submitted: bool, value: Option<Seq<char>>)
    requires
        !is_setup(target),
    ensures
        saves_or_keeps(a, target_step(a, target, submitted, value)),
{
}

/// Every key press but undo and the naming of the teams either leaves the
/// record and its undo history alone or saves the previous record on top of
/// the history.
pub proof fn lemma_history(a: AppView, code: KeyCode)
    requires
        key_ok(a, code),
        !is_setup(a.input_target),
        !is_undo(a, code),
    ensures
        saves_or_keeps(a, key_step(a, code).0),
{
    if a.input.active {
        let (iv, res) = input_step(a.input, code);
        let a1 = AppView { input: iv, ..a };
        if !iv.active {
            lemma_target_step_history(a1, a1.input_target, res is Some, res);
        }
    }
}

/// Undo, with no prompt open, brings back the record on top of the history
/// whole and drops it from the history.
pub proof fn lemma_undo_restores(b: AppView, prev: MatchView, history: Seq<MatchView>)
    requires
        !b.input.active,
        b.undo_stack == history.push(prev),
    ensures
        key_step(b, KeyCode::Char('u')).0.state == prev,
        key_step(b, KeyCode::Char('u')).0.undo_stack == history,
{
    assert(history.push(prev).drop_last() =~= history);
}

/// Undoing the last action: after any key press other than undo and the
/// naming of the teams that changed the undo history and left no prompt
/// open, undo brings back the record and the history as they were before.
pub proof fn lemma_undo_reverts_last_action(a: AppView, code: KeyCode)
    requires
        key_ok(a, code),
        !is_setup(a.input_target),
        !is_undo(a, code),
        key_step(a, code).0.undo_stack != a.undo_stack,
        !key_step(a, code).0.input.active,
    ensures
        key_step(key_step(a, code).0, KeyCode::Char('u')).0.state == a.state,
        key_step(key_step(a, code).0, KeyCode::Char('u')).0.undo_stack == a.undo_stack,
{
    lemma_history(a, code);
    lemma_undo_restores(key_step(a, code).0, a.state, a.undo_stack);
}

/// In a record, no team has completed more sets than it has attempted.
pub open spec fn sets_consistent(s: MatchView) -> bool {
    &&& s.sets_completed_a <= s.sets_attempted_a
    &&& s.sets_completed_b <= s.sets_attempted_b
}

/// The current record and every record in the undo history are consistent.
pub open spec fn all_sets_consistent(a: AppView) -> bool {
    &&& sets_consistent(a.state)
    &&& forall|i: int| 0 <= i < a.undo_stack.len() ==> sets_consistent(#[trigger] a.undo_stack[i])
}

proof fn lemma_target_step_sets(a: AppView, target: InputTarget, submitted: bool, value: Option<Seq<char>>)
    requires
        all_sets_consistent(a),
    ensures
        all_sets_consistent(target_step(a, target, submitted, value)),
{
    let b = target_step(a, target, submitted, value);
    assert forall|i: int| 0 <= i < b.undo_stack.len() implies sets_consistent(
        #[trigger] b.undo_stack[i],
    ) by {
        if i < a.undo_stack.len() {
            assert(b.undo_stack[i] == a.undo_stack[i]);
        }
    }
}

/// No key press makes a team's completed sets exceed its attempted sets,
/// in the current record or in the undo history.
pub proof fn lemma_sets_stay_consistent(a: AppView, code: KeyCode)
    requires
        key_ok(a, code),
        all_sets_consistent(a),
    ensures
        all_sets_consistent(key_step(a, code).0),
{
    let b = key_step(a, code).0;
    if a.input.active {
        let (iv, res) = input_step(a.input, code);
        let a1 = AppView { input: iv, ..a };
        if !iv.active {
            lemma_target_step_sets(a1, a1.input_target, res is Some, res);
        }
    } else {
        assert forall|i: int| 0 <= i < b.undo_stack.len() implies sets_consistent(
            #[trigger] b.undo_stack[i],
        ) by {
            if i < a.undo_stack.len() {
                assert(b.undo_stack[i] == a.undo_stack[i]);
            }
        }
    }
}

/// The record of a freshly opened tracker is consistent.
pub proof fn lemma_initial_sets_consistent(names_a: Seq<char>, names_b: Seq<char>)
    ensures
        sets_consistent(MatchView::initial(names_a, names_b)),
{
}

/// The events of `e2` are those of `e1`, with at most one more at the end.
pub open spec fn extends_by_at_most_one(e1: Seq<EventView>, e2: Seq<EventView>) -> bool {
    e2 == e1 || (e2.len() == e1.len() + 1 && e2.drop_last() == e1)
}

/// Recording an event never lowers a score.
pub proof fn lemma_points_extend(e1: Seq<EventView>, e2: Seq<EventView>, team: Team)
    requires
        extends_by_at_most_one(e1, e2),
    ensures
        points(e2, team) >= points(e1, team),
{
}

/// A team's score in a record is the sum of its scores over any split of the
/// record's events into a first and a second part; it depends on the events
/// alone, so two records with the same events give a team the same score.
pub proof fn lemma_record_score_additive(s1: MatchView, s2: MatchView, s3: MatchView, team: Team)
    requires
        s2.events == s1.events + s3.events,
    ensures
        s2.score_of(team) == s1.score_of(team) + s3.score_of(team),
        s2.score_of(team) >= s1.score_of(team),
        s3.events.len() == 0 ==> s2.score_of(team) == s1.score_of(team),
{
    crate::models::lemma_points_concat(s1.events, s3.events, team);
}

/// Every key press but undo keeps the recorded events and adds at most one
/// at the end, so no score ever goes down except by undo.
pub proof fn lemma_record_only_grows(a: AppView, code: KeyCode)
    requires
        key_ok(a, code),
        !is_undo(a, code),
    ensures
        extends_by_at_most_one(a.state.events, key_step(a, code).0.state.events),
        forall|team: Team|
            points(#[trigger] key_step(a, code).0.state.events, team) >= points(
                a.state.events,
                team,
            ),
{
    let b = key_step(a, code).0;
    if a.input.active {
        let (iv, res) = input_step(a.input, code);
        let a1 = AppView { input: iv, ..a };
        if !iv.active {
            assert(extends_by_at_most_one(a.state.events, b.state.events)) by {
                if b.state.events != a.state.events {
                    assert(b.state.events.drop_last() =~= a.state.events);
                }
            }
        }
    } else if !a.input.active {
        assert(extends_by_at_most_one(a.state.events, b.state.events)) by {
            if b.state.events != a.state.events {
                assert(b.state.events.drop_last() =~= a.state.events);
            }
        }
    }
    assert forall|team: Team|
        points(#[trigger] key_step(a, code).0.state.events, team) >= points(
            a.state.events,
            team,
        ) by {
        lemma_points_extend(a.state.events, b.state.events, team);
    }
}

/// The UTF-8 bytes of a text with one more character are those of the text
/// followed by those of the character.
pub proof fn lemma_utf8_push(s: Seq<char>, c: char)
    ensures
        utf8(s.push(c)) == utf8(s) + utf8(seq![c]),
    decreases s.len(),
{
    if s.len() == 0 {
        assert(s.push(c) =~= seq![c]);
        assert(utf8(s) =~= Seq::<u8>::empty());
        assert(utf8(s) + utf8(seq![c]) =~= utf8(seq![c]));
    } else {
        lemma_utf8_push(s.drop_first(), c);
        assert(s.push(c).drop_first() =~= s.drop_first().push(c));
        assert(utf8(s.push(c)) =~= utf8(s) + utf8(seq![c]));
    }
}

/// The prompt after the characters of `s` were typed one after another.
pub open spec fn typed(v: InputView, s: Seq<char>) -> InputView
    decreases s.len(),
{
    if s.len() == 0 {
        v
    } else {
        input_step(typed(v, s.drop_last()), KeyCode::Char(s.last())).0
    }
}

proof fn lemma_typed_ascii(prompt: Seq<char>, s: Seq<char>)
    requires
        is_ascii_chars(s),
        s.len() < usize::MAX,
    ensures
        typed(InputView::started(prompt), s) == (InputView {
            buffer: s,
            active: true,
            prompt,
            cursor: s.len() as usize,
        }),
        utf8(s).len() == s.len(),
    decreases s.len(),
{
    broadcast use vstd::utf8::is_ascii_chars_encode_utf8;

    if s.len() == 0 {
        assert(s =~= Seq::<char>::empty());
    } else {
        let init = s.drop_last();
        let c = s.last();
        assert(is_ascii_chars(init));
        lemma_typed_ascii(prompt, init);
        let b = utf8(init);
        assert(b.take(init.len() as int) =~= b);
        assert(b.skip(init.len() as int) =~= Seq::<u8>::empty());
        lemma_utf8_push(init, c);
        assert(init.push(c) =~= s);
        assert(b.take(init.len() as int) + utf8(seq![c]) + b.skip(init.len() as int) =~= utf8(s));
        encode_utf8_decode_utf8(s);
    }
}

/// Typing text into an open, empty prompt and pressing Enter submits exactly
/// that text: each character typed is accepted, the line holds what was
/// typed with the cursor at its end, and Enter closes the prompt with it.
/// This holds for ASCII text, where each character is one byte.
pub proof fn lemma_typing_then_enter(prompt: Seq<char>, s: Seq<char>)
    requires
        is_ascii_chars(s),
        s.len() < usize::MAX,
    ensures
        forall|k: int|
            0 <= k < s.len() ==> input_key_ok(
                #[trigger] typed(InputView::started(prompt), s.take(k)),
                KeyCode::Char(s[k]),
            ),
        typed(InputView::started(prompt), s).buffer == s,
        typed(InputView::started(prompt), s).cursor == s.len(),
        input_step(typed(InputView::started(prompt), s), KeyCode::Enter).1 == Some(s),
        !input_step(typed(InputView::started(prompt), s), KeyCode::Enter).0.active,
{
    broadcast use vstd::utf8::encode_utf8_valid_utf8;
    broadcast use vstd::utf8::is_char_boundary_start_end_of_seq;

    lemma_typed_ascii(prompt, s);
    assert forall|k: int| 0 <= k < s.len() implies input_key_ok(
        #[trigger] typed(InputView::started(prompt), s.take(k)),
        KeyCode::Char(s[k]),
    ) by {
        assert(is_ascii_chars(s.take(k)));
        lemma_typed_ascii(prompt, s.take(k));
        assert(is_char_boundary(utf8(s.take(k)), utf8(s.take(k)).len() as int));
    }
}

/// The tracker after `n` ticks of the display loop in which no whole second
/// passed.
pub open spec fn ticked(a: AppView, n: nat) -> AppView
    decreases n,
{
    if n == 0 {
        a
    } else {
        tick_step(ticked(a, (n - 1) as nat), 0)
    }
}

/// A new message stays on display for 25 ticks and is gone from the 26th
/// tick on, while the match clock is stopped.
pub proof fn lemma_message_lifetime(a: AppView, n: nat)
    requires
        !a.state.clock_running,
        a.message is Some,
        a.message_ticks == 0,
    ensures
        n <= 25 ==> ticked(a, n).message == a.message && ticked(a, n).message_ticks == n,
        n >= 26 ==> ticked(a, n).message is None,
        ticked(a, n).state == a.state,
    decreases n,
{
    if n > 0 {
        lemma_message_lifetime(a, (n - 1) as nat);
    }
}

/// Tab passes play to the other team and leaves the clock alone; Space
/// starts or pauses the clock and leaves the active team alone. Neither
/// records anything.
pub proof fn lemma_tab_and_space(a: AppView)
    requires
        !a.input.active,
        a.input_target == InputTarget::Idle,
    ensures
        key_step(a, KeyCode::Tab).0.active_team == opponent(a.active_team),
        key_step(a, KeyCode::Tab).0.state == a.state,
        key_step(a, KeyCode::Char(' ')).0.active_team == a.active_team,
        key_step(a, KeyCode::Char(' ')).0.state.clock_running == !a.state.clock_running,
        key_step(a, KeyCode::Char(' ')).0.state.events == a.state.events,
{
}

/// At full time with the scores level, E ends the match as a tie: nothing is
/// recorded, the match stays at full time and the clock stops; G instead
/// starts golden point with the clock running.
pub proof fn lemma_tie_choice(a: AppView)
    requires
        !a.input.active,
        tie_choice(a.state),
    ensures
        key_step(a, KeyCode::Char('E')).0.state.phase == Phase::FullTime,
        key_step(a, KeyCode::Char('E')).0.state.ended_in_tie,
        !key_step(a, KeyCode::Char('E')).0.state.clock_running,
        key_step(a, KeyCode::Char('E')).0.state.events == a.state.events,
        key_step(a, KeyCode::Char('G')).0.state.phase == Phase::GoldenPoint,
        key_step(a, KeyCode::Char('G')).0.state.clock_running,
        key_step(a, KeyCode::Char('G')).0.state.events == a.state.events,
{
}

/// In golden point extra time the first score wins: from level scores, a
/// scoring event ends the match with the scorer's side ahead and the clock
/// stopped.
pub proof fn lemma_golden_point_first_score_wins(s: MatchView, e: EventView)
    requires
        s.phase == Phase::GoldenPoint,
        s.scores_level(),
        is_scoring(e),
    ensures
        after_event(s, e).phase == Phase::FullTime,
        !after_event(s, e).clock_running,
        points(after_event(s, e).events, event_team(e)) > points(
            after_event(s, e).events,
            opponent(event_team(e)),
        ),
{
    let evs = s.events.push(e);
    assert(evs.drop_last() =~= s.events);
    assert(points(evs, event_team(e)) == points(s.events, event_team(e)) + event_points(
        e,
        event_team(e),
    ));
    assert(points(evs, opponent(event_team(e))) == points(s.events, opponent(event_team(e)))
        + event_points(e, opponent(event_team(e))));
    assert(s.events + Seq::<EventView>::empty() =~= s.events);
    if event_team(e) == Team::A {
        assert(points(s.events, Team::A) == points(s.events, Team::B));
    } else {
        assert(points(s.events, Team::A) == points(s.events, Team::B));
    }
}

/// A tick never moves the clock back; a running clock moves on by the
/// seconds that passed, except that it stops at 40:00 in the first half and
/// at 80:00 in the second, where the match goes to half time or full time;
/// a stopped clock stays put.
pub proof fn lemma_clock(a: AppView, secs: u64)
    requires
        tick_ok(a, secs),
    ensures
        tick_step(a, secs).state.elapsed_secs >= a.state.elapsed_secs,
        !a.state.clock_running ==> tick_step(a, secs).state == a.state,
        a.state.clock_running && a.state.phase == Phase::FirstHalf && a.state.elapsed_secs
            < 2400 <= a.state.elapsed_secs + secs ==> {
            &&& tick_step(a, secs).state.elapsed_secs == 2400
            &&& tick_step(a, secs).state.phase == Phase::Halftime
            &&& !tick_step(a, secs).state.clock_running
        },
        a.state.clock_running && a.state.phase == Phase::SecondHalf && a.state.elapsed_secs
            < 4800 <= a.state.elapsed_secs + secs ==> {
            &&& tick_step(a, secs).state.elapsed_secs == 4800
            &&& tick_step(a, secs).state.phase == Phase::FullTime
            &&& !tick_step(a, secs).state.clock_running
        },
        a.state.clock_running && phase_limit(a.state.phase) is None ==> tick_step(
            a,
            secs,
        ).state.elapsed_secs == a.state.elapsed_secs + secs,
{
}

/// Possession time goes only to the active team, only while possession is
/// tracked, and never more than the clock moved.
pub proof fn lemma_possession_follows_clock(a: AppView, secs: u64)
    requires
        tick_ok(a, secs),
    ensures
        ({
            let b = tick_step(a, secs).state;
            let moved = b.elapsed_secs - a.state.elapsed_secs;
            &&& b.possession_secs_of(opponent(a.active_team)) == a.state.possession_secs_of(
                opponent(a.active_team),
            )
            &&& b.possession_secs_of(a.active_team) == a.state.possession_secs_of(a.active_team)
                + if a.state.in_possession {
                moved
            } else {
                0
            }
        }),
{
}

/// The UTF-8 bytes of two texts one after the other are the bytes of the
/// first followed by those of the second.
pub proof fn lemma_utf8_concat(x: Seq<char>, y: Seq<char>)
    ensures
        utf8(x + y) == utf8(x) + utf8(y),
    decreases x.len(),
{
    if x.len() == 0 {
        assert(x + y =~= y);
        assert(utf8(x) =~= Seq::<u8>::empty());
        assert(utf8(x) + utf8(y) =~= utf8(y));
    } else {
        lemma_utf8_concat(x.drop_first(), y);
        assert((x + y).drop_first() =~= x.drop_first() + y);
        assert(utf8(x + y) =~= utf8(x) + utf8(y));
    }
}

/// The bytes of a part of an ASCII text are the same part of its bytes.
proof fn lemma_ascii_parts(s: Seq<char>, k: int)
    requires
        is_ascii_chars(s),
        0 <= k <= s.len(),
    ensures
        utf8(s.take(k)) == utf8(s).take(k),
        utf8(s.skip(k)) == utf8(s).skip(k),
        utf8(s).len() == s.len(),
{
    broadcast use vstd::utf8::is_ascii_chars_encode_utf8;

    assert(is_ascii_chars(s.take(k)));
    assert(is_ascii_chars(s.skip(k)));
    assert(utf8(s.take(k)) =~= utf8(s).take(k));
    assert(utf8(s.skip(k)) =~= utf8(s).skip(k));
}

/// Every offset into an ASCII text, its end included, is a character
/// boundary.
proof fn lemma_ascii_boundary(s: Seq<char>, k: int)
    requires
        is_ascii_chars(s),
        0 <= k <= s.len(),
    ensures
        is_char_boundary(utf8(s), k),
{
    broadcast use vstd::utf8::is_ascii_chars_encode_utf8;
    broadcast use vstd::utf8::encode_utf8_valid_utf8;

    let b = utf8(s);
    if k == s.len() {
        is_char_boundary_start_end_of_seq(b);
    } else {
        assert(s[k] as u8 == b[k]);
        is_char_boundary_iff_is_leading_byte(b, k);
    }
}

/// Editing ASCII text never fails and keeps it ASCII: on an open prompt
/// holding ASCII text with the cursor within it, every key but a non-ASCII
/// character is accepted, and afterwards the text is still ASCII and the
/// cursor still within it. The text must be shorter than the largest
/// machine word, so that the cursor can move past a new character.
pub proof fn lemma_ascii_editing_never_fails(v: InputView, code: KeyCode)
    requires
        is_ascii_chars(v.buffer),
        v.cursor <= v.buffer.len(),
        v.buffer.len() < usize::MAX,
        code matches KeyCode::Char(c) ==> (c as u32) < 128,
    ensures
        input_key_ok(v, code),
        is_ascii_chars(input_step(v, code).0.buffer),
        input_step(v, code).0.cursor <= input_step(v, code).0.buffer.len(),
{
    broadcast use vstd::utf8::is_ascii_chars_encode_utf8;

    let s = v.buffer;
    let n = s.len() as int;
    let k = v.cursor as int;
    lemma_ascii_parts(s, k);
    lemma_ascii_boundary(s, k);
    if k > 0 {
        lemma_ascii_boundary(s, k - 1);
    }
    if !v.active {
        return;
    }
    let b = utf8(s);
    match code {
        KeyCode::Char(c) => {
            let t = s.take(k) + seq![c] + s.skip(k);
            lemma_utf8_concat(s.take(k), seq![c]);
            lemma_utf8_concat(s.take(k) + seq![c], s.skip(k));
            encode_utf8_decode_utf8(t);
            assert(input_step(v, code).0.buffer == t);
            assert(is_ascii_chars(t)) by {
                assert forall|i: int| 0 <= i < t.len() implies '\0' <= #[trigger] t[i] <= '\u{7f}' by {
                    if i < k {
                        assert(t[i] == s[i]);
                    } else if i == k {
                        assert(t[i] == c);
                    } else {
                        assert(t[i] == s[i - 1]);
                    }
                }
            }
        },
        KeyCode::Backspace => {
            if k > 0 {
                let idx = k - 1;
                lemma_ascii_parts(s, idx);
                lemma_ascii_parts(s, idx + 1);
                assert(s[idx] as u8 == b[idx]);
                assert(pop_first_scalar(b.skip(idx)) =~= b.skip(idx + 1));
                let t = s.take(idx) + s.skip(idx + 1);
                lemma_utf8_concat(s.take(idx), s.skip(idx + 1));
                encode_utf8_decode_utf8(t);
                assert(input_step(v, code).0.buffer == t);
                assert(is_ascii_chars(t)) by {
                    assert forall|i: int| 0 <= i < t.len() implies '\0' <= #[trigger] t[i] <= '\u{7f}' by {
                        if i < idx {
                            assert(t[i] == s[i]);
                        } else {
                            assert(t[i] == s[i + 1]);
                        }
                    }
                }
            }
        },
        KeyCode::Delete => {
            if k < n {
                lemma_ascii_parts(s, k + 1);
                assert(s[k] as u8 == b[k]);
                assert(pop_first_scalar(b.skip(k)) =~= b.skip(k + 1));
                let t = s.take(k) + s.skip(k + 1);
                lemma_utf8_concat(s.take(k), s.skip(k + 1));
                encode_utf8_decode_utf8(t);
                assert(input_step(v, code).0.buffer == t);
                assert(is_ascii_chars(t)) by {
                    assert forall|i: int| 0 <= i < t.len() implies '\0' <= #[trigger] t[i] <= '\u{7f}' by {
                        if i < k {
                            assert(t[i] == s[i]);
                        } else {
                            assert(t[i] == s[i + 1]);
                        }
                    }
                }
            }
        },
        _ => {},
    }
}

/// Whether the prompt asks for the player of a scoring play.
pub open spec fn is_scoring_prompt(t: InputTarget) -> bool {
    ||| t == InputTarget::TryScorer
    ||| t == InputTarget::ConversionKicker
    ||| t == InputTarget::PenaltyGoalKicker
    ||| t == InputTarget::DropGoalScorer
}

/// Whether the prompt asks for the player shown a card.
pub open spec fn is_card_prompt(t: InputTarget) -> bool {
    t == InputTarget::YellowCardPlayer || t == InputTarget::RedCardPlayer
}

/// Appending one event adds its points for each side to that side's score.
proof fn lemma_points_push(evs: Seq<EventView>, e: EventView, team: Team)
    ensures
        points(evs.push(e), team) == points(evs, team) + event_points(e, team),
{
    assert(evs.push(e).drop_last() =~= evs);
}

/// A scoring play is credited to the active team: when a non-blank name is
/// entered at the prompt for a try scorer, a conversion kicker, a penalty
/// goal kicker or a drop goal scorer, exactly one event is added to the
/// record, by the active team, for the named player at the waiting minute;
/// the active team's score rises by 4, 2, 2 or 1 and the other team's score
/// stays as it was. The previous record is kept for undo and the prompt is
/// closed.
pub proof fn lemma_scoring_play_for_active_team(a: AppView)
    requires
        a.input.active,
        is_scoring_prompt(a.input_target),
        trimmed(a.input.buffer).len() > 0,
    ensures
        ({
            let b = key_step(a, KeyCode::Enter).0;
            let team = a.active_team;
            let name = trimmed(a.input.buffer);
            let minute = minute_or_zero(a.pending_minute);
            let worth: nat = if a.input_target == InputTarget::TryScorer {
                4
            } else if a.input_target == InputTarget::DropGoalScorer {
                1
            } else {
                2
            };
            &&& b.state.events.len() == a.state.events.len() + 1
            &&& b.state.events.drop_last() == a.state.events
            &&& event_team(b.state.events.last()) == team
            &&& a.input_target == InputTarget::TryScorer ==> b.state.events.last()
                == EventView::Try { team, player: name, minute }
            &&& a.input_target == InputTarget::ConversionKicker ==> b.state.events.last()
                == EventView::Conversion { team, kicker: name, minute, successful: true }
            &&& a.input_target == InputTarget::PenaltyGoalKicker ==> b.state.events.last()
                == EventView::PenaltyGoal { team, player: name, minute }
            &&& a.input_target == InputTarget::DropGoalScorer ==> b.state.events.last()
                == EventView::DropGoal { team, player: name, minute }
            &&& b.state.score_of(team) == a.state.score_of(team) + worth
            &&& b.state.score_of(opponent(team)) == a.state.score_of(opponent(team))
            &&& b.undo_stack == a.undo_stack.push(a.state)
            &&& !b.input.active
            &&& b.input_target == InputTarget::Idle
        }),
{
    let b = key_step(a, KeyCode::Enter).0;
    let e = b.state.events.last();
    assert(b.state.events =~= a.state.events.push(e));
    lemma_points_push(a.state.events, e, a.active_team);
    lemma_points_push(a.state.events, e, opponent(a.active_team));
}

/// A card is shown to a player of the active team: when a non-blank name is
/// entered at the yellow or red card prompt, exactly one card event of that
/// colour is added to the record, against the active team, for the named
/// player at the waiting minute, and neither score changes.
pub proof fn lemma_card_for_active_team(a: AppView)
    requires
        a.input.active,
        is_card_prompt(a.input_target),
        trimmed(a.input.buffer).len() > 0,
    ensures
        ({
            let b = key_step(a, KeyCode::Enter).0;
            let team = a.active_team;
            let colour = if a.input_target == InputTarget::YellowCardPlayer {
                CardType::Yellow
            } else {
                CardType::Red
            };
            &&& b.state.events == a.state.events.push(
                EventView::Card {
                    team,
                    player: trimmed(a.input.buffer),
                    minute: minute_or_zero(a.pending_minute),
                    card_type: colour,
                },
            )
            &&& b.state.score_of(Team::A) == a.state.score_of(Team::A)
            &&& b.state.score_of(Team::B) == a.state.score_of(Team::B)
            &&& b.undo_stack == a.undo_stack.push(a.state)
            &&& !b.input.active
            &&& b.input_target == InputTarget::Idle
        }),
{
    let b = key_step(a, KeyCode::Enter).0;
    let e = b.state.events.last();
    lemma_points_push(a.state.events, e, Team::A);
    lemma_points_push(a.state.events, e, Team::B);
}

/// Set tracking counts for the active team: with no prompt open, `m` adds
/// one to both the attempted and the completed sets of the active team and
/// `n` adds one to its attempted sets only; the other team's counts stay as
/// they were, and the previous record is kept for undo.
pub proof fn lemma_set_counts(a: AppView, code: KeyCode)
    requires
        !a.input.active,
        key_ok(a, code),
        is_key(code, 'm', 'M') || is_key(code, 'n', 'N'),
    ensures
        ({
            let b = key_step(a, code).0.state;
            let team = a.active_team;
            let other = opponent(team);
            &&& b.sets_attempted_of(team) == a.state.sets_attempted_of(team) + 1
            &&& b.sets_completed_of(team) == a.state.sets_completed_of(team) + if is_key(
                code,
                'm',
                'M',
            ) {
                1int
            } else {
                0int
            }
            &&& b.sets_attempted_of(other) == a.state.sets_attempted_of(other)
            &&& b.sets_completed_of(other) == a.state.sets_completed_of(other)
            &&& b.events == a.state.events
            &&& key_step(a, code).0.undo_stack == a.undo_stack.push(a.state)
        }),
{
}

/// A running clock keeps time in every stage: while the clock runs and the
/// tick does not reach 40:00 in the first half or 80:00 in the second, the
/// clock moves on by exactly the seconds that passed, the stage stays, the
/// clock keeps running, and while possession is tracked the active team is
/// credited with those seconds and the other team with none.
pub proof fn lemma_running_clock_keeps_time(a: AppView, secs: u64)
    requires
        tick_ok(a, secs),
        a.state.clock_running,
        a.state.phase == Phase::FirstHalf ==> a.state.elapsed_secs + secs < 2400,
        a.state.phase == Phase::SecondHalf ==> a.state.elapsed_secs + secs < 4800,
    ensures
        ({
            let b = tick_step(a, secs).state;
            let team = a.active_team;
            &&& b.elapsed_secs == a.state.elapsed_secs + secs
            &&& b.phase == a.state.phase
            &&& b.clock_running
            &&& b.possession_secs_of(team) == a.state.possession_secs_of(team) + if a.state.in_possession {
                secs as int
            } else {
                0int
            }
            &&& b.possession_secs_of(opponent(team)) == a.state.possession_secs_of(opponent(team))
            &&& b.events == a.state.events
        }),
{
}

/// Each team's score stands beside its own name in the header: Team A's
/// name is followed by the decimal numeral of Team A's score, and Team B's
/// name is preceded by the decimal numeral of Team B's score.
pub proof fn lemma_header_scores_beside_names(s: MatchView)
    ensures
        header_line(s)[1].text == truncated(s.team_a, 16),
        header_line(s)[1].shade == Shade::TeamColour(Team::A),
        header_line(s)[3].text == decimal(s.score_of(Team::A)),
        header_line(s)[4].text == " - "@,
        header_line(s)[5].text == decimal(s.score_of(Team::B)),
        header_line(s)[7].text == truncated(s.team_b, 16),
        header_line(s)[7].shade == Shade::TeamColour(Team::B),
{
}

/// The statistics keys credit the right side: with no prompt open, `t`
/// adds a tackle to the defending team (the one not in play) and none to the
/// active team; `e` records an error by the active team, `x` a six again to
/// the defending team and `p` a penalty awarded against the defending team,
/// each at the minute shown by the match clock and appended after the events
/// already recorded; no score changes, and the previous record is kept for
/// undo.
pub proof fn lemma_statistic_keys(a: AppView, code: KeyCode)
    requires
        !a.input.active,
        key_ok(a, code),
        code == KeyCode::Char('t') || code == KeyCode::Char('T') || code == KeyCode::Char('e')
            || code == KeyCode::Char('x') || code == KeyCode::Char('X') || code == KeyCode::Char(
            'p',
        ) || code == KeyCode::Char('P'),
    ensures
        ({
            let b = key_step(a, code).0;
            let team = a.active_team;
            let def = opponent(team);
            let minute = (a.state.elapsed_secs / 60) as u32;
            &&& is_key(code, 't', 'T') ==> {
                &&& b.state.tackles_of(def) == a.state.tackles_of(def) + 1
                &&& b.state.tackles_of(team) == a.state.tackles_of(team)
                &&& b.state.events == a.state.events
            }
            &&& code == KeyCode::Char('e') ==> b.state.events == a.state.events.push(
                EventView::Error { team, minute },
            )
            &&& is_key(code, 'x', 'X') ==> b.state.events == a.state.events.push(
                EventView::SixAgain { team: def, minute },
            )
            &&& is_key(code, 'p', 'P') ==> b.state.events == a.state.events.push(
                EventView::PenaltyAwarded { team: def, minute },
            )
            &&& b.state.score_of(Team::A) == a.state.score_of(Team::A)
            &&& b.state.score_of(Team::B) == a.state.score_of(Team::B)
            &&& b.active_team == team
            &&& b.undo_stack == a.undo_stack.push(a.state)
        }),
{
    let b = key_step(a, code).0;
    if !is_key(code, 't', 'T') {
        let e = b.state.events.last();
        lemma_points_push(a.state.events, e, Team::A);
        lemma_points_push(a.state.events, e, Team::B);
    }
}

/// The keys for plays with a named player open a prompt and take the minute
/// from the match clock: with no prompt open, `r`, `d`, `g`, `y` and `R`
/// (and `c` once the active team has scored a try) ask for the try scorer,
/// the drop goal scorer, the penalty goal kicker, the player shown a yellow
/// or a red card (or the conversion kicker), keep the clock's whole minutes
/// for the event, and record nothing yet.
pub proof fn lemma_play_prompts_take_clock_minute(a: AppView, code: KeyCode)
    requires
        !a.input.active,
        code == KeyCode::Char('r') || code == KeyCode::Char('d') || code == KeyCode::Char('g')
            || code == KeyCode::Char('y') || code == KeyCode::Char('R') || (code
            == KeyCode::Char('c') && crate::app::has_try(a.state, a.active_team)),
    ensures
        ({
            let b = key_step(a, code).0;
            &&& b.input.active
            &&& b.input.buffer.len() == 0
            &&& b.pending_minute == Some((a.state.elapsed_secs / 60) as u32)
            &&& b.state == a.state
            &&& b.undo_stack == a.undo_stack
            &&& b.active_team == a.active_team
            &&& code == KeyCode::Char('r') ==> b.input_target == InputTarget::TryScorer
            &&& code == KeyCode::Char('c') ==> b.input_target == InputTarget::ConversionKicker
            &&& code == KeyCode::Char('d') ==> b.input_target == InputTarget::DropGoalScorer
            &&& code == KeyCode::Char('g') ==> b.input_target == InputTarget::PenaltyGoalKicker
            &&& code == KeyCode::Char('y') ==> b.input_target == InputTarget::YellowCardPlayer
            &&& code == KeyCode::Char('R') ==> b.input_target == InputTarget::RedCardPlayer
        }),
{
}

/// Each team's panel shows that team's own statistics: its tackles, and
/// the number of errors it made, of penalties awarded against it and of six
/// agains it was given; the panel of the active team is the one picked out.
pub proof fn lemma_panel_shows_own_statistics(a: AppView, team: Team)
    ensures
        panel_lines(a, team)[2] == stat_line(
            "Tackles:            "@,
            decimal(a.state.tackles_of(team) as nat),
            team,
        ),
        panel_lines(a, team)[3] == stat_line(
            "Errors:             "@,
            decimal(
                (crate::models::select(a.state.events, crate::models::error_by(team)).len() as u32) as nat,
            ),
            team,
        ),
        panel_lines(a, team)[4] == LineView::SetCompletion,
        panel_lines(a, team)[5] == stat_line(
            "Penalties Against:  "@,
            decimal(
                (crate::models::select(
                    a.state.events,
                    crate::models::penalty_against(team),
                ).len() as u32) as nat,
            ),
            team,
        ),
        panel_lines(a, team)[6] == stat_line(
            "Six Again:          "@,
            decimal(
                (crate::models::select(
                    a.state.events,
                    crate::models::six_again_for(team),
                ).len() as u32) as nat,
            ),
            team,
        ),
        (panel_title(a, team)[0].shade == Shade::Yellow) == (team == a.active_team),
{
}

} // verus!
