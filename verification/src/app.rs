use vstd::prelude::*;
use vstd::string::*;

use crate::input::{input_key_ok, input_step, text_of, InputView, KeyCode, KeyEvent, TextInput};
use crate::models::{
    event_points, event_team, next_phase, opponent, phase_label, try_by, Phase, CardEvent, CardType, ConversionEvent,
    DropGoalEvent, ErrorEvent, Event, EventView, MatchState, MatchView, PenaltyAwardedEvent,
    PenaltyGoalEvent, SixAgainEvent, Team, TryEvent,
};
use crate::text::{join2, join3, join5, parse_minute, parse_u32, trim, trimmed};

verus! {

/// What the text prompt is currently asking for.
#[derive(Debug, Clone, Copy, PartialEq, Eq, Structural)]
pub enum InputTarget {
    Idle,
    SetupTeamA,
    SetupTeamB,
    TryMinute,
    TryScorer,
    ConversionMinute,
    ConversionKicker,
    PenaltyGoalMinute,
    PenaltyGoalKicker,
    DropGoalMinute,
    DropGoalScorer,
    YellowCardMinute,
    YellowCardPlayer,
    RedCardMinute,
    RedCardPlayer,
}

/// Work that the caller carries out after a key has been handled.
#[derive(Debug, Clone, Copy, PartialEq, Eq, Structural)]
pub enum AppAction {
    Nothing,
    /// Write the match record to storage and report the outcome with
    /// `App::report_save`.
    SaveMatch,
}

/// The abstract state of the tracker.
#[verifier::ext_equal]
pub struct AppView {
    pub state: MatchView,
    pub undo_stack: Seq<MatchView>,
    pub input: InputView,
    pub input_target: InputTarget,
    pub pending_minute: Option<u32>,
    pub active_team: Team,
    pub message: Option<Seq<char>>,
    pub message_ticks: u32,
    pub should_quit: bool,
}

impl AppView {
    /// The current record pushed onto the undo history.
    pub open spec fn saved(self) -> AppView {
        AppView { undo_stack: self.undo_stack.push(self.state), ..self }
    }

    /// A new status message, shown from tick zero.
    pub open spec fn with_message(self, m: Seq<char>) -> AppView {
        AppView { message: Some(m), message_ticks: 0, ..self }
    }

    /// The prompt opened afresh with the given text.
    pub open spec fn prompted(self, p: Seq<char>) -> AppView {
        AppView { input: InputView::started(p), ..self }
    }

    pub open spec fn with_target(self, t: InputTarget) -> AppView {
        AppView { input_target: t, ..self }
    }

    pub open spec fn with_state(self, s: MatchView) -> AppView {
        AppView { state: s, ..self }
    }
}

pub open spec fn is_setup(t: InputTarget) -> bool {
    t == InputTarget::SetupTeamA || t == InputTarget::SetupTeamB
}

/// The trimmed text of a submitted entry.
pub open spec fn entered_text(submitted: bool, value: Option<Seq<char>>) -> Option<Seq<char>> {
    if submitted && value is Some {
        Some(trimmed(value->0))
    } else {
        None
    }
}

/// The trimmed text of a submitted entry, if it is not blank.
pub open spec fn entered_name(submitted: bool, value: Option<Seq<char>>) -> Option<Seq<char>> {
    let t = entered_text(submitted, value);
    if t is Some && t->0.len() > 0 {
        t
    } else {
        None
    }
}

/// The minute written in a submitted entry, if it reads as one.
pub open spec fn entered_minute(submitted: bool, value: Option<Seq<char>>) -> Option<u32> {
    match entered_text(submitted, value) {
        Some(t) => parse_u32(t),
        None => None,
    }
}

/// The minute waiting for the event being entered, zero if there is none.
pub open spec fn minute_or_zero(m: Option<u32>) -> u32 {
    match m {
        Some(v) => v,
        None => 0,
    }
}

/// After a minute was asked for: a valid minute is kept and the next question
/// asked; otherwise the prompt is reopened and nothing awaits its answer.
pub open spec fn minute_step(
    a: AppView,
    submitted: bool,
    value: Option<Seq<char>>,
    next: InputTarget,
    prompt: Seq<char>,
) -> AppView {
    match entered_minute(submitted, value) {
        Some(m) => AppView { pending_minute: Some(m), input_target: next, ..a }.prompted(prompt),
        None => a.prompted("Minute? "@).with_target(InputTarget::Idle),
    }
}

/// Whether an event earns its side points.
pub open spec fn is_scoring(e: EventView) -> bool {
    event_points(e, event_team(e)) > 0
}

/// The record after `e` is appended; in golden point the first score ends
/// the match.
pub open spec fn after_event(s: MatchView, e: EventView) -> MatchView {
    let s1 = s.with_event(e);
    if s.phase == Phase::GoldenPoint && is_scoring(e) {
        MatchView { phase: Phase::FullTime, clock_running: false, ..s1 }
    } else {
        s1
    }
}

/// An event recorded: the record is saved for undo, the event appended (in
/// golden point a score ends the match), the waiting minute used up, and
/// `msg` shown.
pub open spec fn recorded(a: AppView, e: EventView, msg: Seq<char>) -> AppView {
    AppView {
        pending_minute: None,
        state: after_event(a.state, e),
        undo_stack: a.undo_stack.push(a.state),
        ..a
    }.with_message(msg)
}

/// The tracker after the prompt asking for `target` was closed, with the
/// entry `value` if it was submitted.
pub open spec fn target_step(
    a: AppView,
    target: InputTarget,
    submitted: bool,
    value: Option<Seq<char>>,
) -> AppView {
    let name = entered_name(submitted, value);
    let team = a.active_team;
    let minute = minute_or_zero(a.pending_minute);
    match target {
        InputTarget::SetupTeamA => match name {
            Some(n) => AppView {
                state: MatchView { team_a: n, ..a.state },
                input_target: InputTarget::SetupTeamB,
                ..a
            }.prompted("Enter Team B name: "@),
            None => a.prompted("Enter Team A name: "@),
        },
        InputTarget::SetupTeamB => match name {
            Some(n) => AppView {
                state: MatchView { team_b: n, ..a.state },
                input_target: InputTarget::Idle,
                ..a
            }.with_message("Match ready! Press Tab to switch active team."@),
            None => a.prompted("Enter Team B name: "@),
        },
        InputTarget::TryMinute => minute_step(
            a,
            submitted,
            value,
            InputTarget::TryScorer,
            "Try scorer name: "@,
        ),
        InputTarget::ConversionMinute => minute_step(
            a,
            submitted,
            value,
            InputTarget::ConversionKicker,
            "Conversion kicker name: "@,
        ),
        InputTarget::PenaltyGoalMinute => minute_step(
            a,
            submitted,
            value,
            InputTarget::PenaltyGoalKicker,
            "Penalty goal kicker name: "@,
        ),
        InputTarget::DropGoalMinute => minute_step(
            a,
            submitted,
            value,
            InputTarget::DropGoalScorer,
            "Drop goal scorer name: "@,
        ),
        InputTarget::YellowCardMinute => minute_step(
            a,
            submitted,
            value,
            InputTarget::YellowCardPlayer,
            "Yellow card - player name: "@,
        ),
        InputTarget::RedCardMinute => minute_step(
            a,
            submitted,
            value,
            InputTarget::RedCardPlayer,
            "Red card - player name: "@,
        ),
        InputTarget::TryScorer => match name {
            Some(p) => recorded(
                a,
                EventView::Try { team, player: p, minute },
                "Try scored by "@ + p + "! (+4 pts)"@,
            ),
            None => a,
        }.with_target(InputTarget::Idle),
        InputTarget::ConversionKicker => match name {
            Some(k) => recorded(
                a,
                EventView::Conversion { team, kicker: k, minute, successful: true },
                "Conversion by "@ + k + "! (+2 pts)"@,
            ),
            None => a,
        }.with_target(InputTarget::Idle),
        InputTarget::PenaltyGoalKicker => match name {
            Some(k) => recorded(
                a,
                EventView::PenaltyGoal { team, player: k, minute },
                "Penalty goal by "@ + k + "! (+2 pts)"@,
            ),
            None => a,
        }.with_target(InputTarget::Idle),
        InputTarget::DropGoalScorer => match name {
            Some(p) => recorded(
                a,
                EventView::DropGoal { team, player: p, minute },
                "Drop goal by "@ + p + "! (+1 pt)"@,
            ),
            None => a,
        }.with_target(InputTarget::Idle),
        InputTarget::YellowCardPlayer => match name {
            Some(p) => recorded(
                a,
                EventView::Card { team, player: p, minute, card_type: CardType::Yellow },
                "Yellow card: "@ + p + " ("@ + a.state.name_of(team) + ")"@,
            ),
            None => a,
        }.with_target(InputTarget::Idle),
        InputTarget::RedCardPlayer => match name {
            Some(p) => recorded(
                a,
                EventView::Card { team, player: p, minute, card_type: CardType::Red },
                "Red card: "@ + p + " ("@ + a.state.name_of(team) + ")"@,
            ),
            None => a,
        }.with_target(InputTarget::Idle),
        InputTarget::Idle => a.with_target(InputTarget::Idle),
    }
}

/// The message shown when a match ends level: the choice between ending it
/// as a tie and playing golden point.
pub open spec fn tie_prompt_message() -> Seq<char> {
    "Full time, scores level - E: end in a tie, G: golden point"@
}

/// Whether a drawn match at full time awaits the choice between a tie and
/// golden point.
pub open spec fn tie_choice(s: MatchView) -> bool {
    s.phase == Phase::FullTime && s.scores_level() && !s.ended_in_tie
}

/// The message shown when the match reaches stage `p` in record `s`.
pub open spec fn phase_message(s: MatchView, p: Phase) -> Seq<char> {
    if p == Phase::FullTime && s.scores_level() && !s.ended_in_tie {
        tie_prompt_message()
    } else {
        "Phase: "@ + phase_label(p)
    }
}

/// One more tackle credited to `team`.
pub open spec fn add_tackle(s: MatchView, team: Team) -> MatchView {
    match team {
        Team::A => MatchView { tackles_a: (s.tackles_a + 1) as u32, ..s },
        Team::B => MatchView { tackles_b: (s.tackles_b + 1) as u32, ..s },
    }
}

/// One more set attempted by `team`, and completed if `completed`.
pub open spec fn add_set(s: MatchView, team: Team, completed: bool) -> MatchView {
    match team {
        Team::A => MatchView {
            sets_attempted_a: (s.sets_attempted_a + 1) as u32,
            sets_completed_a: if completed {
                (s.sets_completed_a + 1) as u32
            } else {
                s.sets_completed_a
            },
            ..s
        },
        Team::B => MatchView {
            sets_attempted_b: (s.sets_attempted_b + 1) as u32,
            sets_completed_b: if completed {
                (s.sets_completed_b + 1) as u32
            } else {
                s.sets_completed_b
            },
            ..s
        },
    }
}

/// A statistic changed: the record saved for undo, replaced by `s`, and
/// `msg` shown.
pub open spec fn logged(a: AppView, s: MatchView, msg: Seq<char>) -> AppView {
    a.saved().with_state(s).with_message(msg)
}

/// Whether `team` has scored a try so far.
pub open spec fn has_try(s: MatchView, team: Team) -> bool {
    exists|i: int| 0 <= i < s.events.len() && try_by(team)(#[trigger] s.events[i])
}

/// Whether `code` is the character `lower` or `upper`.
pub open spec fn is_key(code: KeyCode, lower: char, upper: char) -> bool {
    code == KeyCode::Char(lower) || code == KeyCode::Char(upper)
}

/// The prompt opened for the player of an event, with the minute taken from
/// the match clock.
pub open spec fn prompt_for(a: AppView, target: InputTarget, prompt: Seq<char>) -> AppView {
    AppView {
        pending_minute: Some(a.state.clock_minute()),
        input_target: target,
        ..a
    }.prompted(prompt)
}

/// The record after the `s` key: the next stage, with the clock stopped at
/// half time and full time.
pub open spec fn phase_advanced(s: MatchView) -> MatchView {
    let p = next_phase(s.phase);
    MatchView {
        phase: p,
        clock_running: if p == Phase::Halftime || p == Phase::FullTime {
            false
        } else {
            s.clock_running
        },
        ..s
    }
}

/// The tracker after a command key pressed while no prompt is open.
pub open spec fn command_step(a: AppView, code: KeyCode) -> AppView {
    let team = a.active_team;
    let def = opponent(team);
    let s = a.state;
    let minute = s.clock_minute();
    if is_key(code, 'q', 'Q') {
        AppView { should_quit: true, ..a }
    } else if (code == KeyCode::Char(' ') || code == KeyCode::Tab) && a.input_target
        != InputTarget::Idle {
        a
    } else if code == KeyCode::Tab {
        AppView { active_team: def, ..a }.with_message("Active team: "@ + s.name_of(def))
    } else if code == KeyCode::Char(' ') {
        a.with_state(MatchView { clock_running: !s.clock_running, ..s }).with_message(
            if s.clock_running {
                "Clock paused"@
            } else {
                "Clock running"@
            },
        )
    } else if code == KeyCode::Char('i') {
        a.with_state(MatchView { in_possession: !s.in_possession, ..s }).with_message(
            if s.in_possession {
                "Possession tracking paused"@
            } else {
                "In possession: "@ + s.name_of(team)
            },
        )
    } else if is_key(code, 't', 'T') {
        logged(a, add_tackle(s, def), "Tackle: "@ + s.name_of(def))
    } else if code == KeyCode::Char('E') && tie_choice(s) {
        logged(
            a,
            MatchView { ended_in_tie: true, clock_running: false, ..s },
            "Match ended in a tie"@,
        )
    } else if code == KeyCode::Char('G') && tie_choice(s) {
        logged(
            a,
            MatchView { phase: Phase::GoldenPoint, clock_running: true, ..s },
            "Golden point extra time - first score wins"@,
        )
    } else if is_key(code, 'e', 'E') {
        logged(
            a,
            s.with_event(EventView::Error { team, minute }),
            "Error (knock-on): "@ + s.name_of(team),
        )
    } else if is_key(code, 'x', 'X') {
        logged(
            a,
            s.with_event(EventView::SixAgain { team: def, minute }),
            "Six again: "@ + s.name_of(def),
        )
    } else if is_key(code, 'n', 'N') {
        logged(a, add_set(s, team, false), "Set NOT completed: "@ + s.name_of(team))
    } else if is_key(code, 'm', 'M') {
        logged(a, add_set(s, team, true), "Set completed: "@ + s.name_of(team))
    } else if code == KeyCode::Char('r') {
        prompt_for(a, InputTarget::TryScorer, "Try scorer name: "@)
    } else if is_key(code, 'c', 'C') {
        if has_try(s, team) {
            prompt_for(a, InputTarget::ConversionKicker, "Conversion kicker name: "@)
        } else {
            a.with_message("No try to convert"@)
        }
    } else if is_key(code, 'd', 'D') {
        prompt_for(a, InputTarget::DropGoalScorer, "Drop goal scorer name: "@)
    } else if is_key(code, 'p', 'P') {
        logged(
            a,
            s.with_event(EventView::PenaltyAwarded { team: def, minute }),
            "Penalty awarded against: "@ + s.name_of(def),
        )
    } else if is_key(code, 'g', 'G') {
        prompt_for(a, InputTarget::PenaltyGoalKicker, "Penalty goal kicker name: "@)
    } else if code == KeyCode::Char('y') {
        prompt_for(a, InputTarget::YellowCardPlayer, "Yellow card - player name: "@)
    } else if code == KeyCode::Char('R') {
        prompt_for(a, InputTarget::RedCardPlayer, "Red card - player name: "@)
    } else if is_key(code, 's', 'S') {
        let s1 = phase_advanced(s);
        logged(a, s1, phase_message(s, s1.phase))
    } else if is_key(code, 'u', 'U') {
        if a.undo_stack.len() > 0 {
            AppView {
                state: a.undo_stack.last(),
                undo_stack: a.undo_stack.drop_last(),
                ..a
            }.with_message("Undone last action"@)
        } else {
            a.with_message("Nothing to undo"@)
        }
    } else {
        a
    }
}

/// The keys whose handling neither fails in the prompt nor overflows a count.
pub open spec fn key_ok(a: AppView, code: KeyCode) -> bool {
    let team = a.active_team;
    let def = opponent(team);
    if a.input.active {
        input_key_ok(a.input, code)
    } else {
        &&& is_key(code, 't', 'T') ==> a.state.tackles_of(def) < u32::MAX
        &&& is_key(code, 'n', 'N') ==> a.state.sets_attempted_of(team) < u32::MAX
        &&& is_key(code, 'm', 'M') ==> a.state.sets_attempted_of(team) < u32::MAX
            && a.state.sets_completed_of(team) < u32::MAX
    }
}

/// The tracker after a key press, and the work left to the caller: while the
/// prompt is open the key edits it, and closing the prompt acts on its entry;
/// otherwise the key is a command.
pub open spec fn key_step(a: AppView, code: KeyCode) -> (AppView, AppAction) {
    if a.input.active {
        let (iv, res) = input_step(a.input, code);
        let a1 = AppView { input: iv, ..a };
        if !iv.active {
            (target_step(a1, a1.input_target, res is Some, res), AppAction::Nothing)
        } else {
            (a1, AppAction::Nothing)
        }
    } else {
        (
            command_step(a, code),
            if is_key(code, 'o', 'O') {
                AppAction::SaveMatch
            } else {
                AppAction::Nothing
            },
        )
    }
}

/// The clock limit of a stage: 40 minutes for the first half, 80 for the
/// second; the other stages have none.
pub open spec fn phase_limit(p: Phase) -> Option<u64> {
    match p {
        Phase::FirstHalf => Some(2400),
        Phase::SecondHalf => Some(4800),
        _ => None,
    }
}

/// Possession time credited to `team`.
pub open spec fn credit_possession(s: MatchView, team: Team, secs: int) -> MatchView {
    match team {
        Team::A => MatchView { possession_secs_a: (s.possession_secs_a + secs) as u64, ..s },
        Team::B => MatchView { possession_secs_b: (s.possession_secs_b + secs) as u64, ..s },
    }
}

/// The shown message one tick older: it goes once it is older than 25 ticks.
pub open spec fn message_aged(a: AppView) -> AppView {
    if a.message is Some {
        let t: u32 = (a.message_ticks + 1) as u32;
        if t > 25 {
            AppView { message: None, message_ticks: t, ..a }
        } else {
            AppView { message_ticks: t, ..a }
        }
    } else {
        a
    }
}

/// The tracker after a tick of the display loop in which `secs` whole
/// seconds passed: the message ages; a running clock advances, credits
/// possession to the active team while it is in possession, and at 40 and
/// 80 minutes stops and moves the match to half time or full time.
pub open spec fn tick_step(a: AppView, secs: u64) -> AppView {
    let aged = message_aged(a);
    let s = a.state;
    if !s.clock_running {
        aged
    } else {
        let raw = s.elapsed_secs + secs;
        let reached = phase_limit(s.phase) is Some && raw >= phase_limit(s.phase)->0;
        let now: int = if reached {
            if s.elapsed_secs >= phase_limit(s.phase)->0 {
                s.elapsed_secs as int
            } else {
                phase_limit(s.phase)->0 as int
            }
        } else {
            raw
        };
        let timed = MatchView { elapsed_secs: now as u64, ..s };
        let s1 = if s.in_possession {
            credit_possession(timed, a.active_team, now - s.elapsed_secs)
        } else {
            timed
        };
        if reached {
            let p = next_phase(s.phase);
            let s2 = MatchView { phase: p, clock_running: false, ..s1 };
            aged.with_state(s2).with_message(phase_message(s, p))
        } else {
            aged.with_state(s1)
        }
    }
}

/// The ticks on which neither the message age nor the clock overflows.
pub open spec fn tick_ok(a: AppView, secs: u64) -> bool {
    &&& a.message is Some ==> a.message_ticks < u32::MAX
    &&& a.state.clock_running ==> a.state.elapsed_secs + secs <= u64::MAX
        && a.state.possession_secs_of(a.active_team) + secs <= u64::MAX
}

/// The tracker after the outcome of writing the match record was reported.
pub open spec fn save_reported(a: AppView, outcome: Result<Seq<char>, Seq<char>>) -> AppView {
    match outcome {
        Ok(path) => a.with_message("Saved: "@ + path),
        Err(e) => a.with_message("Save error: "@ + e),
    }
}

/// The texts of the outcome of writing the match record.
pub open spec fn outcome_text(o: Result<String, String>) -> Result<Seq<char>, Seq<char>> {
    match o {
        Ok(p) => Ok(p@),
        Err(e) => Err(e@),
    }
}

pub struct App {
    pub state: MatchState,
    pub undo_stack: Vec<MatchState>,
    pub input: TextInput,
    pub input_target: InputTarget,
    pub pending_minute: Option<u32>,
    pub active_team: Team,
    pub message: Option<String>,
    pub message_ticks: u32,
    pub should_quit: bool,
}

impl View for App {
    type V = AppView;

    open spec fn view(&self) -> AppView {
        AppView {
            state: self.state@,
            undo_stack: self.undo_stack@.map_values(|s: MatchState| s@),
            input: self.input@,
            input_target: self.input_target,
            pending_minute: self.pending_minute,
            active_team: self.active_team,
            message: text_of(self.message),
            message_ticks: self.message_ticks,
            should_quit: self.should_quit,
        }
    }
}

/// The trimmed text of a submitted entry, if it is not blank.
fn submitted_name(submitted: bool, value: &Option<String>) -> (r: Option<String>)
    ensures
        text_of(r) == entered_name(submitted, text_of(*value)),
{
    if submitted {
        match value {
            Some(v) => {
                let t = trim(v.as_str());
                if !t.is_empty() {
                    return Some(String::from_str(t));
                }
            },
            None => {},
        }
    }
    None
}

/// The minute written in a submitted entry, if it reads as one.
fn submitted_minute(submitted: bool, value: &Option<String>) -> (r: Option<u32>)
    ensures
        r == entered_minute(submitted, text_of(*value)),
{
    if submitted {
        match value {
            Some(v) => parse_minute(trim(v.as_str())),
            None => None,
        }
    } else {
        None
    }
}

impl App {
    pub fn new() -> (r: Self)
        ensures
            r@ == (AppView {
                state: MatchView::initial(Seq::empty(), Seq::empty()),
                undo_stack: Seq::empty(),
                input: InputView::started("Enter Team A name: "@),
                input_target: InputTarget::SetupTeamA,
                pending_minute: None,
                active_team: Team::A,
                message: None,
                message_ticks: 0,
                should_quit: false,
            }),
    {
        let mut app = App {
            state: MatchState::new(String::new(), String::new()),
            undo_stack: Vec::new(),
            input: TextInput::new(),
            input_target: InputTarget::SetupTeamA,
            pending_minute: None,
            active_team: Team::A,
            message: None,
            message_ticks: 0,
            should_quit: false,
        };
        app.input.start("Enter Team A name: ");
        proof {
            assert(app.undo_stack@.map_values(|s: MatchState| s@) =~= Seq::<MatchView>::empty());
        }
        app
    }

    fn save_state(&mut self)
        ensures
            final(self)@ == old(self)@.saved(),
    {
        let snapshot = self.state.clone();
        self.undo_stack.push(snapshot);
        proof {
            assert(self.undo_stack@.map_values(|s: MatchState| s@) =~= old(
                self,
            ).undo_stack@.map_values(|s: MatchState| s@).push(old(self).state@));
        }
    }

    fn set_message(&mut self, msg: String)
        ensures
            final(self)@ == old(self)@.with_message(msg@),
    {
        self.message = Some(msg);
        self.message_ticks = 0;
    }

    /// The message text for reaching stage `p` from the current record.
    fn phase_message(&self, p: Phase) -> (r: String)
        ensures
            r@ == phase_message(self.state@, p),
    {
        if p == Phase::FullTime && self.state.scores_level() && !self.state.ended_in_tie {
            String::from_str("Full time, scores level - E: end in a tie, G: golden point")
        } else {
            join2("Phase: ", p.label())
        }
    }

    /// Ages the shown message by one tick and runs the match clock for
    /// `secs` seconds.
    pub fn tick(&mut self, secs: u64)
        requires
            tick_ok(old(self)@, secs),
        ensures
            final(self)@ == tick_step(old(self)@, secs),
    {
        if self.message.is_some() {
            self.message_ticks = self.message_ticks + 1;
            if self.message_ticks > 25 {
                self.message = None;
            }
        }
        if self.state.clock_running {
            let before: u64 = self.state.elapsed_secs;
            let raw: u64 = before + secs;
            let (reached, limit): (bool, u64) = match self.state.phase {
                Phase::FirstHalf => (raw >= 2400, 2400),
                Phase::SecondHalf => (raw >= 4800, 4800),
                _ => (false, 0),
            };
            let now: u64 = if reached {
                if before >= limit {
                    before
                } else {
                    limit
                }
            } else {
                raw
            };
            self.state.elapsed_secs = now;
            if self.state.in_possession {
                match self.active_team {
                    Team::A => self.state.possession_secs_a = self.state.possession_secs_a + (now
                        - before),
                    Team::B => self.state.possession_secs_b = self.state.possession_secs_b + (now
                        - before),
                }
            }
            if reached {
                let p = self.state.phase;
                let msg = self.phase_message(p.next());
                self.state.advance_phase();
                self.state.clock_running = false;
                self.set_message(msg);
            }
        }
    }

    /// Appends `e` to the record after saving it for undo, uses up the waiting
    /// minute and shows `msg`.
    fn record_event(&mut self, e: Event, msg: String)
        ensures
            final(self)@ == recorded(old(self)@, e@, msg@),
    {
        self.pending_minute = None;
        self.save_state();
        let scoring = e.scores();
        self.state.events.push(e);
        if self.state.phase == Phase::GoldenPoint && scoring {
            self.state.phase = Phase::FullTime;
            self.state.clock_running = false;
        }
        self.set_message(msg);
        proof {
            assert(self.state@.events =~= old(self).state@.events.push(e@));
        }
    }

    /// Handles the answer to a question for a minute.
    fn enter_minute(
        &mut self,
        submitted: bool,
        value: &Option<String>,
        next: InputTarget,
        prompt: &str,
    )
        ensures
            final(self)@ == minute_step(old(self)@, submitted, text_of(*value), next, prompt@),
    {
        match submitted_minute(submitted, value) {
            Some(minute) => {
                self.pending_minute = Some(minute);
                self.input_target = next;
                self.input.start(prompt);
            },
            None => {
                self.input.start("Minute? ");
                self.input_target = InputTarget::Idle;
            },
        }
    }

    /// The minute waiting for the event being entered, zero if there is none.
    fn waiting_minute(&self) -> (r: u32)
        ensures
            r == minute_or_zero(self.pending_minute),
    {
        match self.pending_minute {
            Some(m) => m,
            None => 0,
        }
    }

    /// Acts on the closing of the prompt that asked for `target`; `value` is
    /// the submitted entry.
    pub fn handle_input_target(
        &mut self,
        target: InputTarget,
        submitted: bool,
        value: Option<String>,
    )
        ensures
            final(self)@ == target_step(old(self)@, target, submitted, text_of(value)),
    {
        let team = self.active_team;
        match target {
            InputTarget::SetupTeamA => {
                match submitted_name(submitted, &value) {
                    Some(name) => {
                        self.state.team_a = name;
                        self.input_target = InputTarget::SetupTeamB;
                        self.input.start("Enter Team B name: ");
                    },
                    None => {
                        self.input.start("Enter Team A name: ");
                    },
                }
            },
            InputTarget::SetupTeamB => {
                match submitted_name(submitted, &value) {
                    Some(name) => {
                        self.state.team_b = name;
                        self.input_target = InputTarget::Idle;
                        self.set_message(
                            String::from_str("Match ready! Press Tab to switch active team."),
                        );
                    },
                    None => {
                        self.input.start("Enter Team B name: ");
                    },
                }
            },
            InputTarget::TryMinute => {
                self.enter_minute(submitted, &value, InputTarget::TryScorer, "Try scorer name: ");
            },
            InputTarget::ConversionMinute => {
                self.enter_minute(
                    submitted,
                    &value,
                    InputTarget::ConversionKicker,
                    "Conversion kicker name: ",
                );
            },
            InputTarget::PenaltyGoalMinute => {
                self.enter_minute(
                    submitted,
                    &value,
                    InputTarget::PenaltyGoalKicker,
                    "Penalty goal kicker name: ",
                );
            },
            InputTarget::DropGoalMinute => {
                self.enter_minute(
                    submitted,
                    &value,
                    InputTarget::DropGoalScorer,
                    "Drop goal scorer name: ",
                );
            },
            InputTarget::YellowCardMinute => {
                self.enter_minute(
                    submitted,
                    &value,
                    InputTarget::YellowCardPlayer,
                    "Yellow card - player name: ",
                );
            },
            InputTarget::RedCardMinute => {
                self.enter_minute(
                    submitted,
                    &value,
                    InputTarget::RedCardPlayer,
                    "Red card - player name: ",
                );
            },
            InputTarget::TryScorer => {
                match submitted_name(submitted, &value) {
                    Some(player) => {
                        let minute: u32 = self.waiting_minute();
                        let msg = join3("Try scored by ", player.as_str(), "! (+4 pts)");
                        self.record_event(Event::Try(TryEvent { team, player, minute }), msg);
                    },
                    None => {},
                }
                self.input_target = InputTarget::Idle;
            },
            InputTarget::ConversionKicker => {
                match submitted_name(submitted, &value) {
                    Some(kicker) => {
                        let minute: u32 = self.waiting_minute();
                        let msg = join3("Conversion by ", kicker.as_str(), "! (+2 pts)");
                        self.record_event(
                            Event::Conversion(
                                ConversionEvent { team, kicker, minute, successful: true },
                            ),
                            msg,
                        );
                    },
                    None => {},
                }
                self.input_target = InputTarget::Idle;
            },
            InputTarget::PenaltyGoalKicker => {
                match submitted_name(submitted, &value) {
                    Some(player) => {
                        let minute: u32 = self.waiting_minute();
                        let msg = join3("Penalty goal by ", player.as_str(), "! (+2 pts)");
                        self.record_event(
                            Event::PenaltyGoal(PenaltyGoalEvent { team, player, minute }),
                            msg,
                        );
                    },
                    None => {},
                }
                self.input_target = InputTarget::Idle;
            },
            InputTarget::DropGoalScorer => {
                match submitted_name(submitted, &value) {
                    Some(player) => {
                        let minute: u32 = self.waiting_minute();
                        let msg = join3("Drop goal by ", player.as_str(), "! (+1 pt)");
                        self.record_event(
                            Event::DropGoal(DropGoalEvent { team, player, minute }),
                            msg,
                        );
                    },
                    None => {},
                }
                self.input_target = InputTarget::Idle;
            },
            InputTarget::YellowCardPlayer => {
                match submitted_name(submitted, &value) {
                    Some(player) => {
                        let minute: u32 = self.waiting_minute();
                        let msg = join5(
                            "Yellow card: ",
                            player.as_str(),
                            " (",
                            self.state.team_name(team),
                            ")",
                        );
                        self.record_event(
                            Event::Card(
                                CardEvent { team, player, minute, card_type: CardType::Yellow },
                            ),
                            msg,
                        );
                    },
                    None => {},
                }
                self.input_target = InputTarget::Idle;
            },
            InputTarget::RedCardPlayer => {
                match submitted_name(submitted, &value) {
                    Some(player) => {
                        let minute: u32 = self.waiting_minute();
                        let msg = join5(
                            "Red card: ",
                            player.as_str(),
                            " (",
                            self.state.team_name(team),
                            ")",
                        );
                        self.record_event(
                            Event::Card(CardEvent { team, player, minute, card_type: CardType::Red }),
                            msg,
                        );
                    },
                    None => {},
                }
                self.input_target = InputTarget::Idle;
            },
            InputTarget::Idle => {
                self.input_target = InputTarget::Idle;
            },
        }
    }
    /// Whether `key` can be handled without an editing failure in the prompt
    /// or an overflowing count.
    pub fn accepts_key(&self, key: &KeyEvent) -> (r: bool)
        ensures
            r == key_ok(self@, key.code),
    {
        let team = self.active_team;
        let def = team.other();
        if self.input.is_active() {
            return self.input.accepts(key);
        }
        match key.code {
            KeyCode::Char('t') | KeyCode::Char('T') => self.state.tackles(def) < u32::MAX,
            KeyCode::Char('n') | KeyCode::Char('N') => self.state.sets_attempted(team)
                < u32::MAX,
            KeyCode::Char('m') | KeyCode::Char('M') => self.state.sets_attempted(team)
                < u32::MAX && self.state.sets_completed(team) < u32::MAX,
            _ => true,
        }
    }

    /// Whether a tick of `secs` seconds can be applied without an overflow.
    pub fn accepts_tick(&self, secs: u64) -> (r: bool)
        ensures
            r == tick_ok(self@, secs),
    {
        (self.message.is_none() || self.message_ticks < u32::MAX) && (!self.state.clock_running
            || (self.state.elapsed_secs <= u64::MAX - secs && self.state.possession_secs(
            self.active_team,
        ) <= u64::MAX - secs))
    }

    /// Handles a key: while the prompt is open the key edits it, and closing
    /// the prompt acts on its entry; otherwise the key is a command.
    pub fn handle_key(&mut self, key: KeyEvent) -> (r: AppAction)
        requires
            key_ok(old(self)@, key.code),
        ensures
            (final(self)@, r) == key_step(old(self)@, key.code),
    {
        if self.input.is_active() {
            let result = self.input.handle_key(key);
            if !self.input.is_active() {
                let submitted = result.is_some();
                let target = self.input_target;
                self.handle_input_target(target, submitted, result);
            }
            return AppAction::Nothing;
        }
        self.command(key.code)
    }

    /// Opens the prompt for the player of an event, keeping the minute of the
    /// match clock for it.
    fn prompt_for(&mut self, target: InputTarget, prompt: &str)
        ensures
            final(self)@ == prompt_for(old(self)@, target, prompt@),
    {
        self.pending_minute = Some(self.state.clock_minute());
        self.input_target = target;
        self.input.start(prompt);
    }

    /// Carries out a command key pressed while no prompt is open.
    #[verifier::spinoff_prover]
    #[verifier::rlimit(100)]
    fn command(&mut self, code: KeyCode) -> (r: AppAction)
        requires
            !old(self)@.input.active,
            key_ok(old(self)@, code),
        ensures
            final(self)@ == command_step(old(self)@, code),
            r == if is_key(code, 'o', 'O') {
                AppAction::SaveMatch
            } else {
                AppAction::Nothing
            },
    {
        let team = self.active_team;
        let def = team.other();
        let minute: u32 = self.state.clock_minute();
        let tie = self.state.phase == Phase::FullTime && self.state.scores_level()
            && !self.state.ended_in_tie;
        match code {
            KeyCode::Char('q') | KeyCode::Char('Q') => {
                self.should_quit = true;
            },
            KeyCode::Char(' ') if self.input_target != InputTarget::Idle => {},
            KeyCode::Tab if self.input_target != InputTarget::Idle => {},
            KeyCode::Tab => {
                self.active_team = def;
                let msg = join2("Active team: ", self.state.team_name(def));
                self.set_message(msg);
            },
            KeyCode::Char(' ') => {
                let running = self.state.clock_running;
                self.state.clock_running = !running;
                if running {
                    self.set_message(String::from_str("Clock paused"));
                } else {
                    self.set_message(String::from_str("Clock running"));
                }
            },
            KeyCode::Char('i') => {
                let tracking = self.state.in_possession;
                self.state.in_possession = !tracking;
                if tracking {
                    self.set_message(String::from_str("Possession tracking paused"));
                } else {
                    let msg = join2("In possession: ", self.state.team_name(team));
                    self.set_message(msg);
                }
            },
            KeyCode::Char('t') | KeyCode::Char('T') => {
                self.save_state();
                match def {
                    Team::A => self.state.tackles_a = self.state.tackles_a + 1,
                    Team::B => self.state.tackles_b = self.state.tackles_b + 1,
                }
                let msg = join2("Tackle: ", self.state.team_name(def));
                self.set_message(msg);
            },
            KeyCode::Char('E') if tie => {
                self.save_state();
                self.state.ended_in_tie = true;
                self.state.clock_running = false;
                self.set_message(String::from_str("Match ended in a tie"));
            },
            KeyCode::Char('G') if tie => {
                self.save_state();
                self.state.phase = Phase::GoldenPoint;
                self.state.clock_running = true;
                self.set_message(String::from_str("Golden point extra time - first score wins"));
            },
            KeyCode::Char('e') | KeyCode::Char('E') => {
                self.save_state();
                self.state.events.push(Event::Error(ErrorEvent { team, minute }));
                let msg = join2("Error (knock-on): ", self.state.team_name(team));
                self.set_message(msg);
            },
            KeyCode::Char('x') | KeyCode::Char('X') => {
                self.save_state();
                self.state.events.push(Event::SixAgain(SixAgainEvent { team: def, minute }));
                let msg = join2("Six again: ", self.state.team_name(def));
                self.set_message(msg);
            },
            KeyCode::Char('n') | KeyCode::Char('N') => {
                self.save_state();
                match team {
                    Team::A => self.state.sets_attempted_a = self.state.sets_attempted_a + 1,
                    Team::B => self.state.sets_attempted_b = self.state.sets_attempted_b + 1,
                }
                let msg = join2("Set NOT completed: ", self.state.team_name(team));
                self.set_message(msg);
            },
            KeyCode::Char('m') | KeyCode::Char('M') => {
                self.save_state();
                match team {
                    Team::A => {
                        self.state.sets_attempted_a = self.state.sets_attempted_a + 1;
                        self.state.sets_completed_a = self.state.sets_completed_a + 1;
                    },
                    Team::B => {
                        self.state.sets_attempted_b = self.state.sets_attempted_b + 1;
                        self.state.sets_completed_b = self.state.sets_completed_b + 1;
                    },
                }
                let msg = join2("Set completed: ", self.state.team_name(team));
                self.set_message(msg);
            },
            KeyCode::Char('r') => {
                self.prompt_for(InputTarget::TryScorer, "Try scorer name: ");
            },
            KeyCode::Char('c') | KeyCode::Char('C') => {
                if self.state.recent_try(team).is_some() {
                    self.prompt_for(InputTarget::ConversionKicker, "Conversion kicker name: ");
                } else {
                    self.set_message(String::from_str("No try to convert"));
                }
            },
            KeyCode::Char('d') | KeyCode::Char('D') => {
                self.prompt_for(InputTarget::DropGoalScorer, "Drop goal scorer name: ");
            },
            KeyCode::Char('p') | KeyCode::Char('P') => {
                self.save_state();
                self.state.events.push(
                    Event::PenaltyAwarded(PenaltyAwardedEvent { team: def, minute }),
                );
                let msg = join2("Penalty awarded against: ", self.state.team_name(def));
                self.set_message(msg);
            },
            KeyCode::Char('g') | KeyCode::Char('G') => {
                self.prompt_for(InputTarget::PenaltyGoalKicker, "Penalty goal kicker name: ");
            },
            KeyCode::Char('y') => {
                self.prompt_for(InputTarget::YellowCardPlayer, "Yellow card - player name: ");
            },
            KeyCode::Char('R') => {
                self.prompt_for(InputTarget::RedCardPlayer, "Red card - player name: ");
            },
            KeyCode::Char('s') | KeyCode::Char('S') => {
                let p = self.state.phase.next();
                let msg = self.phase_message(p);
                self.save_state();
                self.state.advance_phase();
                if p == Phase::Halftime || p == Phase::FullTime {
                    self.state.clock_running = false;
                }
                self.set_message(msg);
            },
            KeyCode::Char('u') | KeyCode::Char('U') => {
                let ghost before = self.undo_stack@;
                match self.undo_stack.pop() {
                    Some(previous) => {
                        self.state = previous;
                        proof {
                            assert(self.undo_stack@.map_values(|s: MatchState| s@) =~= before.map_values(
                                |s: MatchState| s@,
                            ).drop_last());
                        }
                        self.set_message(String::from_str("Undone last action"));
                    },
                    None => {
                        self.set_message(String::from_str("Nothing to undo"));
                    },
                }
            },
            KeyCode::Char('o') | KeyCode::Char('O') => {
                return AppAction::SaveMatch;
            },
            _ => {},
        }
        AppAction::Nothing
    }

    /// Shows the outcome of writing the match record: the file written, or the
    /// reason it could not be.
    pub fn report_save(&mut self, outcome: Result<String, String>)
        ensures
            final(self)@ == save_reported(old(self)@, outcome_text(outcome)),
    {
        match outcome {
            Ok(path) => {
                let msg = join2("Saved: ", path.as_str());
                self.set_message(msg);
            },
            Err(e) => {
                let msg = join2("Save error: ", e.as_str());
                self.set_message(msg);
            },
        }
    }
}

} // verus!
