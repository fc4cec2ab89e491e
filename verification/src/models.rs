use vstd::prelude::*;

verus! {

/// One of the two sides in a match.
#[derive(Debug, Clone, Copy, PartialEq, Eq, Structural)]
pub enum Team {
    A,
    B,
}

/// The opposing side.
pub open spec fn opponent(t: Team) -> Team {
    match t {
        Team::A => Team::B,
        Team::B => Team::A,
    }
}

impl Team {
    pub fn other(&self) -> (r: Team)
        ensures
            r == opponent(*self),
            r != *self,
    {
        match self {
            Team::A => Team::B,
            Team::B => Team::A,
        }
    }
}

/// Swapping sides twice gives back the side one started from, and the
/// opponent is never the side itself.
pub proof fn lemma_other_involution(t: Team)
    ensures
        opponent(opponent(t)) == t,
        opponent(t) != t,
{
}

/// The stage a match is in.
#[derive(Debug, Clone, Copy, PartialEq, Eq, Structural)]
pub enum Phase {
    FirstHalf,
    Halftime,
    SecondHalf,
    /// Extra time after a drawn match: the first score wins.
    GoldenPoint,
    FullTime,
}

/// The stage that follows `p`; full time is final.
pub open spec fn next_phase(p: Phase) -> Phase {
    match p {
        Phase::FirstHalf => Phase::Halftime,
        Phase::Halftime => Phase::SecondHalf,
        Phase::SecondHalf => Phase::FullTime,
        Phase::GoldenPoint => Phase::FullTime,
        Phase::FullTime => Phase::FullTime,
    }
}

/// Position of a stage in the course of a match.
pub open spec fn phase_rank(p: Phase) -> int {
    match p {
        Phase::FirstHalf => 0,
        Phase::Halftime => 1,
        Phase::SecondHalf => 2,
        Phase::GoldenPoint => 3,
        Phase::FullTime => 4,
    }
}

/// The text shown for a stage.
pub open spec fn phase_label(p: Phase) -> Seq<char> {
    match p {
        Phase::FirstHalf => "First Half"@,
        Phase::Halftime => "Halftime"@,
        Phase::SecondHalf => "Second Half"@,
        Phase::GoldenPoint => "Golden Point ET"@,
        Phase::FullTime => "Full Time"@,
    }
}

impl Phase {
    /// The stage that follows this one.
    pub fn next(&self) -> (r: Phase)
        ensures
            r == next_phase(*self),
    {
        match self {
            Phase::FirstHalf => Phase::Halftime,
            Phase::Halftime => Phase::SecondHalf,
            Phase::SecondHalf => Phase::FullTime,
            Phase::GoldenPoint => Phase::FullTime,
            Phase::FullTime => Phase::FullTime,
        }
    }

    pub fn label(&self) -> (r: &str)
        ensures
            r@ == phase_label(*self),
    {
        match self {
            Phase::FirstHalf => "First Half",
            Phase::Halftime => "Halftime",
            Phase::SecondHalf => "Second Half",
            Phase::GoldenPoint => "Golden Point ET",
            Phase::FullTime => "Full Time",
        }
    }
}

/// Advancing the stage never goes backwards, moves forward from every stage
/// but full time, and leaves full time where it is.
pub proof fn lemma_phase_progress(p: Phase)
    ensures
        phase_rank(next_phase(p)) >= phase_rank(p),
        p != Phase::FullTime ==> phase_rank(next_phase(p)) > phase_rank(p),
        p == Phase::FullTime ==> next_phase(p) == p,
{
}

#[derive(Debug, Clone, Copy, PartialEq, Eq, Structural)]
pub enum CardType {
    Yellow,
    Red,
}

/// The abstract content of a recorded match event.
pub enum EventView {
    Try { team: Team, player: Seq<char>, minute: u32 },
    Conversion { team: Team, kicker: Seq<char>, minute: u32, successful: bool },
    PenaltyAwarded { team: Team, minute: u32 },
    PenaltyGoal { team: Team, player: Seq<char>, minute: u32 },
    Card { team: Team, player: Seq<char>, minute: u32, card_type: CardType },
    SixAgain { team: Team, minute: u32 },
    Error { team: Team, minute: u32 },
    DropGoal { team: Team, player: Seq<char>, minute: u32 },
}

#[derive(Debug)]
pub struct TryEvent {
    pub team: Team,
    pub player: String,
    pub minute: u32,
}

#[derive(Debug)]
pub struct ConversionEvent {
    pub team: Team,
    pub kicker: String,
    pub minute: u32,
    pub successful: bool,
}

#[derive(Debug)]
pub struct PenaltyAwardedEvent {
    pub team: Team,
    pub minute: u32,
}

#[derive(Debug)]
pub struct PenaltyGoalEvent {
    pub team: Team,
    pub player: String,
    pub minute: u32,
}

#[derive(Debug)]
pub struct CardEvent {
    pub team: Team,
    pub player: String,
    pub minute: u32,
    pub card_type: CardType,
}

#[derive(Debug)]
pub struct SixAgainEvent {
    pub team: Team,
    pub minute: u32,
}

#[derive(Debug)]
pub struct ErrorEvent {
    pub team: Team,
    pub minute: u32,
}

#[derive(Debug)]
pub struct DropGoalEvent {
    pub team: Team,
    pub player: String,
    pub minute: u32,
}

impl Clone for TryEvent {
    fn clone(&self) -> (r: Self)
        ensures
            r == *self,
    {
        TryEvent { team: self.team, player: self.player.clone(), minute: self.minute }
    }
}

impl Clone for ConversionEvent {
    fn clone(&self) -> (r: Self)
        ensures
            r == *self,
    {
        ConversionEvent {
            team: self.team,
            kicker: self.kicker.clone(),
            minute: self.minute,
            successful: self.successful,
        }
    }
}

impl Clone for PenaltyAwardedEvent {
    fn clone(&self) -> (r: Self)
        ensures
            r == *self,
    {
        PenaltyAwardedEvent { team: self.team, minute: self.minute }
    }
}

impl Clone for PenaltyGoalEvent {
    fn clone(&self) -> (r: Self)
        ensures
            r == *self,
    {
        PenaltyGoalEvent { team: self.team, player: self.player.clone(), minute: self.minute }
    }
}

impl Clone for CardEvent {
    fn clone(&self) -> (r: Self)
        ensures
            r == *self,
    {
        CardEvent {
            team: self.team,
            player: self.player.clone(),
            minute: self.minute,
            card_type: self.card_type,
        }
    }
}

impl Clone for SixAgainEvent {
    fn clone(&self) -> (r: Self)
        ensures
            r == *self,
    {
        SixAgainEvent { team: self.team, minute: self.minute }
    }
}

impl Clone for ErrorEvent {
    fn clone(&self) -> (r: Self)
        ensures
            r == *self,
    {
        ErrorEvent { team: self.team, minute: self.minute }
    }
}

impl Clone for DropGoalEvent {
    fn clone(&self) -> (r: Self)
        ensures
            r == *self,
    {
        DropGoalEvent { team: self.team, player: self.player.clone(), minute: self.minute }
    }
}

impl View for TryEvent {
    type V = EventView;

    open spec fn view(&self) -> EventView {
        EventView::Try { team: self.team, player: self.player@, minute: self.minute }
    }
}

impl View for ConversionEvent {
    type V = EventView;

    open spec fn view(&self) -> EventView {
        EventView::Conversion {
            team: self.team,
            kicker: self.kicker@,
            minute: self.minute,
            successful: self.successful,
        }
    }
}

impl View for PenaltyAwardedEvent {
    type V = EventView;

    open spec fn view(&self) -> EventView {
        EventView::PenaltyAwarded { team: self.team, minute: self.minute }
    }
}

impl View for PenaltyGoalEvent {
    type V = EventView;

    open spec fn view(&self) -> EventView {
        EventView::PenaltyGoal { team: self.team, player: self.player@, minute: self.minute }
    }
}

impl View for CardEvent {
    type V = EventView;

    open spec fn view(&self) -> EventView {
        EventView::Card {
            team: self.team,
            player: self.player@,
            minute: self.minute,
            card_type: self.card_type,
        }
    }
}

impl View for SixAgainEvent {
    type V = EventView;

    open spec fn view(&self) -> EventView {
        EventView::SixAgain { team: self.team, minute: self.minute }
    }
}

impl View for ErrorEvent {
    type V = EventView;

    open spec fn view(&self) -> EventView {
        EventView::Error { team: self.team, minute: self.minute }
    }
}

impl View for DropGoalEvent {
    type V = EventView;

    open spec fn view(&self) -> EventView {
        EventView::DropGoal { team: self.team, player: self.player@, minute: self.minute }
    }
}

#[derive(Debug)]
pub enum Event {
    Try(TryEvent),
    Conversion(ConversionEvent),
    PenaltyAwarded(PenaltyAwardedEvent),
    PenaltyGoal(PenaltyGoalEvent),
    Card(CardEvent),
    SixAgain(SixAgainEvent),
    Error(ErrorEvent),
    DropGoal(DropGoalEvent),
}

impl View for Event {
    type V = EventView;

    open spec fn view(&self) -> EventView {
        match self {
            Event::Try(t) => t@,
            Event::Conversion(c) => c@,
            Event::PenaltyAwarded(p) => p@,
            Event::PenaltyGoal(p) => p@,
            Event::Card(c) => c@,
            Event::SixAgain(s) => s@,
            Event::Error(e) => e@,
            Event::DropGoal(d) => d@,
        }
    }
}

impl Clone for Event {
    fn clone(&self) -> (r: Self)
        ensures
            r == *self,
    {
        match self {
            Event::Try(t) => Event::Try(t.clone()),
            Event::Conversion(c) => Event::Conversion(c.clone()),
            Event::PenaltyAwarded(p) => Event::PenaltyAwarded(p.clone()),
            Event::PenaltyGoal(p) => Event::PenaltyGoal(p.clone()),
            Event::Card(c) => Event::Card(c.clone()),
            Event::SixAgain(s) => Event::SixAgain(s.clone()),
            Event::Error(e) => Event::Error(e.clone()),
            Event::DropGoal(d) => Event::DropGoal(d.clone()),
        }
    }
}

impl Event {
    /// Whether the event earns its side points.
    pub fn scores(&self) -> (r: bool)
        ensures
            r == (event_points(self@, event_team(self@)) > 0),
    {
        match self {
            Event::Try(_) => true,
            Event::Conversion(c) => c.successful,
            Event::PenaltyGoal(_) => true,
            Event::DropGoal(_) => true,
            _ => false,
        }
    }
}

/// The side an event is attributed to.
pub open spec fn event_team(e: EventView) -> Team {
    match e {
        EventView::Try { team, .. } => team,
        EventView::Conversion { team, .. } => team,
        EventView::PenaltyAwarded { team, .. } => team,
        EventView::PenaltyGoal { team, .. } => team,
        EventView::Card { team, .. } => team,
        EventView::SixAgain { team, .. } => team,
        EventView::Error { team, .. } => team,
        EventView::DropGoal { team, .. } => team,
    }
}

/// Points that an event earns for `team`: a try 4, a successful conversion 2,
/// a penalty goal 2, a drop goal 1, anything else nothing.
pub open spec fn event_points(e: EventView, team: Team) -> nat {
    if event_team(e) != team {
        0
    } else {
        match e {
            EventView::Try { .. } => 4,
            EventView::Conversion { successful, .. } => if successful {
                2
            } else {
                0
            },
            EventView::PenaltyGoal { .. } => 2,
            EventView::DropGoal { .. } => 1,
            _ => 0,
        }
    }
}

/// Total points of `team` over a sequence of events.
pub open spec fn points(evs: Seq<EventView>, team: Team) -> nat
    decreases evs.len(),
{
    if evs.len() == 0 {
        0
    } else {
        points(evs.drop_last(), team) + event_points(evs.last(), team)
    }
}

/// The events of `evs` that satisfy `keep`, in their original order.
pub open spec fn select(evs: Seq<EventView>, keep: spec_fn(EventView) -> bool) -> Seq<
    EventView,
>
    decreases evs.len(),
{
    if evs.len() == 0 {
        Seq::empty()
    } else if keep(evs.last()) {
        select(evs.drop_last(), keep).push(evs.last())
    } else {
        select(evs.drop_last(), keep)
    }
}

pub open spec fn try_by(team: Team) -> spec_fn(EventView) -> bool {
    |e: EventView| e is Try && event_team(e) == team
}

pub open spec fn conversion_by(team: Team) -> spec_fn(EventView) -> bool {
    |e: EventView| e is Conversion && event_team(e) == team
}

pub open spec fn successful_conversion_by(team: Team) -> spec_fn(EventView) -> bool {
    |e: EventView| e is Conversion && event_team(e) == team && e->Conversion_successful
}

pub open spec fn penalty_against(team: Team) -> spec_fn(EventView) -> bool {
    |e: EventView| e is PenaltyAwarded && event_team(e) == team
}

pub open spec fn penalty_goal_by(team: Team) -> spec_fn(EventView) -> bool {
    |e: EventView| e is PenaltyGoal && event_team(e) == team
}

pub open spec fn card_for(team: Team) -> spec_fn(EventView) -> bool {
    |e: EventView| e is Card && event_team(e) == team
}

pub open spec fn six_again_for(team: Team) -> spec_fn(EventView) -> bool {
    |e: EventView| e is SixAgain && event_team(e) == team
}

pub open spec fn error_by(team: Team) -> spec_fn(EventView) -> bool {
    |e: EventView| e is Error && event_team(e) == team
}

pub open spec fn drop_goal_by(team: Team) -> spec_fn(EventView) -> bool {
    |e: EventView| e is DropGoal && event_team(e) == team
}

/// Selecting from one more event of a sequence extends the selection by
/// that event exactly when it is kept.
pub proof fn lemma_select_step(s: Seq<EventView>, i: int, keep: spec_fn(EventView) -> bool)
    requires
        0 <= i < s.len(),
    ensures
        select(s.take(i + 1), keep) == if keep(s[i]) {
            select(s.take(i), keep).push(s[i])
        } else {
            select(s.take(i), keep)
        },
{
    assert(s.take(i + 1).drop_last() =~= s.take(i));
}

/// Points of one more event of a sequence add that event's points.
pub proof fn lemma_points_step(s: Seq<EventView>, i: int, team: Team)
    requires
        0 <= i < s.len(),
    ensures
        points(s.take(i + 1), team) == points(s.take(i), team) + event_points(s[i], team),
{
    assert(s.take(i + 1).drop_last() =~= s.take(i));
}

/// A prefix never holds more points than the whole sequence.
pub proof fn lemma_points_prefix(s: Seq<EventView>, j: int, team: Team)
    requires
        0 <= j <= s.len(),
    ensures
        points(s.take(j), team) <= points(s, team),
    decreases s.len() - j,
{
    if j < s.len() {
        lemma_points_step(s, j, team);
        lemma_points_prefix(s, j + 1, team);
    } else {
        assert(s.take(j) =~= s);
    }
}

/// The score of a side is four points per try, two per successful
/// conversion, two per penalty goal and one per drop goal.
pub proof fn lemma_score_breakdown(evs: Seq<EventView>, team: Team)
    ensures
        points(evs, team) == 4 * select(evs, try_by(team)).len() + 2 * select(
            evs,
            successful_conversion_by(team),
        ).len() + 2 * select(evs, penalty_goal_by(team)).len() + select(
            evs,
            drop_goal_by(team),
        ).len(),
    decreases evs.len(),
{
    if evs.len() > 0 {
        lemma_score_breakdown(evs.drop_last(), team);
    }
}

/// Recording an event for one side leaves the other side's score as it was.
pub proof fn lemma_score_own_events(evs: Seq<EventView>, e: EventView, team: Team)
    requires
        event_team(e) != team,
    ensures
        points(evs.push(e), team) == points(evs, team),
{
    assert(evs.push(e).drop_last() =~= evs);
}

/// The points of a side over two stretches of play are the sum of its points
/// over each: the score depends on the events alone and adds up.
pub proof fn lemma_points_concat(e1: Seq<EventView>, e2: Seq<EventView>, team: Team)
    ensures
        points(e1 + e2, team) == points(e1, team) + points(e2, team),
    decreases e2.len(),
{
    if e2.len() == 0 {
        assert(e1 + e2 =~= e1);
    } else {
        lemma_points_concat(e1, e2.drop_last(), team);
        assert((e1 + e2).drop_last() =~= e1 + e2.drop_last());
    }
}

/// The abstract content of a match record.
#[verifier::ext_equal]
pub struct MatchView {
    pub team_a: Seq<char>,
    pub team_b: Seq<char>,
    pub phase: Phase,
    pub tackles_a: u32,
    pub tackles_b: u32,
    pub sets_completed_a: u32,
    pub sets_completed_b: u32,
    pub sets_attempted_a: u32,
    pub sets_attempted_b: u32,
    pub events: Seq<EventView>,
    pub elapsed_secs: u64,
    pub clock_running: bool,
    pub in_possession: bool,
    pub possession_secs_a: u64,
    pub possession_secs_b: u64,
    pub ended_in_tie: bool,
}

impl MatchView {
    pub open spec fn name_of(self, team: Team) -> Seq<char> {
        match team {
            Team::A => self.team_a,
            Team::B => self.team_b,
        }
    }

    pub open spec fn score_of(self, team: Team) -> nat {
        points(self.events, team)
    }

    pub open spec fn tackles_of(self, team: Team) -> u32 {
        match team {
            Team::A => self.tackles_a,
            Team::B => self.tackles_b,
        }
    }

    pub open spec fn sets_completed_of(self, team: Team) -> u32 {
        match team {
            Team::A => self.sets_completed_a,
            Team::B => self.sets_completed_b,
        }
    }

    pub open spec fn sets_attempted_of(self, team: Team) -> u32 {
        match team {
            Team::A => self.sets_attempted_a,
            Team::B => self.sets_attempted_b,
        }
    }

    /// A fresh record with the given team names.
    pub open spec fn initial(team_a: Seq<char>, team_b: Seq<char>) -> MatchView {
        MatchView {
            team_a,
            team_b,
            phase: Phase::FirstHalf,
            tackles_a: 0,
            tackles_b: 0,
            sets_completed_a: 0,
            sets_completed_b: 0,
            sets_attempted_a: 0,
            sets_attempted_b: 0,
            events: Seq::empty(),
            elapsed_secs: 0,
            clock_running: false,
            in_possession: false,
            possession_secs_a: 0,
            possession_secs_b: 0,
            ended_in_tie: false,
        }
    }

    pub open spec fn possession_secs_of(self, team: Team) -> u64 {
        match team {
            Team::A => self.possession_secs_a,
            Team::B => self.possession_secs_b,
        }
    }

    /// The minute of the match clock: whole minutes elapsed.
    pub open spec fn clock_minute(self) -> u32 {
        (self.elapsed_secs / 60) as u32
    }

    /// Whether both sides have the same score.
    pub open spec fn scores_level(self) -> bool {
        points(self.events, Team::A) == points(self.events, Team::B)
    }

    pub open spec fn with_phase(self, phase: Phase) -> MatchView {
        MatchView { phase, ..self }
    }

    pub open spec fn with_event(self, e: EventView) -> MatchView {
        MatchView { events: self.events.push(e), ..self }
    }
}

pub struct MatchState {
    pub team_a: String,
    pub team_b: String,
    pub phase: Phase,
    pub tackles_a: u32,
    pub tackles_b: u32,
    pub sets_completed_a: u32,
    pub sets_completed_b: u32,
    pub sets_attempted_a: u32,
    pub sets_attempted_b: u32,
    pub events: Vec<Event>,
    /// Seconds on the match clock.
    pub elapsed_secs: u64,
    pub clock_running: bool,
    /// Whether the active team is credited with possession while the clock runs.
    pub in_possession: bool,
    pub possession_secs_a: u64,
    pub possession_secs_b: u64,
    /// Whether a drawn match was ended as a tie rather than going to golden point.
    pub ended_in_tie: bool,
}

impl View for MatchState {
    type V = MatchView;

    open spec fn view(&self) -> MatchView {
        MatchView {
            team_a: self.team_a@,
            team_b: self.team_b@,
            phase: self.phase,
            tackles_a: self.tackles_a,
            tackles_b: self.tackles_b,
            sets_completed_a: self.sets_completed_a,
            sets_completed_b: self.sets_completed_b,
            sets_attempted_a: self.sets_attempted_a,
            sets_attempted_b: self.sets_attempted_b,
            events: self.events@.map_values(|e: Event| e@),
            elapsed_secs: self.elapsed_secs,
            clock_running: self.clock_running,
            in_possession: self.in_possession,
            possession_secs_a: self.possession_secs_a,
            possession_secs_b: self.possession_secs_b,
            ended_in_tie: self.ended_in_tie,
        }
    }
}

impl Clone for MatchState {
    fn clone(&self) -> (r: Self)
        ensures
            r@ == self@,
    {
        let events = self.events.clone();
        assert(events@ =~= self.events@);
        MatchState {
            team_a: self.team_a.clone(),
            team_b: self.team_b.clone(),
            phase: self.phase,
            tackles_a: self.tackles_a,
            tackles_b: self.tackles_b,
            sets_completed_a: self.sets_completed_a,
            sets_completed_b: self.sets_completed_b,
            sets_attempted_a: self.sets_attempted_a,
            sets_attempted_b: self.sets_attempted_b,
            events,
            elapsed_secs: self.elapsed_secs,
            clock_running: self.clock_running,
            in_possession: self.in_possession,
            possession_secs_a: self.possession_secs_a,
            possession_secs_b: self.possession_secs_b,
            ended_in_tie: self.ended_in_tie,
        }
    }
}

impl MatchState {
    pub fn new(team_a: String, team_b: String) -> (r: Self)
        ensures
            r@ == MatchView::initial(team_a@, team_b@),
    {
        MatchState {
            team_a,
            team_b,
            phase: Phase::FirstHalf,
            tackles_a: 0,
            tackles_b: 0,
            sets_completed_a: 0,
            sets_completed_b: 0,
            sets_attempted_a: 0,
            sets_attempted_b: 0,
            events: Vec::new(),
            elapsed_secs: 0,
            clock_running: false,
            in_possession: false,
            possession_secs_a: 0,
            possession_secs_b: 0,
            ended_in_tie: false,
        }
    }

    fn team_score(&self, team: Team) -> (r: u32)
        requires
            self@.score_of(team) <= u32::MAX,
        ensures
            r == self@.score_of(team),
    {
        let ghost evs = self@.events;
        let mut score: u32 = 0;
        let mut i: usize = 0;
        while i < self.events.len()
            invariant
                evs == self@.events,
                i <= self.events.len(),
                score == points(evs.take(i as int), team),
                points(evs, team) <= u32::MAX,
            decreases self.events.len() - i,
        {
            proof {
                lemma_points_step(evs, i as int, team);
                lemma_points_prefix(evs, i + 1, team);
            }
            match &self.events[i] {
                Event::Try(t) => {
                    if t.team == team {
                        score = score + 4;
                    }
                },
                Event::Conversion(c) => {
                    if c.team == team && c.successful {
                        score = score + 2;
                    }
                },
                Event::PenaltyGoal(p) => {
                    if p.team == team {
                        score = score + 2;
                    }
                },
                Event::DropGoal(d) => {
                    if d.team == team {
                        score = score + 1;
                    }
                },
                _ => {},
            }
            i = i + 1;
        }
        assert(evs.take(self.events.len() as int) =~= evs);
        score
    }

    pub fn score_a(&self) -> (r: u32)
        requires
            self@.score_of(Team::A) <= u32::MAX,
        ensures
            r == self@.score_of(Team::A),
    {
        self.team_score(Team::A)
    }

    pub fn score_b(&self) -> (r: u32)
        requires
            self@.score_of(Team::B) <= u32::MAX,
        ensures
            r == self@.score_of(Team::B),
    {
        self.team_score(Team::B)
    }

    pub fn team_name(&self, team: Team) -> (r: &str)
        ensures
            r@ == self@.name_of(team),
    {
        match team {
            Team::A => self.team_a.as_str(),
            Team::B => self.team_b.as_str(),
        }
    }

    pub fn score(&self, team: Team) -> (r: u32)
        requires
            self@.score_of(team) <= u32::MAX,
        ensures
            r == self@.score_of(team),
    {
        match team {
            Team::A => self.score_a(),
            Team::B => self.score_b(),
        }
    }

    pub fn tackles(&self, team: Team) -> (r: u32)
        ensures
            r == self@.tackles_of(team),
    {
        match team {
            Team::A => self.tackles_a,
            Team::B => self.tackles_b,
        }
    }

    pub fn sets_completed(&self, team: Team) -> (r: u32)
        ensures
            r == self@.sets_completed_of(team),
    {
        match team {
            Team::A => self.sets_completed_a,
            Team::B => self.sets_completed_b,
        }
    }

    pub fn sets_attempted(&self, team: Team) -> (r: u32)
        ensures
            r == self@.sets_attempted_of(team),
    {
        match team {
            Team::A => self.sets_attempted_a,
            Team::B => self.sets_attempted_b,
        }
    }

    pub fn tries(&self, team: Team) -> (r: Vec<&TryEvent>)
        ensures
            r@.map_values(|t: &TryEvent| t@) == select(self@.events, try_by(team)),
    {
        let ghost evs = self@.events;
        let mut r: Vec<&TryEvent> = Vec::new();
        let mut i: usize = 0;
        while i < self.events.len()
            invariant
                evs == self@.events,
                i <= self.events.len(),
                r@.map_values(|t: &TryEvent| t@) == select(evs.take(i as int), try_by(team)),
            decreases self.events.len() - i,
        {
            proof {
                lemma_select_step(evs, i as int, try_by(team));
            }
            let ghost before = r@;
            match &self.events[i] {
                Event::Try(t) => {
                    if t.team == team {
                        r.push(t);
                        assert(r@.map_values(|t: &TryEvent| t@) =~= before.map_values(
                            |t: &TryEvent| t@,
                        ).push(evs[i as int]));
                    }
                },
                _ => {},
            }
            i = i + 1;
        }
        assert(evs.take(self.events.len() as int) =~= evs);
        r
    }

    pub fn conversions(&self, team: Team) -> (r: Vec<&ConversionEvent>)
        ensures
            r@.map_values(|c: &ConversionEvent| c@) == select(self@.events, conversion_by(team)),
    {
        let ghost evs = self@.events;
        let mut r: Vec<&ConversionEvent> = Vec::new();
        let mut i: usize = 0;
        while i < self.events.len()
            invariant
                evs == self@.events,
                i <= self.events.len(),
                r@.map_values(|c: &ConversionEvent| c@) == select(
                    evs.take(i as int),
                    conversion_by(team),
                ),
            decreases self.events.len() - i,
        {
            proof {
                lemma_select_step(evs, i as int, conversion_by(team));
            }
            let ghost before = r@;
            match &self.events[i] {
                Event::Conversion(c) => {
                    if c.team == team {
                        r.push(c);
                        assert(r@.map_values(|c: &ConversionEvent| c@) =~= before.map_values(
                            |c: &ConversionEvent| c@,
                        ).push(evs[i as int]));
                    }
                },
                _ => {},
            }
            i = i + 1;
        }
        assert(evs.take(self.events.len() as int) =~= evs);
        r
    }

    pub fn penalties_against(&self, team: Team) -> (r: u32)
        ensures
            r == select(self@.events, penalty_against(team)).len() as u32,
    {
        let ghost evs = self@.events;
        let mut n: usize = 0;
        let mut i: usize = 0;
        while i < self.events.len()
            invariant
                evs == self@.events,
                i <= self.events.len(),
                n <= i,
                n == select(evs.take(i as int), penalty_against(team)).len(),
            decreases self.events.len() - i,
        {
            proof {
                lemma_select_step(evs, i as int, penalty_against(team));
            }
            match &self.events[i] {
                Event::PenaltyAwarded(p) => {
                    if p.team == team {
                        n = n + 1;
                    }
                },
                _ => {},
            }
            i = i + 1;
        }
        assert(evs.take(self.events.len() as int) =~= evs);
        n as u32
    }

    pub fn penalty_goals(&self, team: Team) -> (r: Vec<&PenaltyGoalEvent>)
        ensures
            r@.map_values(|p: &PenaltyGoalEvent| p@) == select(
                self@.events,
                penalty_goal_by(team),
            ),
    {
        let ghost evs = self@.events;
        let mut r: Vec<&PenaltyGoalEvent> = Vec::new();
        let mut i: usize = 0;
        while i < self.events.len()
            invariant
                evs == self@.events,
                i <= self.events.len(),
                r@.map_values(|p: &PenaltyGoalEvent| p@) == select(
                    evs.take(i as int),
                    penalty_goal_by(team),
                ),
            decreases self.events.len() - i,
        {
            proof {
                lemma_select_step(evs, i as int, penalty_goal_by(team));
            }
            let ghost before = r@;
            match &self.events[i] {
                Event::PenaltyGoal(p) => {
                    if p.team == team {
                        r.push(p);
                        assert(r@.map_values(|p: &PenaltyGoalEvent| p@) =~= before.map_values(
                            |p: &PenaltyGoalEvent| p@,
                        ).push(evs[i as int]));
                    }
                },
                _ => {},
            }
            i = i + 1;
        }
        assert(evs.take(self.events.len() as int) =~= evs);
        r
    }

    pub fn cards(&self, team: Team) -> (r: Vec<&CardEvent>)
        ensures
            r@.map_values(|c: &CardEvent| c@) == select(self@.events, card_for(team)),
    {
        let ghost evs = self@.events;
        let mut r: Vec<&CardEvent> = Vec::new();
        let mut i: usize = 0;
        while i < self.events.len()
            invariant
                evs == self@.events,
                i <= self.events.len(),
                r@.map_values(|c: &CardEvent| c@) == select(evs.take(i as int), card_for(team)),
            decreases self.events.len() - i,
        {
            proof {
                lemma_select_step(evs, i as int, card_for(team));
            }
            let ghost before = r@;
            match &self.events[i] {
                Event::Card(c) => {
                    if c.team == team {
                        r.push(c);
                        assert(r@.map_values(|c: &CardEvent| c@) =~= before.map_values(
                            |c: &CardEvent| c@,
                        ).push(evs[i as int]));
                    }
                },
                _ => {},
            }
            i = i + 1;
        }
        assert(evs.take(self.events.len() as int) =~= evs);
        r
    }

    pub fn six_agains(&self, team: Team) -> (r: u32)
        ensures
            r == select(self@.events, six_again_for(team)).len() as u32,
    {
        let ghost evs = self@.events;
        let mut n: usize = 0;
        let mut i: usize = 0;
        while i < self.events.len()
            invariant
                evs == self@.events,
                i <= self.events.len(),
                n <= i,
                n == select(evs.take(i as int), six_again_for(team)).len(),
            decreases self.events.len() - i,
        {
            proof {
                lemma_select_step(evs, i as int, six_again_for(team));
            }
            match &self.events[i] {
                Event::SixAgain(s) => {
                    if s.team == team {
                        n = n + 1;
                    }
                },
                _ => {},
            }
            i = i + 1;
        }
        assert(evs.take(self.events.len() as int) =~= evs);
        n as u32
    }

    pub fn errors(&self, team: Team) -> (r: u32)
        ensures
            r == select(self@.events, error_by(team)).len() as u32,
    {
        let ghost evs = self@.events;
        let mut n: usize = 0;
        let mut i: usize = 0;
        while i < self.events.len()
            invariant
                evs == self@.events,
                i <= self.events.len(),
                n <= i,
                n == select(evs.take(i as int), error_by(team)).len(),
            decreases self.events.len() - i,
        {
            proof {
                lemma_select_step(evs, i as int, error_by(team));
            }
            match &self.events[i] {
                Event::Error(e) => {
                    if e.team == team {
                        n = n + 1;
                    }
                },
                _ => {},
            }
            i = i + 1;
        }
        assert(evs.take(self.events.len() as int) =~= evs);
        n as u32
    }

    pub fn drop_goals(&self, team: Team) -> (r: Vec<&DropGoalEvent>)
        ensures
            r@.map_values(|d: &DropGoalEvent| d@) == select(self@.events, drop_goal_by(team)),
    {
        let ghost evs = self@.events;
        let mut r: Vec<&DropGoalEvent> = Vec::new();
        let mut i: usize = 0;
        while i < self.events.len()
            invariant
                evs == self@.events,
                i <= self.events.len(),
                r@.map_values(|d: &DropGoalEvent| d@) == select(
                    evs.take(i as int),
                    drop_goal_by(team),
                ),
            decreases self.events.len() - i,
        {
            proof {
                lemma_select_step(evs, i as int, drop_goal_by(team));
            }
            let ghost before = r@;
            match &self.events[i] {
                Event::DropGoal(d) => {
                    if d.team == team {
                        r.push(d);
                        assert(r@.map_values(|d: &DropGoalEvent| d@) =~= before.map_values(
                            |d: &DropGoalEvent| d@,
                        ).push(evs[i as int]));
                    }
                },
                _ => {},
            }
            i = i + 1;
        }
        assert(evs.take(self.events.len() as int) =~= evs);
        r
    }

    /// The index of the latest try scored by `team`, if there is one.
    pub fn recent_try(&self, team: Team) -> (r: Option<usize>)
        ensures
            match r {
                Some(i) => {
                    &&& i < self@.events.len()
                    &&& try_by(team)(self@.events[i as int])
                    &&& forall|j: int|
                        i < j < self@.events.len() ==> !try_by(team)(#[trigger] self@.events[j])
                },
                None => forall|j: int|
                    0 <= j < self@.events.len() ==> !try_by(team)(#[trigger] self@.events[j]),
            },
    {
        let mut i: usize = self.events.len();
        while i > 0
            invariant
                i <= self.events.len(),
                forall|j: int|
                    i <= j < self@.events.len() ==> !try_by(team)(#[trigger] self@.events[j]),
            decreases i,
        {
            i = i - 1;
            match &self.events[i] {
                Event::Try(t) => {
                    if t.team == team {
                        return Some(i);
                    }
                },
                _ => {},
            }
        }
        None
    }

    /// Whether both teams have been named, so that the match is worth saving.
    pub fn has_both_names(&self) -> (r: bool)
        ensures
            r == (self@.team_a.len() > 0 && self@.team_b.len() > 0),
    {
        !self.team_a.as_str().is_empty() && !self.team_b.as_str().is_empty()
    }

    /// The minute of the match clock.
    pub fn clock_minute(&self) -> (r: u32)
        ensures
            r == self@.clock_minute(),
    {
        (self.elapsed_secs / 60) as u32
    }

    /// Seconds of possession credited to `team`.
    pub fn possession_secs(&self, team: Team) -> (r: u64)
        ensures
            r == self@.possession_secs_of(team),
    {
        match team {
            Team::A => self.possession_secs_a,
            Team::B => self.possession_secs_b,
        }
    }

    /// The points of `team`, computed wide enough never to overflow.
    pub fn wide_score(&self, team: Team) -> (r: u128)
        ensures
            r == self@.score_of(team),
    {
        let ghost evs = self@.events;
        let mut score: u128 = 0;
        let mut i: usize = 0;
        while i < self.events.len()
            invariant
                evs == self@.events,
                i <= self.events.len(),
                score == points(evs.take(i as int), team),
                score <= 4 * i,
            decreases self.events.len() - i,
        {
            proof {
                lemma_points_step(evs, i as int, team);
            }
            match &self.events[i] {
                Event::Try(t) => {
                    if t.team == team {
                        score = score + 4;
                    }
                },
                Event::Conversion(c) => {
                    if c.team == team && c.successful {
                        score = score + 2;
                    }
                },
                Event::PenaltyGoal(p) => {
                    if p.team == team {
                        score = score + 2;
                    }
                },
                Event::DropGoal(d) => {
                    if d.team == team {
                        score = score + 1;
                    }
                },
                _ => {},
            }
            i = i + 1;
        }
        assert(evs.take(self.events.len() as int) =~= evs);
        score
    }

    /// Whether both sides have the same score.
    pub fn scores_level(&self) -> (r: bool)
        ensures
            r == self@.scores_level(),
    {
        self.wide_score(Team::A) == self.wide_score(Team::B)
    }

    pub fn advance_phase(&mut self)
        ensures
            final(self)@ == old(self)@.with_phase(next_phase(old(self).phase)),
    {
        self.phase = match self.phase {
            Phase::FirstHalf => Phase::Halftime,
            Phase::Halftime => Phase::SecondHalf,
            Phase::SecondHalf => Phase::FullTime,
            Phase::GoldenPoint => Phase::FullTime,
            Phase::FullTime => Phase::FullTime,
        };
    }
}

} // verus!
