use rugby_stats::models::{
    CardEvent, CardType, ConversionEvent, DropGoalEvent, ErrorEvent, Event, MatchState,
    PenaltyAwardedEvent, PenaltyGoalEvent, Phase, SixAgainEvent, Team, TryEvent,
};

fn sample() -> MatchState {
    let mut m = MatchState::new("Storm".to_string(), "Broncos".to_string());
    m.events.push(Event::Try(TryEvent { team: Team::A, player: "Smith".to_string(), minute: 3 }));
    m.events.push(Event::Conversion(ConversionEvent {
        team: Team::A,
        kicker: "Munster".to_string(),
        minute: 4,
        successful: true,
    }));
    m.events.push(Event::Try(TryEvent { team: Team::B, player: "Haas".to_string(), minute: 10 }));
    m.events.push(Event::Conversion(ConversionEvent {
        team: Team::B,
        kicker: "Reynolds".to_string(),
        minute: 11,
        successful: false,
    }));
    m.events.push(Event::PenaltyAwarded(PenaltyAwardedEvent { team: Team::B, minute: 0 }));
    m.events.push(Event::PenaltyGoal(PenaltyGoalEvent {
        team: Team::A,
        player: "Munster".to_string(),
        minute: 15,
    }));
    m.events.push(Event::SixAgain(SixAgainEvent { team: Team::A, minute: 0 }));
    m.events.push(Event::Error(ErrorEvent { team: Team::B, minute: 0 }));
    m.events.push(Event::Error(ErrorEvent { team: Team::B, minute: 0 }));
    m.events.push(Event::DropGoal(DropGoalEvent {
        team: Team::B,
        player: "Reynolds".to_string(),
        minute: 39,
    }));
    m.events.push(Event::Card(CardEvent {
        team: Team::A,
        player: "Grant".to_string(),
        minute: 20,
        card_type: CardType::Yellow,
    }));
    m.events.push(Event::Try(TryEvent { team: Team::A, player: "Papenhuyzen".to_string(), minute: 30 }));
    m
}

#[test]
fn new_match_starts_in_first_half() {
    let m = MatchState::new("Storm".to_string(), "Broncos".to_string());
    assert_eq!(m.phase, Phase::FirstHalf);
    assert_eq!(m.score_a(), 0);
    assert_eq!(m.score_b(), 0);
    assert_eq!(m.team_name(Team::A), "Storm");
    assert_eq!(m.team_name(Team::B), "Broncos");
    assert_eq!(m.tackles(Team::A), 0);
    assert_eq!(m.sets_attempted(Team::B), 0);
    assert!(m.events.is_empty());
}

#[test]
fn try_scores_four_points() {
    let mut m = MatchState::new("A".to_string(), "B".to_string());
    m.events.push(Event::Try(TryEvent { team: Team::A, player: "Smith".to_string(), minute: 3 }));
    assert_eq!(m.score(Team::A), 4);
    assert_eq!(m.score(Team::B), 0);
}

#[test]
fn score_breakdown_by_event_kind() {
    let m = sample();
    // two tries, one conversion and one penalty goal
    assert_eq!(m.score_a(), 4 + 4 + 2 + 2);
    // one try, a missed conversion and a drop goal
    assert_eq!(m.score_b(), 4 + 1);
    assert_eq!(m.score(Team::A), 12);
    assert_eq!(m.score(Team::B), 5);
}

#[test]
fn unsuccessful_conversion_scores_nothing() {
    let mut m = MatchState::new("A".to_string(), "B".to_string());
    m.events.push(Event::Conversion(ConversionEvent {
        team: Team::A,
        kicker: "K".to_string(),
        minute: 1,
        successful: false,
    }));
    assert_eq!(m.score_a(), 0);
    assert_eq!(m.conversions(Team::A).len(), 1);
}

#[test]
fn lists_keep_their_order_and_team() {
    let m = sample();
    let tries = m.tries(Team::A);
    assert_eq!(tries.len(), 2);
    assert_eq!(tries[0].player, "Smith");
    assert_eq!(tries[1].player, "Papenhuyzen");
    assert_eq!(tries[1].minute, 30);
    assert_eq!(m.tries(Team::B).len(), 1);
    assert_eq!(m.conversions(Team::B)[0].kicker, "Reynolds");
    assert!(!m.conversions(Team::B)[0].successful);
    assert_eq!(m.penalty_goals(Team::A).len(), 1);
    assert_eq!(m.penalty_goals(Team::B).len(), 0);
    assert_eq!(m.cards(Team::A).len(), 1);
    assert_eq!(m.cards(Team::A)[0].card_type, CardType::Yellow);
    assert_eq!(m.cards(Team::B).len(), 0);
    assert_eq!(m.drop_goals(Team::B)[0].minute, 39);
    assert_eq!(m.drop_goals(Team::A).len(), 0);
}

#[test]
fn counts_by_team() {
    let m = sample();
    assert_eq!(m.penalties_against(Team::B), 1);
    assert_eq!(m.penalties_against(Team::A), 0);
    assert_eq!(m.six_agains(Team::A), 1);
    assert_eq!(m.six_agains(Team::B), 0);
    assert_eq!(m.errors(Team::B), 2);
    assert_eq!(m.errors(Team::A), 0);
}

#[test]
fn recent_try_is_the_latest_of_the_team() {
    let m = sample();
    assert_eq!(m.recent_try(Team::A), Some(11));
    assert_eq!(m.recent_try(Team::B), Some(2));
    let empty = MatchState::new("A".to_string(), "B".to_string());
    assert_eq!(empty.recent_try(Team::A), None);
}

#[test]
fn phases_advance_and_stop_at_full_time() {
    let mut m = MatchState::new("A".to_string(), "B".to_string());
    assert_eq!(m.phase.label(), "First Half");
    m.advance_phase();
    assert_eq!(m.phase, Phase::Halftime);
    assert_eq!(m.phase.label(), "Halftime");
    m.advance_phase();
    assert_eq!(m.phase, Phase::SecondHalf);
    assert_eq!(m.phase.label(), "Second Half");
    m.advance_phase();
    assert_eq!(m.phase, Phase::FullTime);
    assert_eq!(m.phase.label(), "Full Time");
    m.advance_phase();
    assert_eq!(m.phase, Phase::FullTime);
}

#[test]
fn other_team_swaps_and_is_an_involution() {
    assert_eq!(Team::A.other(), Team::B);
    assert_eq!(Team::B.other(), Team::A);
    assert_eq!(Team::A.other().other(), Team::A);
}

#[test]
fn statistics_read_each_side() {
    let mut m = MatchState::new("A".to_string(), "B".to_string());
    m.tackles_a = 7;
    m.tackles_b = 9;
    m.sets_completed_a = 3;
    m.sets_attempted_a = 4;
    m.sets_completed_b = 1;
    m.sets_attempted_b = 2;
    assert_eq!(m.tackles(Team::A), 7);
    assert_eq!(m.tackles(Team::B), 9);
    assert_eq!(m.sets_completed(Team::A), 3);
    assert_eq!(m.sets_attempted(Team::A), 4);
    assert_eq!(m.sets_completed(Team::B), 1);
    assert_eq!(m.sets_attempted(Team::B), 2);
}

#[test]
fn clone_copies_the_whole_record() {
    let m = sample();
    let c = m.clone();
    assert_eq!(c.team_a, "Storm");
    assert_eq!(c.team_b, "Broncos");
    assert_eq!(c.events.len(), m.events.len());
    assert_eq!(c.score_a(), m.score_a());
    assert_eq!(c.tries(Team::A)[1].player, "Papenhuyzen");
    let e = m.events[0].clone();
    match e {
        Event::Try(t) => assert_eq!(t.player, "Smith"),
        _ => panic!("expected a try"),
    }
}

#[test]
fn score_adds_up_over_stretches_of_play() {
    let whole = sample();
    let mut first = MatchState::new("Storm".to_string(), "Broncos".to_string());
    let mut second = MatchState::new("Storm".to_string(), "Broncos".to_string());
    for (i, e) in whole.events.iter().enumerate() {
        if i < 5 {
            first.events.push(e.clone());
        } else {
            second.events.push(e.clone());
        }
    }
    for team in [Team::A, Team::B].iter() {
        assert_eq!(whole.score(*team), first.score(*team) + second.score(*team));
        assert_eq!(whole.wide_score(*team), whole.score(*team) as u128);
    }
}

#[test]
fn clock_and_level_scores() {
    let mut m = MatchState::new("A".to_string(), "B".to_string());
    assert!(m.scores_level());
    m.elapsed_secs = 119;
    assert_eq!(m.clock_minute(), 1);
    m.possession_secs_b = 42;
    assert_eq!(m.possession_secs(Team::B), 42);
    assert_eq!(m.possession_secs(Team::A), 0);
    m.events.push(Event::DropGoal(DropGoalEvent { team: Team::B, player: "R".to_string(), minute: 1 }));
    assert!(!m.scores_level());
    assert!(m.events[0].scores());
    let miss = Event::Conversion(ConversionEvent {
        team: Team::A,
        kicker: "K".to_string(),
        minute: 2,
        successful: false,
    });
    assert!(!miss.scores());
    assert_eq!(Phase::GoldenPoint.next(), Phase::FullTime);
    assert_eq!(Phase::SecondHalf.next(), Phase::FullTime);
    assert_eq!(Phase::FirstHalf.next(), Phase::Halftime);
}

#[test]
fn both_names_are_needed_to_save() {
    assert!(MatchState::new("A".to_string(), "B".to_string()).has_both_names());
    assert!(!MatchState::new("A".to_string(), String::new()).has_both_names());
    assert!(!MatchState::new(String::new(), "B".to_string()).has_both_names());
}
