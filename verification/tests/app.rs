use rugby_stats::app::{App, AppAction, InputTarget};
use rugby_stats::input::{KeyCode, KeyEvent};
use rugby_stats::models::{CardType, Event, Phase, Team, TryEvent};

fn press(app: &mut App, code: KeyCode) -> AppAction {
    let k = KeyEvent { code };
    assert!(app.accepts_key(&k), "key {:?} refused", code);
    app.handle_key(k)
}

fn chr(app: &mut App, c: char) -> AppAction {
    press(app, KeyCode::Char(c))
}

fn enter_text(app: &mut App, s: &str) {
    for c in s.chars() {
        chr(app, c);
    }
    press(app, KeyCode::Enter);
}

fn tick(app: &mut App, secs: u64) {
    assert!(app.accepts_tick(secs));
    app.tick(secs);
}

fn ready() -> App {
    let mut app = App::new();
    enter_text(&mut app, "Storm");
    enter_text(&mut app, "Broncos");
    app
}

fn message(app: &App) -> &str {
    app.message.as_deref().unwrap_or("")
}

#[test]
fn new_app_asks_for_team_a() {
    let app = App::new();
    assert!(app.input.active);
    assert_eq!(app.input.prompt, "Enter Team A name: ");
    assert_eq!(app.input_target, InputTarget::SetupTeamA);
    assert_eq!(app.active_team, Team::A);
    assert!(app.undo_stack.is_empty());
    assert!(app.message.is_none());
    assert!(!app.should_quit);
    assert_eq!(app.state.team_a, "");
    assert_eq!(app.state.elapsed_secs, 0);
    assert!(!app.state.clock_running);
}

#[test]
fn setup_names_both_teams() {
    let mut app = App::new();
    enter_text(&mut app, "  Storm ");
    assert_eq!(app.state.team_a, "Storm");
    assert_eq!(app.input_target, InputTarget::SetupTeamB);
    assert_eq!(app.input.prompt, "Enter Team B name: ");
    enter_text(&mut app, "Broncos");
    assert_eq!(app.state.team_b, "Broncos");
    assert_eq!(app.input_target, InputTarget::Idle);
    assert!(!app.input.active);
    assert_eq!(message(&app), "Match ready! Press Tab to switch active team.");
    assert!(app.undo_stack.is_empty());
}

#[test]
fn team_names_may_hold_spaces() {
    let mut app = App::new();
    enter_text(&mut app, "Sea Eagles");
    assert_eq!(app.state.team_a, "Sea Eagles");
}

#[test]
fn blank_team_name_is_asked_again() {
    let mut app = App::new();
    enter_text(&mut app, "   ");
    assert_eq!(app.input_target, InputTarget::SetupTeamA);
    assert!(app.input.active);
    assert_eq!(app.input.prompt, "Enter Team A name: ");
    assert_eq!(app.state.team_a, "");
    press(&mut app, KeyCode::Esc);
    assert_eq!(app.input_target, InputTarget::SetupTeamA);
    assert!(app.input.active);
}

#[test]
fn tab_switches_the_active_team() {
    let mut app = ready();
    press(&mut app, KeyCode::Tab);
    assert_eq!(app.active_team, Team::B);
    assert_eq!(message(&app), "Active team: Broncos");
    assert!(!app.state.clock_running);
    press(&mut app, KeyCode::Tab);
    assert_eq!(app.active_team, Team::A);
    assert_eq!(message(&app), "Active team: Storm");
}

#[test]
fn space_starts_and_pauses_the_clock() {
    let mut app = ready();
    chr(&mut app, ' ');
    assert!(app.state.clock_running);
    assert_eq!(message(&app), "Clock running");
    assert_eq!(app.active_team, Team::A);
    tick(&mut app, 65);
    assert_eq!(app.state.elapsed_secs, 65);
    assert_eq!(app.state.clock_minute(), 1);
    chr(&mut app, ' ');
    assert!(!app.state.clock_running);
    assert_eq!(message(&app), "Clock paused");
    tick(&mut app, 30);
    assert_eq!(app.state.elapsed_secs, 65);
    assert!(app.state.events.is_empty());
    assert!(app.undo_stack.is_empty());
}

#[test]
fn clock_stops_at_half_time_and_full_time() {
    let mut app = ready();
    chr(&mut app, ' ');
    tick(&mut app, 2390);
    assert_eq!(app.state.phase, Phase::FirstHalf);
    tick(&mut app, 30);
    assert_eq!(app.state.elapsed_secs, 2400);
    assert_eq!(app.state.phase, Phase::Halftime);
    assert!(!app.state.clock_running);
    assert_eq!(message(&app), "Phase: Halftime");
    chr(&mut app, 's');
    assert_eq!(app.state.phase, Phase::SecondHalf);
    chr(&mut app, ' ');
    tick(&mut app, 2500);
    assert_eq!(app.state.elapsed_secs, 4800);
    assert_eq!(app.state.phase, Phase::FullTime);
    assert!(!app.state.clock_running);
    assert_eq!(message(&app), "Full time, scores level - E: end in a tie, G: golden point");
}

#[test]
fn possession_follows_the_active_team() {
    let mut app = ready();
    chr(&mut app, 'i');
    assert!(app.state.in_possession);
    assert_eq!(message(&app), "In possession: Storm");
    chr(&mut app, ' ');
    tick(&mut app, 30);
    press(&mut app, KeyCode::Tab);
    tick(&mut app, 10);
    assert_eq!(app.state.possession_secs(Team::A), 30);
    assert_eq!(app.state.possession_secs(Team::B), 10);
    chr(&mut app, 'i');
    assert_eq!(message(&app), "Possession tracking paused");
    tick(&mut app, 5);
    assert_eq!(app.state.possession_secs(Team::B), 10);
    assert_eq!(app.state.elapsed_secs, 45);
}

#[test]
fn tackle_is_credited_to_the_defending_side() {
    let mut app = ready();
    chr(&mut app, 't');
    assert_eq!(app.state.tackles(Team::B), 1);
    assert_eq!(app.state.tackles(Team::A), 0);
    assert_eq!(message(&app), "Tackle: Broncos");
    assert_eq!(app.undo_stack.len(), 1);
}

#[test]
fn undo_reverts_the_last_action() {
    let mut app = ready();
    chr(&mut app, 'T');
    chr(&mut app, 'm');
    assert_eq!(app.state.sets_attempted(Team::A), 1);
    chr(&mut app, 'u');
    assert_eq!(message(&app), "Undone last action");
    assert_eq!(app.state.sets_attempted(Team::A), 0);
    assert_eq!(app.state.tackles(Team::B), 1);
    chr(&mut app, 'U');
    assert_eq!(app.state.tackles(Team::B), 0);
    assert!(app.undo_stack.is_empty());
    chr(&mut app, 'u');
    assert_eq!(message(&app), "Nothing to undo");
}

#[test]
fn undo_brings_back_the_whole_record() {
    let mut app = ready();
    chr(&mut app, 'i');
    chr(&mut app, ' ');
    chr(&mut app, 't');
    tick(&mut app, 20);
    assert_eq!(app.state.possession_secs(Team::A), 20);
    chr(&mut app, 'u');
    assert_eq!(app.state.tackles(Team::B), 0);
    assert_eq!(app.state.elapsed_secs, 0);
    assert_eq!(app.state.possession_secs(Team::A), 0);
    assert!(app.state.clock_running);
    assert!(app.undo_stack.is_empty());
}

#[test]
fn try_takes_its_minute_from_the_clock() {
    let mut app = ready();
    chr(&mut app, ' ');
    tick(&mut app, 12 * 60 + 30);
    chr(&mut app, 'r');
    assert_eq!(app.input_target, InputTarget::TryScorer);
    assert_eq!(app.input.prompt, "Try scorer name: ");
    assert_eq!(app.pending_minute, Some(12));
    enter_text(&mut app, "Smith ");
    assert_eq!(app.input_target, InputTarget::Idle);
    assert_eq!(app.pending_minute, None);
    assert_eq!(message(&app), "Try scored by Smith! (+4 pts)");
    assert_eq!(app.state.score_a(), 4);
    let tries = app.state.tries(Team::A);
    assert_eq!(tries.len(), 1);
    assert_eq!(tries[0].player, "Smith");
    assert_eq!(tries[0].minute, 12);
    assert_eq!(app.undo_stack.len(), 1);
}

#[test]
fn escape_from_a_name_prompt_records_nothing() {
    let mut app = ready();
    chr(&mut app, 'g');
    press(&mut app, KeyCode::Esc);
    assert!(!app.input.active);
    assert_eq!(app.input_target, InputTarget::Idle);
    assert!(app.state.events.is_empty());
}

#[test]
fn conversion_needs_a_try() {
    let mut app = ready();
    chr(&mut app, 'c');
    assert_eq!(message(&app), "No try to convert");
    assert!(!app.input.active);
    chr(&mut app, 'r');
    enter_text(&mut app, "Smith");
    chr(&mut app, 'C');
    assert_eq!(app.input_target, InputTarget::ConversionKicker);
    assert_eq!(app.input.prompt, "Conversion kicker name: ");
    enter_text(&mut app, "Munster");
    assert_eq!(message(&app), "Conversion by Munster! (+2 pts)");
    assert_eq!(app.state.score_a(), 6);
    let c = app.state.conversions(Team::A);
    assert_eq!(c[0].minute, 0);
    assert!(c[0].successful);
}

#[test]
fn penalty_goal_and_drop_goal_score() {
    let mut app = ready();
    press(&mut app, KeyCode::Tab);
    chr(&mut app, 'G');
    assert_eq!(app.input.prompt, "Penalty goal kicker name: ");
    enter_text(&mut app, "Reynolds");
    assert_eq!(message(&app), "Penalty goal by Reynolds! (+2 pts)");
    chr(&mut app, 'd');
    assert_eq!(app.input.prompt, "Drop goal scorer name: ");
    enter_text(&mut app, "Reynolds");
    assert_eq!(message(&app), "Drop goal by Reynolds! (+1 pt)");
    assert_eq!(app.state.score_b(), 3);
    assert_eq!(app.state.score_a(), 0);
}

#[test]
fn cards_name_player_and_team() {
    let mut app = ready();
    chr(&mut app, ' ');
    tick(&mut app, 20 * 60);
    chr(&mut app, 'y');
    assert_eq!(app.input.prompt, "Yellow card - player name: ");
    enter_text(&mut app, "Grant");
    assert_eq!(message(&app), "Yellow card: Grant (Storm)");
    press(&mut app, KeyCode::Tab);
    chr(&mut app, 'R');
    assert_eq!(app.input.prompt, "Red card - player name: ");
    enter_text(&mut app, "Haas");
    assert_eq!(message(&app), "Red card: Haas (Broncos)");
    let a = app.state.cards(Team::A);
    let b = app.state.cards(Team::B);
    assert_eq!(a[0].card_type, CardType::Yellow);
    assert_eq!(a[0].minute, 20);
    assert_eq!(b[0].card_type, CardType::Red);
    assert_eq!(b[0].player, "Haas");
}

#[test]
fn blank_scorer_records_nothing() {
    let mut app = ready();
    chr(&mut app, 'r');
    enter_text(&mut app, "  ");
    assert!(app.state.events.is_empty());
    assert_eq!(app.input_target, InputTarget::Idle);
    assert_eq!(app.pending_minute, Some(0));
    assert!(app.undo_stack.is_empty());
}

#[test]
fn quick_events_use_the_clock_minute() {
    let mut app = ready();
    chr(&mut app, ' ');
    tick(&mut app, 7 * 60);
    chr(&mut app, 'e');
    assert_eq!(message(&app), "Error (knock-on): Storm");
    chr(&mut app, 'x');
    assert_eq!(message(&app), "Six again: Broncos");
    chr(&mut app, 'p');
    assert_eq!(message(&app), "Penalty awarded against: Broncos");
    assert_eq!(app.state.errors(Team::A), 1);
    assert_eq!(app.state.six_agains(Team::B), 1);
    assert_eq!(app.state.penalties_against(Team::B), 1);
    for e in app.state.events.iter() {
        match e {
            Event::Error(x) => assert_eq!(x.minute, 7),
            Event::SixAgain(x) => assert_eq!(x.minute, 7),
            Event::PenaltyAwarded(x) => assert_eq!(x.minute, 7),
            _ => panic!("unexpected event"),
        }
    }
    assert_eq!(app.undo_stack.len(), 3);
}

#[test]
fn sets_completed_and_not_completed() {
    let mut app = ready();
    chr(&mut app, 'm');
    assert_eq!(message(&app), "Set completed: Storm");
    chr(&mut app, 'N');
    assert_eq!(message(&app), "Set NOT completed: Storm");
    assert_eq!(app.state.sets_attempted(Team::A), 2);
    assert_eq!(app.state.sets_completed(Team::A), 1);
    assert_eq!(app.state.sets_attempted(Team::B), 0);
}

#[test]
fn stage_advances_with_s() {
    let mut app = ready();
    chr(&mut app, ' ');
    chr(&mut app, 's');
    assert_eq!(app.state.phase, Phase::Halftime);
    assert!(!app.state.clock_running);
    assert_eq!(message(&app), "Phase: Halftime");
    chr(&mut app, 'S');
    assert_eq!(message(&app), "Phase: Second Half");
    chr(&mut app, 'r');
    enter_text(&mut app, "Smith");
    chr(&mut app, 's');
    assert_eq!(message(&app), "Phase: Full Time");
    chr(&mut app, 's');
    assert_eq!(app.state.phase, Phase::FullTime);
    chr(&mut app, 'u');
    assert_eq!(app.state.phase, Phase::FullTime);
    chr(&mut app, 'u');
    assert_eq!(app.state.phase, Phase::SecondHalf);
}

fn level_at_full_time() -> App {
    let mut app = ready();
    chr(&mut app, 's');
    chr(&mut app, 's');
    chr(&mut app, 's');
    assert_eq!(app.state.phase, Phase::FullTime);
    assert_eq!(message(&app), "Full time, scores level - E: end in a tie, G: golden point");
    app
}

#[test]
fn e_ends_a_level_match_as_a_tie() {
    let mut app = level_at_full_time();
    let events = app.state.events.len();
    chr(&mut app, 'E');
    assert_eq!(message(&app), "Match ended in a tie");
    assert!(app.state.ended_in_tie);
    assert_eq!(app.state.phase, Phase::FullTime);
    assert_eq!(app.state.events.len(), events);
    // once decided, E records a knock-on again
    chr(&mut app, 'E');
    assert_eq!(app.state.errors(Team::A), 1);
}

#[test]
fn g_starts_golden_point_and_the_first_score_wins() {
    let mut app = level_at_full_time();
    chr(&mut app, 'G');
    assert_eq!(app.state.phase, Phase::GoldenPoint);
    assert!(app.state.clock_running);
    assert_eq!(message(&app), "Golden point extra time - first score wins");
    assert_eq!(app.state.phase.label(), "Golden Point ET");
    chr(&mut app, 'e');
    assert_eq!(app.state.phase, Phase::GoldenPoint);
    press(&mut app, KeyCode::Tab);
    chr(&mut app, 'd');
    enter_text(&mut app, "Reynolds");
    assert_eq!(app.state.phase, Phase::FullTime);
    assert!(!app.state.clock_running);
    assert_eq!(app.state.score_b(), 1);
    chr(&mut app, 'u');
    assert_eq!(app.state.phase, Phase::GoldenPoint);
}

#[test]
fn e_without_a_tie_is_an_error() {
    let mut app = ready();
    chr(&mut app, 'E');
    assert_eq!(app.state.errors(Team::A), 1);
    let mut app = ready();
    app.state.events.push(Event::Try(TryEvent { team: Team::A, player: "S".to_string(), minute: 1 }));
    chr(&mut app, 's');
    chr(&mut app, 's');
    chr(&mut app, 's');
    assert_eq!(message(&app), "Phase: Full Time");
    chr(&mut app, 'E');
    assert_eq!(app.state.errors(Team::A), 1);
    assert!(!app.state.ended_in_tie);
}

#[test]
fn save_key_asks_the_caller_to_save() {
    let mut app = ready();
    assert_eq!(chr(&mut app, 'o'), AppAction::SaveMatch);
    assert_eq!(chr(&mut app, 'O'), AppAction::SaveMatch);
    assert_eq!(chr(&mut app, 't'), AppAction::Nothing);
    app.report_save(Ok("match.json".to_string()));
    assert_eq!(message(&app), "Saved: match.json");
    app.report_save(Err("disk full".to_string()));
    assert_eq!(message(&app), "Save error: disk full");
    assert_eq!(app.message_ticks, 0);
}

#[test]
fn keys_in_a_prompt_are_typed() {
    let mut app = ready();
    chr(&mut app, 'r');
    assert_eq!(chr(&mut app, 'o'), AppAction::Nothing);
    chr(&mut app, ' ');
    press(&mut app, KeyCode::Tab);
    assert_eq!(app.input.buffer, "o ");
    assert!(!app.state.clock_running);
    assert_eq!(app.active_team, Team::A);
}

#[test]
fn quit_key_stops() {
    let mut app = ready();
    chr(&mut app, 'q');
    assert!(app.should_quit);
    let mut app = ready();
    chr(&mut app, 'Q');
    assert!(app.should_quit);
}

#[test]
fn message_expires_after_twenty_six_ticks() {
    let mut app = ready();
    for _ in 0..25 {
        tick(&mut app, 0);
    }
    assert!(app.message.is_some());
    assert_eq!(app.message_ticks, 25);
    tick(&mut app, 0);
    assert!(app.message.is_none());
    tick(&mut app, 0);
    assert_eq!(app.message_ticks, 26);
}

#[test]
fn full_counts_are_refused() {
    let mut app = ready();
    app.state.tackles_b = u32::MAX;
    assert!(!app.accepts_key(&KeyEvent { code: KeyCode::Char('t') }));
    app.state.sets_completed_a = u32::MAX;
    app.state.sets_attempted_a = u32::MAX - 1;
    assert!(!app.accepts_key(&KeyEvent { code: KeyCode::Char('m') }));
    assert!(app.accepts_key(&KeyEvent { code: KeyCode::Char('n') }));
    app.state.clock_running = true;
    app.state.elapsed_secs = u64::MAX - 1;
    assert!(!app.accepts_tick(2));
    assert!(app.accepts_tick(1));
}

#[test]
fn handle_input_target_directly() {
    let mut app = ready();
    app.handle_input_target(InputTarget::TryMinute, true, Some("+8".to_string()));
    assert_eq!(app.pending_minute, Some(8));
    assert_eq!(app.input_target, InputTarget::TryScorer);
    app.handle_input_target(InputTarget::TryScorer, false, None);
    assert!(app.state.events.is_empty());
    assert_eq!(app.input_target, InputTarget::Idle);
    app.handle_input_target(InputTarget::RedCardMinute, true, Some("x".to_string()));
    assert_eq!(app.input_target, InputTarget::Idle);
    assert_eq!(app.input.prompt, "Minute? ");
    app.handle_input_target(InputTarget::Idle, true, Some("x".to_string()));
    assert_eq!(app.input_target, InputTarget::Idle);
}
