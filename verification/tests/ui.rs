use rugby_stats::app::App;
use rugby_stats::input::{KeyCode, KeyEvent};
use rugby_stats::models::Team;
use rugby_stats::ui::{
    decimal_text, decimal_text2, footer, header, team_panel, truncate, Footer, PanelLine, Piece,
    Shade,
};

fn press(app: &mut App, c: KeyCode) {
    let k = KeyEvent { code: c };
    assert!(app.accepts_key(&k));
    app.handle_key(k);
}

fn enter_text(app: &mut App, s: &str) {
    for c in s.chars() {
        press(app, KeyCode::Char(c));
    }
    press(app, KeyCode::Enter);
}

fn ready() -> App {
    let mut app = App::new();
    enter_text(&mut app, "Storm");
    enter_text(&mut app, "Broncos");
    app
}

fn text(l: &[Piece]) -> String {
    l.iter().map(|p| p.text.as_str()).collect()
}

#[test]
fn short_text_is_kept() {
    assert_eq!(truncate("Storm", 16), "Storm");
    assert_eq!(truncate("exactly sixteen!", 16), "exactly sixteen!");
}

#[test]
fn long_text_is_cut_with_an_ellipsis() {
    assert_eq!(truncate("Manly Warringah Sea Eagles", 16), "Manly Warringah…");
    assert_eq!(truncate("abc", 0), "…");
    assert_eq!(truncate("abc", 1), "…");
    assert_eq!(truncate("abc", 2), "a…");
}

#[test]
fn cut_counts_bytes() {
    assert_eq!(truncate("ééé", 5), "éé…");
    assert_eq!(truncate("ééé", 6), "ééé");
}

#[test]
fn numerals() {
    assert_eq!(decimal_text(0), "0");
    assert_eq!(decimal_text(7), "7");
    assert_eq!(decimal_text(1234567890), "1234567890");
    assert_eq!(decimal_text2(5), "05");
    assert_eq!(decimal_text2(42), "42");
    assert_eq!(decimal_text2(123), "123");
}

#[test]
fn header_shows_names_scores_stage_and_clock() {
    let mut app = ready();
    press(&mut app, KeyCode::Char(' '));
    app.tick(605);
    let h = header(&app);
    assert_eq!(text(&h), "  Storm  0 - 0  Broncos   First Half  ▶ 10:05");
    assert_eq!(h[1].shade, Shade::TeamColour(Team::A));
    assert!(h[1].bold);
    assert_eq!(h[11].shade, Shade::Green);
    press(&mut app, KeyCode::Char(' '));
    let h = header(&app);
    assert_eq!(h[11].text, "⏸ 10:05");
    assert_eq!(h[11].shade, Shade::Red);
}

#[test]
fn footer_shows_prompt_message_or_help() {
    let mut app = App::new();
    press(&mut app, KeyCode::Char('S'));
    match footer(&app) {
        Footer::Prompt(t) => assert_eq!(t, "Enter Team A name:  S"),
        _ => panic!("expected the prompt"),
    }
    let mut app = ready();
    match footer(&app) {
        Footer::Message(m) => assert_eq!(m, "Match ready! Press Tab to switch active team."),
        _ => panic!("expected the message"),
    }
    app.message = None;
    assert!(matches!(footer(&app), Footer::Help));
}

#[test]
fn panel_lists_statistics_and_newest_entries() {
    let mut app = ready();
    for name in ["A", "B", "C", "D", "E", "F", "G", "H"].iter() {
        press(&mut app, KeyCode::Char('r'));
        enter_text(&mut app, name);
    }
    press(&mut app, KeyCode::Char('y'));
    enter_text(&mut app, "Grant");
    press(&mut app, KeyCode::Char('e'));
    let (title, lines) = team_panel(&app, Team::A);
    assert_eq!(title.len(), 1);
    assert_eq!(title[0].text, " ▸  Storm ");
    assert_eq!(title[0].shade, Shade::Yellow);
    let texts: Vec<String> = lines
        .iter()
        .map(|l| match l {
            PanelLine::Pieces(p) => text(p),
            PanelLine::Possession => "<possession>".to_string(),
            PanelLine::SetCompletion => "<sets>".to_string(),
        })
        .collect();
    assert_eq!(
        texts,
        vec![
            "",
            "<possession>",
            "Tackles:            0",
            "Errors:             1",
            "<sets>",
            "Penalties Against:  0",
            "Six Again:          0",
            "Penalty Goals:      0 (0pts)",
            "",
            "── TRIES ──",
            "00' H",
            "00' G",
            "00' F",
            "00' E",
            "00' D",
            "00' C",
            "  ... and 2 more",
            "",
            "── CARDS ──",
            "00' YC Grant",
        ]
    );
    let (title_b, lines_b) = team_panel(&app, Team::B);
    assert_eq!(title_b[0].text, "    Broncos ");
    assert_eq!(title_b[0].shade, Shade::DarkGray);
    assert_eq!(lines_b.len(), 8);
}

#[test]
fn panel_shows_the_stage_when_idle_and_possession_in_title() {
    let mut app = ready();
    app.message = None;
    press(&mut app, KeyCode::Char('i'));
    app.message = None;
    let (title, lines) = team_panel(&app, Team::A);
    assert_eq!(title[0].text, " ▸  Storm  ● IN POSSESSION  ");
    match lines.last().unwrap() {
        PanelLine::Pieces(p) => {
            assert_eq!(text(p), "Phase: First Half");
            assert_eq!(p[0].shade, Shade::DarkGray);
        }
        _ => panic!("expected the stage line"),
    }
}
