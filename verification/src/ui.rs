use vstd::prelude::*;
use vstd::string::*;
use vstd::utf8::*;

use crate::app::{App, AppView, InputTarget};
use crate::input::utf8;
use crate::models::{
    card_for, conversion_by, drop_goal_by, error_by, penalty_against, penalty_goal_by,
    phase_label, select, six_again_for, try_by, CardEvent, CardType, ConversionEvent,
    DropGoalEvent, EventView, MatchView, PenaltyGoalEvent, Phase, Team, TryEvent,
};
use crate::text::{join2, push_char};

verus! {

broadcast use vstd::utf8::encode_utf8_decode_utf8;

/// The byte offset at which a text longer than `max` bytes is cut.
pub open spec fn cut_at(max: usize) -> int {
    if max > 0 {
        max - 1
    } else {
        0
    }
}

/// Whether a text can be cut to `max` bytes: a text longer than that is cut
/// at a character boundary.
pub open spec fn can_truncate_text(s: Seq<char>, max: usize) -> bool {
    utf8(s).len() > max ==> is_char_boundary(utf8(s), cut_at(max))
}

/// Whether `truncate(s, max)` can cut `s` where it must.
pub open spec fn can_truncate(s: &str, max: usize) -> bool {
    can_truncate_text(s@, max)
}

/// A text of at most `max` bytes as it is; a longer one cut to its first
/// `max - 1` bytes and followed by an ellipsis.
pub open spec fn truncated(s: Seq<char>, max: usize) -> Seq<char> {
    if utf8(s).len() <= max {
        s
    } else {
        decode_utf8(utf8(s).take(cut_at(max))) + "…"@
    }
}

pub fn truncate(s: &str, max: usize) -> (r: String)
    requires
        can_truncate(s, max),
    ensures
        r@ == truncated(s@, max),
{
    if s.as_bytes().len() > max {
        let k: usize = if max > 0 {
            max - 1
        } else {
            0
        };
        let (head, _) = s.split_at(k);
        assert(head.spec_bytes() =~= s.spec_bytes().take(k as int));
        String::from_str(head).concat("…")
    } else {
        String::from_str(s)
    }
}

/// The character of a decimal digit.
pub open spec fn digit_char(d: nat) -> char {
    (d + 48) as char
}

/// The decimal numeral of `n`.
pub open spec fn decimal(n: nat) -> Seq<char>
    decreases n,
{
    if n < 10 {
        seq![digit_char(n)]
    } else {
        decimal(n / 10).push(digit_char(n % 10))
    }
}

/// A numeral padded with a leading zero to two characters.
pub open spec fn pad2(s: Seq<char>) -> Seq<char> {
    if s.len() < 2 {
        seq!['0'] + s
    } else {
        s
    }
}

/// The decimal numeral of a number.
pub fn decimal_text(n: u128) -> (r: String)
    ensures
        r@ == decimal(n as nat),
    decreases n,
{
    let d: u8 = (n % 10) as u8;
    let c: char = (d + 48) as char;
    if n < 10 {
        let mut r = String::new();
        push_char(&mut r, c);
        assert(r@ =~= seq![digit_char(n as nat)]);
        r
    } else {
        let mut r = decimal_text(n / 10);
        push_char(&mut r, c);
        r
    }
}

/// The decimal numeral of a number, at least two characters wide.
pub fn decimal_text2(n: u128) -> (r: String)
    ensures
        r@ == pad2(decimal(n as nat)),
{
    let t = decimal_text(n);
    if n < 10 {
        let mut r = String::from_str("0");
        r.append(t.as_str());
        proof {
            reveal_strlit("0");
            assert(decimal(n as nat).len() == 1);
            assert(r@ =~= seq!['0'] + decimal(n as nat));
        }
        r
    } else {
        assert(decimal(n as nat).len() >= 2) by {
            assert(decimal(n as nat) == decimal((n / 10) as nat).push(digit_char((n % 10) as nat)));
        }
        t
    }
}

/// How a piece of text is coloured.
#[derive(Debug, Clone, Copy, PartialEq, Eq, Structural)]
pub enum Shade {
    Plain,
    TeamColour(Team),
    DarkGray,
    Blue,
    Yellow,
    Red,
    Green,
}

/// The abstract content of a styled piece of text.
pub struct PieceView {
    pub text: Seq<char>,
    pub shade: Shade,
    pub bold: bool,
    pub dim: bool,
}

/// A styled piece of text.
#[derive(Debug)]
pub struct Piece {
    pub text: String,
    pub shade: Shade,
    pub bold: bool,
    pub dim: bool,
}

impl View for Piece {
    type V = PieceView;

    open spec fn view(&self) -> PieceView {
        PieceView { text: self.text@, shade: self.shade, bold: self.bold, dim: self.dim }
    }
}

pub open spec fn pv(text: Seq<char>, shade: Shade, bold: bool, dim: bool) -> PieceView {
    PieceView { text, shade, bold, dim }
}

/// The pieces of a line.
pub open spec fn pieces_view(l: Vec<Piece>) -> Seq<PieceView> {
    l@.map_values(|p: Piece| p@)
}

fn piece(text: String, shade: Shade, bold: bool, dim: bool) -> (r: Piece)
    ensures
        r@ == pv(text@, shade, bold, dim),
{
    Piece { text, shade, bold, dim }
}

/// Appends a piece to a line.
fn put(line: &mut Vec<Piece>, text: String, shade: Shade, bold: bool, dim: bool)
    ensures
        pieces_view(*final(line)) == pieces_view(*old(line)).push(pv(text@, shade, bold, dim)),
{
    line.push(piece(text, shade, bold, dim));
    assert(pieces_view(*line) =~= pieces_view(*old(line)).push(pv(text@, shade, bold, dim)));
}

/// The match clock as shown: a run or pause sign and minutes and seconds.
pub open spec fn clock_text(s: MatchView) -> Seq<char> {
    (if s.clock_running {
        "▶"@
    } else {
        "⏸"@
    }) + " "@ + pad2(decimal((s.elapsed_secs / 60) as nat)) + ":"@ + pad2(
        decimal((s.elapsed_secs % 60) as nat),
    )
}

/// The header line: both names and scores, the stage and the clock.
pub open spec fn header_line(s: MatchView) -> Seq<PieceView> {
    seq![
        pv("  "@, Shade::Plain, false, false),
        pv(truncated(s.team_a, 16), Shade::TeamColour(Team::A), true, false),
        pv("  "@, Shade::Plain, false, false),
        pv(decimal(s.score_of(Team::A)), Shade::Plain, true, false),
        pv(" - "@, Shade::DarkGray, false, false),
        pv(decimal(s.score_of(Team::B)), Shade::Plain, true, false),
        pv("  "@, Shade::Plain, false, false),
        pv(truncated(s.team_b, 16), Shade::TeamColour(Team::B), true, false),
        pv("   "@, Shade::Plain, false, false),
        pv(phase_label(s.phase), Shade::DarkGray, false, false),
        pv("  "@, Shade::Plain, false, false),
        pv(
            clock_text(s),
            if s.clock_running {
                Shade::Green
            } else {
                Shade::Red
            },
            true,
            false,
        ),
    ]
}

/// The header line of the display.
pub fn header(app: &App) -> (r: Vec<Piece>)
    requires
        can_truncate_text(app@.state.team_a, 16),
        can_truncate_text(app@.state.team_b, 16),
    ensures
        pieces_view(r) == header_line(app@.state),
{
    let s = &app.state;
    let mut l: Vec<Piece> = Vec::new();
    put(&mut l, String::from_str("  "), Shade::Plain, false, false);
    put(&mut l, truncate(s.team_a.as_str(), 16), Shade::TeamColour(Team::A), true, false);
    put(&mut l, String::from_str("  "), Shade::Plain, false, false);
    put(&mut l, decimal_text(s.wide_score(Team::A)), Shade::Plain, true, false);
    put(&mut l, String::from_str(" - "), Shade::DarkGray, false, false);
    put(&mut l, decimal_text(s.wide_score(Team::B)), Shade::Plain, true, false);
    put(&mut l, String::from_str("  "), Shade::Plain, false, false);
    put(&mut l, truncate(s.team_b.as_str(), 16), Shade::TeamColour(Team::B), true, false);
    put(&mut l, String::from_str("   "), Shade::Plain, false, false);
    put(&mut l, String::from_str(s.phase.label()), Shade::DarkGray, false, false);
    put(&mut l, String::from_str("  "), Shade::Plain, false, false);
    let mut clock = if s.clock_running {
        String::from_str("▶")
    } else {
        String::from_str("⏸")
    };
    clock.append(" ");
    clock.append(decimal_text2((s.elapsed_secs / 60) as u128).as_str());
    clock.append(":");
    clock.append(decimal_text2((s.elapsed_secs % 60) as u128).as_str());
    let shade = if s.clock_running {
        Shade::Green
    } else {
        Shade::Red
    };
    put(&mut l, clock, shade, true, false);
    assert(pieces_view(l) =~= header_line(app@.state));
    l
}

/// The abstract content of the footer.
pub enum FooterView {
    Prompt(Seq<char>),
    Message(Seq<char>),
    Help,
}

/// What the bottom line shows: the open prompt with its line, else the
/// status message, else the key help.
#[derive(Debug)]
pub enum Footer {
    Prompt(String),
    Message(String),
    Help,
}

impl View for Footer {
    type V = FooterView;

    open spec fn view(&self) -> FooterView {
        match self {
            Footer::Prompt(t) => FooterView::Prompt(t@),
            Footer::Message(m) => FooterView::Message(m@),
            Footer::Help => FooterView::Help,
        }
    }
}

pub open spec fn footer_of(a: AppView) -> FooterView {
    if a.input.active {
        FooterView::Prompt(a.input.prompt + " "@ + a.input.buffer)
    } else if a.message is Some {
        FooterView::Message(a.message->0)
    } else {
        FooterView::Help
    }
}

/// The bottom line of the display.
pub fn footer(app: &App) -> (r: Footer)
    ensures
        r@ == footer_of(app@),
{
    if app.input.is_active() {
        let mut t = String::from_str(app.input.prompt_text());
        t.append(" ");
        t.append(app.input.line());
        Footer::Prompt(t)
    } else {
        match &app.message {
            Some(m) => Footer::Message(m.clone()),
            None => Footer::Help,
        }
    }
}

/// The abstract content of a line of a team panel. The two percentage lines
/// are drawn by the caller, which computes them in floating point.
pub enum LineView {
    Pieces(Seq<PieceView>),
    Possession,
    SetCompletion,
}

/// A line of a team panel.
#[derive(Debug)]
pub enum PanelLine {
    Pieces(Vec<Piece>),
    /// The possession percentage of the team.
    Possession,
    /// The set completion percentage of the team, with its sets.
    SetCompletion,
}

impl View for PanelLine {
    type V = LineView;

    open spec fn view(&self) -> LineView {
        match self {
            PanelLine::Pieces(l) => LineView::Pieces(pieces_view(*l)),
            PanelLine::Possession => LineView::Possession,
            PanelLine::SetCompletion => LineView::SetCompletion,
        }
    }
}

pub open spec fn lines_view(ls: Vec<PanelLine>) -> Seq<LineView> {
    ls@.map_values(|l: PanelLine| l@)
}

pub open spec fn blank() -> LineView {
    LineView::Pieces(Seq::empty())
}

/// A statistic: its label, then its value in the team's colour.
pub open spec fn stat_line(label: Seq<char>, value: Seq<char>, team: Team) -> LineView {
    LineView::Pieces(
        seq![pv(label, Shade::Plain, false, false), pv(value, Shade::TeamColour(team), true, false)],
    )
}

pub open spec fn section_header(title: Seq<char>) -> LineView {
    LineView::Pieces(seq![pv(title, Shade::Blue, false, true)])
}

pub open spec fn more_line(n: nat) -> LineView {
    LineView::Pieces(
        seq![pv("  ... and "@ + decimal(n) + " more"@, Shade::DarkGray, false, false)],
    )
}

/// A list section: a blank line, its title, then the newest `k` entries,
/// newest first, and a count of the ones left out; nothing when empty.
pub open spec fn section(title: Seq<char>, lines: Seq<Seq<PieceView>>, k: nat) -> Seq<LineView> {
    let n = lines.len();
    if n == 0 {
        Seq::empty()
    } else {
        seq![blank(), section_header(title)] + Seq::new(
            if n < k {
                n
            } else {
                k
            },
            |j: int| LineView::Pieces(lines[n - 1 - j]),
        ) + if n > k {
            seq![more_line((n - k) as nat)]
        } else {
            Seq::empty()
        }
    }
}

pub open spec fn minute_piece(m: u32) -> PieceView {
    pv(pad2(decimal(m as nat)) + "' "@, Shade::DarkGray, false, false)
}

pub open spec fn try_line(e: EventView) -> Seq<PieceView> {
    seq![minute_piece(e->Try_minute), pv(e->Try_player, Shade::Plain, false, false)]
}

pub open spec fn penalty_goal_line(e: EventView, team: Team) -> Seq<PieceView> {
    seq![
        minute_piece(e->PenaltyGoal_minute),
        pv(e->PenaltyGoal_player, Shade::TeamColour(team), false, false),
        pv(" "@, Shade::Plain, false, false),
        pv("●"@, Shade::Green, false, false),
    ]
}

pub open spec fn conversion_line(e: EventView, team: Team) -> Seq<PieceView> {
    seq![
        minute_piece(e->Conversion_minute),
        pv(e->Conversion_kicker, Shade::TeamColour(team), false, false),
        pv(" "@, Shade::Plain, false, false),
        if e->Conversion_successful {
            pv("✓"@, Shade::Green, false, false)
        } else {
            pv("✗"@, Shade::Red, false, false)
        },
    ]
}

pub open spec fn drop_goal_line(e: EventView, team: Team) -> Seq<PieceView> {
    seq![
        minute_piece(e->DropGoal_minute),
        pv(e->DropGoal_player, Shade::TeamColour(team), false, false),
        pv(" "@, Shade::Plain, false, false),
        pv("⊡"@, Shade::Green, false, false),
    ]
}

pub open spec fn card_line(e: EventView) -> Seq<PieceView> {
    seq![
        minute_piece(e->Card_minute),
        if e->Card_card_type == CardType::Yellow {
            pv("YC "@, Shade::Yellow, true, false)
        } else {
            pv("RC "@, Shade::Red, true, false)
        },
        pv(e->Card_player, Shade::Plain, false, false),
    ]
}

/// The statistics at the top of a team panel.
pub open spec fn panel_stats(a: AppView, team: Team) -> Seq<LineView> {
    let s = a.state;
    let evs = s.events;
    let pgs = select(evs, penalty_goal_by(team));
    seq![
        blank(),
        LineView::Possession,
        stat_line("Tackles:            "@, decimal(s.tackles_of(team) as nat), team),
        stat_line(
            "Errors:             "@,
            decimal((select(evs, error_by(team)).len() as u32) as nat),
            team,
        ),
        LineView::SetCompletion,
        stat_line(
            "Penalties Against:  "@,
            decimal((select(evs, penalty_against(team)).len() as u32) as nat),
            team,
        ),
        stat_line(
            "Six Again:          "@,
            decimal((select(evs, six_again_for(team)).len() as u32) as nat),
            team,
        ),
        LineView::Pieces(
            seq![
                pv("Penalty Goals:      "@, Shade::Plain, false, false),
                pv(decimal(pgs.len()), Shade::TeamColour(team), true, false),
                pv(" ("@ + decimal(pgs.len() * 2) + "pts)"@, Shade::Plain, false, false),
            ],
        ),
    ]
}

pub open spec fn tries_section(a: AppView, team: Team) -> Seq<LineView> {
    section(
        "── TRIES ──"@,
        select(a.state.events, try_by(team)).map_values(|e: EventView| try_line(e)),
        6,
    )
}

pub open spec fn penalty_goals_section(a: AppView, team: Team) -> Seq<LineView> {
    section(
        "── PENALTY GOALS ──"@,
        select(a.state.events, penalty_goal_by(team)).map_values(
            |e: EventView| penalty_goal_line(e, team),
        ),
        4,
    )
}

pub open spec fn conversions_section(a: AppView, team: Team) -> Seq<LineView> {
    section(
        "── CONVERSIONS ──"@,
        select(a.state.events, conversion_by(team)).map_values(
            |e: EventView| conversion_line(e, team),
        ),
        4,
    )
}

pub open spec fn drop_goals_section(a: AppView, team: Team) -> Seq<LineView> {
    section(
        "── DROP GOALS ──"@,
        select(a.state.events, drop_goal_by(team)).map_values(
            |e: EventView| drop_goal_line(e, team),
        ),
        4,
    )
}

pub open spec fn cards_section(a: AppView, team: Team) -> Seq<LineView> {
    section(
        "── CARDS ──"@,
        select(a.state.events, card_for(team)).map_values(|e: EventView| card_line(e)),
        6,
    )
}

/// The stage, shown when nothing is being entered and no message is up.
pub open spec fn phase_footer(a: AppView) -> Seq<LineView> {
    if a.input_target == InputTarget::Idle && a.message is None {
        seq![
            blank(),
            LineView::Pieces(
                seq![
                    pv(
                        "Phase: "@ + phase_label(a.state.phase),
                        if a.state.phase == Phase::FullTime {
                            Shade::Red
                        } else {
                            Shade::DarkGray
                        },
                        false,
                        false,
                    ),
                ],
            ),
        ]
    } else {
        Seq::empty()
    }
}

/// The lines of a team panel: its statistics, then the lists of tries,
/// penalty goals, conversions, drop goals and cards, then the stage.
pub open spec fn panel_lines(a: AppView, team: Team) -> Seq<LineView> {
    panel_stats(a, team) + tries_section(a, team) + penalty_goals_section(a, team)
        + conversions_section(a, team) + drop_goals_section(a, team) + cards_section(a, team)
        + phase_footer(a)
}

/// The width that the team name is cut to in the panel title.
pub open spec fn title_width(a: AppView, team: Team) -> usize {
    if team == a.active_team && a.state.in_possession {
        14
    } else {
        18
    }
}

/// The panel title: a marker for the active team, its name and, while it
/// has the ball, the possession sign; yellow for the active team.
pub open spec fn panel_title(a: AppView, team: Team) -> Seq<PieceView> {
    let active = team == a.active_team;
    let name = a.state.name_of(team);
    let shown = if active && a.state.in_possession {
        truncated(name, 14) + "  ● IN POSSESSION "@
    } else {
        truncated(name, 18)
    };
    seq![
        pv(
            " "@ + (if active {
                "▸ "@
            } else {
                "  "@
            }) + " "@ + shown + " "@,
            if active {
                Shade::Yellow
            } else {
                Shade::DarkGray
            },
            true,
            false,
        ),
    ]
}

fn push_line(out: &mut Vec<PanelLine>, l: PanelLine)
    ensures
        lines_view(*final(out)) == lines_view(*old(out)).push(l@),
{
    let ghost v = l@;
    out.push(l);
    assert(lines_view(*out) =~= lines_view(*old(out)).push(v));
}

/// A line of one piece.
fn single(text: String, shade: Shade, bold: bool, dim: bool) -> (r: Vec<Piece>)
    ensures
        pieces_view(r) == seq![pv(text@, shade, bold, dim)],
{
    let mut l: Vec<Piece> = Vec::new();
    put(&mut l, text, shade, bold, dim);
    assert(pieces_view(l) =~= seq![pv(text@, shade, bold, dim)]);
    l
}

fn blank_line() -> (r: PanelLine)
    ensures
        r@ == blank(),
{
    let l: Vec<Piece> = Vec::new();
    assert(pieces_view(l) =~= Seq::<PieceView>::empty());
    PanelLine::Pieces(l)
}

/// Appends a list section; `lines` holds the entries oldest first.
fn push_section(out: &mut Vec<PanelLine>, title: &str, lines: Vec<Vec<Piece>>, k: usize)
    ensures
        lines_view(*final(out)) == lines_view(*old(out)) + section(
            title@,
            lines@.map_values(|l: Vec<Piece>| pieces_view(l)),
            k as nat,
        ),
{
    let ghost orig = lines@;
    let ghost ls = orig.map_values(|l: Vec<Piece>| pieces_view(l));
    let n = lines.len();
    if n == 0 {
        assert(lines_view(*out) =~= lines_view(*old(out)) + section(title@, ls, k as nat));
        return;
    }
    push_line(out, blank_line());
    push_line(out, PanelLine::Pieces(single(String::from_str(title), Shade::Blue, false, true)));
    let m: usize = if n < k {
        n
    } else {
        k
    };
    let mut rest = lines;
    let mut j: usize = 0;
    while j < m
        invariant
            m <= n,
            n == orig.len(),
            ls == orig.map_values(|l: Vec<Piece>| pieces_view(l)),
            j <= m,
            rest@.len() == n - j,
            forall|i: int| 0 <= i < n - j ==> rest@[i] == orig[i],
            lines_view(*out) == lines_view(*old(out)) + seq![blank(), section_header(title@)]
                + Seq::new(j as nat, |i: int| LineView::Pieces(ls[n - 1 - i])),
        decreases m - j,
    {
        let ghost before = lines_view(*out);
        let l = rest.pop().unwrap();
        assert(pieces_view(l) == ls[n - 1 - j]);
        push_line(out, PanelLine::Pieces(l));
        assert(Seq::new((j + 1) as nat, |i: int| LineView::Pieces(ls[n - 1 - i])) =~= Seq::new(
            j as nat,
            |i: int| LineView::Pieces(ls[n - 1 - i]),
        ).push(LineView::Pieces(ls[n - 1 - j])));
        j = j + 1;
    }
    if n > k {
        let mut t = String::from_str("  ... and ");
        t.append(decimal_text((n - k) as u128).as_str());
        t.append(" more");
        push_line(out, PanelLine::Pieces(single(t, Shade::DarkGray, false, false)));
        assert(lines_view(*out) =~= lines_view(*old(out)) + section(title@, ls, k as nat));
    } else {
        assert(lines_view(*out) =~= lines_view(*old(out)) + section(title@, ls, k as nat));
    }
}

fn minute_text(m: u32) -> (r: String)
    ensures
        r@ == pad2(decimal(m as nat)) + "' "@,
{
    let mut t = decimal_text2(m as u128);
    t.append("' ");
    t
}

fn try_lines(items: &Vec<&TryEvent>) -> (r: Vec<Vec<Piece>>)
    ensures
        r@.map_values(|l: Vec<Piece>| pieces_view(l)) == items@.map_values(
            |t: &TryEvent| try_line(t@),
        ),
{
    let mut r: Vec<Vec<Piece>> = Vec::new();
    let mut i: usize = 0;
    while i < items.len()
        invariant
            i <= items.len(),
            r@.map_values(|l: Vec<Piece>| pieces_view(l)) == items@.take(i as int).map_values(
                |t: &TryEvent| try_line(t@),
            ),
        decreases items.len() - i,
    {
        let t = items[i];
        let mut l: Vec<Piece> = Vec::new();
        put(&mut l, minute_text(t.minute), Shade::DarkGray, false, false);
        put(&mut l, t.player.clone(), Shade::Plain, false, false);
        assert(pieces_view(l) =~= try_line(t@));
        let ghost seen = r@.map_values(|l: Vec<Piece>| pieces_view(l));
        let ghost lv = pieces_view(l);
        r.push(l);
        assert(r@.map_values(|l: Vec<Piece>| pieces_view(l)) =~= seen.push(lv));
        assert(items@.take(i + 1).map_values(
            |t: &TryEvent| try_line(t@),
        ) =~= items@.take(i as int).map_values(
            |t: &TryEvent| try_line(t@),
        ).push(lv));
        i = i + 1;
    }
    assert(items@.take(items.len() as int) =~= items@);
    r
}

fn penalty_goal_lines(items: &Vec<&PenaltyGoalEvent>, team: Team) -> (r: Vec<Vec<Piece>>)
    ensures
        r@.map_values(|l: Vec<Piece>| pieces_view(l)) == items@.map_values(
            |p: &PenaltyGoalEvent| penalty_goal_line(p@, team),
        ),
{
    let mut r: Vec<Vec<Piece>> = Vec::new();
    let mut i: usize = 0;
    while i < items.len()
        invariant
            i <= items.len(),
            r@.map_values(|l: Vec<Piece>| pieces_view(l)) == items@.take(i as int).map_values(
                |p: &PenaltyGoalEvent| penalty_goal_line(p@, team),
            ),
        decreases items.len() - i,
    {
        let p = items[i];
        let mut l: Vec<Piece> = Vec::new();
        put(&mut l, minute_text(p.minute), Shade::DarkGray, false, false);
        put(&mut l, p.player.clone(), Shade::TeamColour(team), false, false);
        put(&mut l, String::from_str(" "), Shade::Plain, false, false);
        put(&mut l, String::from_str("●"), Shade::Green, false, false);
        assert(pieces_view(l) =~= penalty_goal_line(p@, team));
        let ghost seen = r@.map_values(|l: Vec<Piece>| pieces_view(l));
        let ghost lv = pieces_view(l);
        r.push(l);
        assert(r@.map_values(|l: Vec<Piece>| pieces_view(l)) =~= seen.push(lv));
        assert(items@.take(i + 1).map_values(
            |p: &PenaltyGoalEvent| penalty_goal_line(p@, team),
        ) =~= items@.take(i as int).map_values(
            |p: &PenaltyGoalEvent| penalty_goal_line(p@, team),
        ).push(lv));
        i = i + 1;
    }
    assert(items@.take(items.len() as int) =~= items@);
    r
}

fn conversion_lines(items: &Vec<&ConversionEvent>, team: Team) -> (r: Vec<Vec<Piece>>)
    ensures
        r@.map_values(|l: Vec<Piece>| pieces_view(l)) == items@.map_values(
            |c: &ConversionEvent| conversion_line(c@, team),
        ),
{
    let mut r: Vec<Vec<Piece>> = Vec::new();
    let mut i: usize = 0;
    while i < items.len()
        invariant
            i <= items.len(),
            r@.map_values(|l: Vec<Piece>| pieces_view(l)) == items@.take(i as int).map_values(
                |c: &ConversionEvent| conversion_line(c@, team),
            ),
        decreases items.len() - i,
    {
        let c = items[i];
        let mut l: Vec<Piece> = Vec::new();
        put(&mut l, minute_text(c.minute), Shade::DarkGray, false, false);
        put(&mut l, c.kicker.clone(), Shade::TeamColour(team), false, false);
        put(&mut l, String::from_str(" "), Shade::Plain, false, false);
        if c.successful {
            put(&mut l, String::from_str("✓"), Shade::Green, false, false);
        } else {
            put(&mut l, String::from_str("✗"), Shade::Red, false, false);
        }
        assert(pieces_view(l) =~= conversion_line(c@, team));
        let ghost seen = r@.map_values(|l: Vec<Piece>| pieces_view(l));
        let ghost lv = pieces_view(l);
        r.push(l);
        assert(r@.map_values(|l: Vec<Piece>| pieces_view(l)) =~= seen.push(lv));
        assert(items@.take(i + 1).map_values(
            |c: &ConversionEvent| conversion_line(c@, team),
        ) =~= items@.take(i as int).map_values(
            |c: &ConversionEvent| conversion_line(c@, team),
        ).push(lv));
        i = i + 1;
    }
    assert(items@.take(items.len() as int) =~= items@);
    r
}

fn drop_goal_lines(items: &Vec<&DropGoalEvent>, team: Team) -> (r: Vec<Vec<Piece>>)
    ensures
        r@.map_values(|l: Vec<Piece>| pieces_view(l)) == items@.map_values(
            |d: &DropGoalEvent| drop_goal_line(d@, team),
        ),
{
    let mut r: Vec<Vec<Piece>> = Vec::new();
    let mut i: usize = 0;
    while i < items.len()
        invariant
            i <= items.len(),
            r@.map_values(|l: Vec<Piece>| pieces_view(l)) == items@.take(i as int).map_values(
                |d: &DropGoalEvent| drop_goal_line(d@, team),
            ),
        decreases items.len() - i,
    {
        let d = items[i];
        let mut l: Vec<Piece> = Vec::new();
        put(&mut l, minute_text(d.minute), Shade::DarkGray, false, false);
        put(&mut l, d.player.clone(), Shade::TeamColour(team), false, false);
        put(&mut l, String::from_str(" "), Shade::Plain, false, false);
        put(&mut l, String::from_str("⊡"), Shade::Green, false, false);
        assert(pieces_view(l) =~= drop_goal_line(d@, team));
        let ghost seen = r@.map_values(|l: Vec<Piece>| pieces_view(l));
        let ghost lv = pieces_view(l);
        r.push(l);
        assert(r@.map_values(|l: Vec<Piece>| pieces_view(l)) =~= seen.push(lv));
        assert(items@.take(i + 1).map_values(
            |d: &DropGoalEvent| drop_goal_line(d@, team),
        ) =~= items@.take(i as int).map_values(
            |d: &DropGoalEvent| drop_goal_line(d@, team),
        ).push(lv));
        i = i + 1;
    }
    assert(items@.take(items.len() as int) =~= items@);
    r
}

fn card_lines(items: &Vec<&CardEvent>) -> (r: Vec<Vec<Piece>>)
    ensures
        r@.map_values(|l: Vec<Piece>| pieces_view(l)) == items@.map_values(
            |c: &CardEvent| card_line(c@),
        ),
{
    let mut r: Vec<Vec<Piece>> = Vec::new();
    let mut i: usize = 0;
    while i < items.len()
        invariant
            i <= items.len(),
            r@.map_values(|l: Vec<Piece>| pieces_view(l)) == items@.take(i as int).map_values(
                |c: &CardEvent| card_line(c@),
            ),
        decreases items.len() - i,
    {
        let c = items[i];
        let mut l: Vec<Piece> = Vec::new();
        put(&mut l, minute_text(c.minute), Shade::DarkGray, false, false);
        match c.card_type {
            CardType::Yellow => put(&mut l, String::from_str("YC "), Shade::Yellow, true, false),
            CardType::Red => put(&mut l, String::from_str("RC "), Shade::Red, true, false),
        }
        put(&mut l, c.player.clone(), Shade::Plain, false, false);
        assert(pieces_view(l) =~= card_line(c@));
        let ghost seen = r@.map_values(|l: Vec<Piece>| pieces_view(l));
        let ghost lv = pieces_view(l);
        r.push(l);
        assert(r@.map_values(|l: Vec<Piece>| pieces_view(l)) =~= seen.push(lv));
        assert(items@.take(i + 1).map_values(
            |c: &CardEvent| card_line(c@),
        ) =~= items@.take(i as int).map_values(
            |c: &CardEvent| card_line(c@),
        ).push(lv));
        i = i + 1;
    }
    assert(items@.take(items.len() as int) =~= items@);
    r
}

fn stat(label: &str, value: String, team: Team) -> (r: PanelLine)
    ensures
        r@ == stat_line(label@, value@, team),
{
    let mut l: Vec<Piece> = Vec::new();
    put(&mut l, String::from_str(label), Shade::Plain, false, false);
    put(&mut l, value, Shade::TeamColour(team), true, false);
    assert(pieces_view(l) =~= seq![
        pv(label@, Shade::Plain, false, false),
        pv(value@, Shade::TeamColour(team), true, false),
    ]);
    PanelLine::Pieces(l)
}

/// The title of a team's panel.
fn panel_title_pieces(app: &App, team: Team) -> (r: Vec<Piece>)
    requires
        can_truncate_text(app@.state.name_of(team), title_width(app@, team)),
    ensures
        pieces_view(r) == panel_title(app@, team),
{
    let active = team == app.active_team;
    let name = app.state.team_name(team);
    let shown = if active && app.state.in_possession {
        let mut t = truncate(name, 14);
        t.append("  ● IN POSSESSION ");
        t
    } else {
        truncate(name, 18)
    };
    let mut text = String::from_str(" ");
    if active {
        text.append("▸ ");
    } else {
        text.append("  ");
    }
    text.append(" ");
    text.append(shown.as_str());
    text.append(" ");
    let shade = if active {
        Shade::Yellow
    } else {
        Shade::DarkGray
    };
    single(text, shade, true, false)
}

/// The statistics at the top of a team's panel.
fn panel_stats_lines(app: &App, team: Team) -> (r: Vec<PanelLine>)
    ensures
        lines_view(r) == panel_stats(app@, team),
{
    let s = &app.state;
    let mut out: Vec<PanelLine> = Vec::new();
    push_line(&mut out, blank_line());
    push_line(&mut out, PanelLine::Possession);
    push_line(
        &mut out,
        stat("Tackles:            ", decimal_text(s.tackles(team) as u128), team),
    );
    push_line(&mut out, stat("Errors:             ", decimal_text(s.errors(team) as u128), team));
    push_line(&mut out, PanelLine::SetCompletion);
    push_line(
        &mut out,
        stat("Penalties Against:  ", decimal_text(s.penalties_against(team) as u128), team),
    );
    push_line(
        &mut out,
        stat("Six Again:          ", decimal_text(s.six_agains(team) as u128), team),
    );
    let pgs = s.penalty_goals(team);
    let count: u128 = pgs.len() as u128;
    let mut l: Vec<Piece> = Vec::new();
    put(&mut l, String::from_str("Penalty Goals:      "), Shade::Plain, false, false);
    put(&mut l, decimal_text(count), Shade::TeamColour(team), true, false);
    let mut pts = String::from_str(" (");
    pts.append(decimal_text(count * 2).as_str());
    pts.append("pts)");
    put(&mut l, pts, Shade::Plain, false, false);
    let ghost pg_len = select(app@.state.events, penalty_goal_by(team)).len();
    assert(pgs@.len() == pg_len) by {
        assert(pgs@.map_values(|p: &PenaltyGoalEvent| p@).len() == pgs@.len());
    }
    assert(pieces_view(l) =~= seq![
        pv("Penalty Goals:      "@, Shade::Plain, false, false),
        pv(decimal(pg_len), Shade::TeamColour(team), true, false),
        pv(" ("@ + decimal(pg_len * 2) + "pts)"@, Shade::Plain, false, false),
    ]);
    push_line(&mut out, PanelLine::Pieces(l));
    assert(lines_view(out) =~= panel_stats(app@, team));
    out
}

/// A team's panel: its title, and its lines from top to bottom.
pub fn team_panel(app: &App, team: Team) -> (r: (Vec<Piece>, Vec<PanelLine>))
    requires
        can_truncate_text(app@.state.name_of(team), title_width(app@, team)),
    ensures
        pieces_view(r.0) == panel_title(app@, team),
        lines_view(r.1) == panel_lines(app@, team),
{
    let s = &app.state;
    let ghost evs = app@.state.events;
    let title = panel_title_pieces(app, team);
    let mut out = panel_stats_lines(app, team);

    let tries = s.tries(team);
    assert(tries@.map_values(|t: &TryEvent| try_line(t@)) =~= select(evs, try_by(team)).map_values(
        |e: EventView| try_line(e),
    ));
    push_section(&mut out, "── TRIES ──", try_lines(&tries), 6);

    let pgs = s.penalty_goals(team);
    assert(pgs@.map_values(|p: &PenaltyGoalEvent| penalty_goal_line(p@, team)) =~= select(
        evs,
        penalty_goal_by(team),
    ).map_values(|e: EventView| penalty_goal_line(e, team)));
    push_section(&mut out, "── PENALTY GOALS ──", penalty_goal_lines(&pgs, team), 4);

    let convs = s.conversions(team);
    assert(convs@.map_values(|c: &ConversionEvent| conversion_line(c@, team)) =~= select(
        evs,
        conversion_by(team),
    ).map_values(|e: EventView| conversion_line(e, team)));
    push_section(&mut out, "── CONVERSIONS ──", conversion_lines(&convs, team), 4);

    let dgs = s.drop_goals(team);
    assert(dgs@.map_values(|d: &DropGoalEvent| drop_goal_line(d@, team)) =~= select(
        evs,
        drop_goal_by(team),
    ).map_values(|e: EventView| drop_goal_line(e, team)));
    push_section(&mut out, "── DROP GOALS ──", drop_goal_lines(&dgs, team), 4);

    let cards = s.cards(team);
    assert(cards@.map_values(|c: &CardEvent| card_line(c@)) =~= select(evs, card_for(team)).map_values(
        |e: EventView| card_line(e),
    ));
    push_section(&mut out, "── CARDS ──", card_lines(&cards), 6);

    if app.input_target == InputTarget::Idle && app.message.is_none() {
        push_line(&mut out, blank_line());
        let shade = if s.phase == Phase::FullTime {
            Shade::Red
        } else {
            Shade::DarkGray
        };
        push_line(
            &mut out,
            PanelLine::Pieces(single(join2("Phase: ", s.phase.label()), shade, false, false)),
        );
    }
    assert(lines_view(out) =~= panel_lines(app@, team));
    (title, out)
}

} // verus!
