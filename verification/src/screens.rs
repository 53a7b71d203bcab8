//! The decisions and the layout of the screens around a match: the opening
//! crawl, the main menu and the statistics after a lost mission.
use vstd::prelude::*;

use crate::game::{Game, GameView, HEIGHT, WIDTH};
use crate::input::Key;
use crate::render::{decimal, repeat, Color};

verus! {

/// What the player chose in the main menu.
#[derive(Clone, Copy, Debug, PartialEq, Eq, Structural)]
pub enum MenuChoice {
    Start,
    Quit,
}

/// What a key press does in the main menu.
#[derive(Clone, Copy, Debug, PartialEq, Eq, Structural)]
pub enum MenuStep {
    /// Leave the menu with this choice.
    Choose(MenuChoice),
    /// Show the help screen, then the menu again.
    Help,
    /// Ignore the key and wait for another.
    Wait,
}

/// In the main menu `s` starts a mission, `h` shows the help, `q` or Escape
/// quits; upper case works too, other keys are ignored.
pub open spec fn menu_step_for(key: Key) -> MenuStep {
    match key {
        Key::Char('s') | Key::Char('S') => MenuStep::Choose(MenuChoice::Start),
        Key::Char('h') | Key::Char('H') => MenuStep::Help,
        Key::Char('q') | Key::Char('Q') | Key::Esc => MenuStep::Choose(MenuChoice::Quit),
        _ => MenuStep::Wait,
    }
}

/// What `key` does in the main menu.
pub fn menu_step(key: Key) -> (step: MenuStep)
    ensures
        step == menu_step_for(key),
{
    match key {
        Key::Char('s') | Key::Char('S') => MenuStep::Choose(MenuChoice::Start),
        Key::Char('h') | Key::Char('H') => MenuStep::Help,
        Key::Char('q') | Key::Char('Q') | Key::Esc => MenuStep::Choose(MenuChoice::Quit),
        _ => MenuStep::Wait,
    }
}

/// Whether `key` cuts the opening crawl short: `s` or `S`.
pub fn skips_intro(key: Key) -> (skip: bool)
    ensures
        skip == (key == Key::Char('s') || key == Key::Char('S')),
{
    match key {
        Key::Char('s') | Key::Char('S') => true,
        _ => false,
    }
}

/// Column where a text of `len` columns starts when centred on the screen;
/// a text wider than the screen starts at the left edge.
pub fn centered_column(len: usize) -> (col: usize)
    ensures
        col == (if len < WIDTH {
            (WIDTH - len) / 2
        } else {
            0
        }),
{
    WIDTH.saturating_sub(len) / 2
}

/// Screen row of line `i` of the crawl when its first line is at row
/// `top`, if that row is on the screen.
pub fn crawl_row(top: i32, i: usize) -> (row: Option<usize>)
    requires
        i <= i32::MAX,
        top + i <= i32::MAX,
    ensures
        row == (if 0 <= top + i < HEIGHT {
            Some((top + i) as usize)
        } else {
            None
        }),
{
    let y = top + i as i32;
    if y >= 0 && (y as usize) < HEIGHT {
        Some(y as usize)
    } else {
        None
    }
}

/// Whether the crawl of `lines` lines whose first line is at row `top` is
/// still to be scrolled: until its last line is two rows above the screen.
pub fn crawl_goes_on(top: i32, lines: usize) -> (more: bool)
    requires
        lines <= i32::MAX,
        top + lines <= i32::MAX,
    ensures
        more == (top + lines >= -2),
{
    top + lines as i32 >= -2
}

/// Colour class of line `i` of a framed screen of `count` lines: the first
/// and the last are the frame.
pub fn is_frame_line(i: usize, count: usize) -> (frame: bool)
    requires
        count > 0,
    ensures
        frame == (i == 0 || i == count - 1),
{
    i == 0 || i == count - 1
}

/// Top row of a screen of `count` lines centred vertically; a screen taller
/// than the terminal starts at the top.
pub fn centered_top(count: usize) -> (top: usize)
    ensures
        top == (if count < HEIGHT {
            if count / 2 < HEIGHT / 2 {
                (HEIGHT / 2 - count / 2) as usize
            } else {
                0
            }
        } else {
            0
        }),
{
    if HEIGHT > count {
        (HEIGHT / 2).saturating_sub(count / 2)
    } else {
        0
    }
}

/// Lines of the mission report's heading, drawn in red; the lines after
/// them are drawn in yellow.
pub const REPORT_HEADING_LINES: usize = 6;

/// Colour of line `i` of the mission report: red for the heading, yellow
/// for the statistics and the rest.
pub fn report_line_color(i: usize) -> (c: Color)
    ensures
        c == (if i < REPORT_HEADING_LINES {
            Color::Red
        } else {
            Color::Yellow
        }),
{
    if i < REPORT_HEADING_LINES {
        Color::Red
    } else {
        Color::Yellow
    }
}

/// Left part of the statistics line with the final score.
pub const FINAL_SCORE_LABEL: &'static str = "║    Final Score:         ";
/// Left part of the statistics line with the waves completed.
pub const WAVES_LABEL: &'static str = "║    Waves Completed:     ";
/// Left part of the statistics line with the enemies destroyed.
pub const DESTROYED_LABEL: &'static str = "║    Enemies Destroyed:   ";
/// Left part of the statistics line with the best score.
pub const HIGH_SCORE_LABEL: &'static str = "║    High Score:          ";
/// Right part of every statistics line.
pub const STAT_TAIL: &'static str = "                                          ║";

/// `n` in decimal, padded with spaces on the left to at least `width`
/// columns.
pub open spec fn right_aligned(n: nat, width: nat) -> Seq<char> {
    let d = decimal(n);
    if d.len() < width {
        repeat(' ', (width - d.len()) as nat) + d
    } else {
        d
    }
}

/// A statistics line of the mission report: label, value in six columns,
/// frame.
pub open spec fn stat_line(label: Seq<char>, n: nat) -> Seq<char> {
    label + right_aligned(n, 6) + STAT_TAIL@
}

/// Waves the player saw through: all but the one that ended the mission.
pub open spec fn waves_completed(g: GameView) -> nat {
    if g.wave > 0 {
        (g.wave - 1) as nat
    } else {
        0
    }
}

/// The four statistics lines of the mission report: final score, waves
/// completed, enemies destroyed, best score.
pub open spec fn mission_stats(g: GameView) -> Seq<Seq<char>> {
    seq![
        stat_line(FINAL_SCORE_LABEL@, g.score as nat),
        stat_line(WAVES_LABEL@, waves_completed(g)),
        stat_line(DESTROYED_LABEL@, g.enemies_destroyed as nat),
        stat_line(HIGH_SCORE_LABEL@, g.high_score as nat),
    ]
}

/// A statistics line: `label`, `n` right-aligned in six columns, the frame.
fn stat_line_text(label: &str, n: u32) -> (line: Vec<char>)
    ensures
        line@ == stat_line(label@, n as nat),
{
    let mut line: Vec<char> = Vec::new();
    crate::render::push_str(&mut line, label);
    let len = crate::render::decimal_len(n);
    if len < 6 {
        crate::render::push_repeat(&mut line, ' ', 6 - len);
    }
    crate::render::push_decimal(&mut line, n);
    crate::render::push_str(&mut line, STAT_TAIL);
    assert(line@ =~= stat_line(label@, n as nat));
    line
}

/// The statistics lines of the report shown when a mission is lost.
pub fn mission_stat_lines(game: &Game) -> (lines: Vec<Vec<char>>)
    ensures
        lines@.len() == 4,
        forall|i: int| 0 <= i < 4 ==> (#[trigger] lines@[i])@ == mission_stats(game@)[i],
{
    let mut lines: Vec<Vec<char>> = Vec::new();
    lines.push(stat_line_text(FINAL_SCORE_LABEL, game.score));
    lines.push(stat_line_text(WAVES_LABEL, game.wave.saturating_sub(1)));
    lines.push(stat_line_text(DESTROYED_LABEL, game.enemies_destroyed));
    lines.push(stat_line_text(HIGH_SCORE_LABEL, game.high_score));
    lines
}

/// The best score of the session once a match with `score` points is over.
pub fn session_best(high_score: u32, score: u32) -> (best: u32)
    ensures
        best == (if score > high_score {
            score
        } else {
            high_score
        }),
{
    if score > high_score {
        score
    } else {
        high_score
    }
}

} // verus!
