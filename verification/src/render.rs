//! What a frame of the match looks like: the grid of coloured cells, and the
//! text with ANSI colour codes that draws the title bar, the field and the
//! status panel.
use vstd::prelude::*;

use crate::game::{
    rows_for_wave, Explosion, Game, GameView, ENEMY_CHAR, ENEMY_LASER_CHAR, HEIGHT, LASER_CHAR,
    PLAYER_CHAR, PLAYER_ROW, START_LIVES, WAVE_COLUMNS, WIDTH,
};

verus! {

/// The terminal colours the game uses; `Reset` is the terminal's default.
#[derive(Clone, Copy, Debug, PartialEq, Eq, Structural)]
pub enum Color {
    Reset,
    Red,
    Green,
    Yellow,
    Blue,
    Magenta,
    Cyan,
    White,
    DarkGreen,
    DarkGrey,
}

/// Glyph of a frame of the field's border.
pub const BORDER_CHAR: char = '═';
/// Row of the field's lower border (`HEIGHT - 4`).
pub const GROUND_ROW: usize = 26;
/// Width of the progress bar of the status panel (`WIDTH - 20`).
pub const BAR_WIDTH: usize = 60;

/// The title in the frame's top bar.
pub const TITLE: &'static str = "★ STAR WARS: TERMINAL ASSAULT ★";

// ---------------------------------------------------------------------------
// The field.
// ---------------------------------------------------------------------------

/// Lifetime of the last explosion of `s` at column `x`, row `y`.
pub open spec fn explosion_at(s: Seq<Explosion>, x: usize, y: usize) -> Option<u8>
    decreases s.len(),
{
    if s.len() == 0 {
        None
    } else if s.last().x == x && s.last().y == y {
        Some(s.last().lifetime)
    } else {
        explosion_at(s.drop_last(), x, y)
    }
}

/// Glyph of an explosion with `lifetime` frames left: it dims as it burns out.
pub open spec fn blast_glyph(lifetime: u8) -> char {
    if 6 <= lifetime <= 7 {
        '*'
    } else if 4 <= lifetime <= 5 {
        '+'
    } else if 2 <= lifetime <= 3 {
        '·'
    } else {
        ' '
    }
}

/// Whether some position of `s` is column `x`, row `y`.
pub open spec fn occupied(s: Seq<(usize, usize)>, x: usize, y: usize) -> bool {
    exists|i: int| 0 <= i < s.len() && #[trigger] s[i] == (x, y)
}

/// The cell of the ship and its wings at column `x`, row `y`, if any.
pub open spec fn ship_cell(px: usize, x: usize, y: usize) -> Option<(char, Color)> {
    if 1 <= px < WIDTH - 1 {
        if y == PLAYER_ROW && x == px {
            Some((PLAYER_CHAR, Color::Green))
        } else if y == PLAYER_ROW - 1 && x == px - 1 {
            Some(('◀', Color::DarkGreen))
        } else if y == PLAYER_ROW - 1 && x == px + 1 {
            Some(('▶', Color::DarkGreen))
        } else {
            None
        }
    } else {
        None
    }
}

/// The cell at column `x`, row `y` of the field: explosions over enemy
/// lasers over the player's lasers over enemies over the ship over the
/// border rows; sprites only above the ground row, lasers never in the top
/// border row.
pub open spec fn screen_cell(g: GameView, x: usize, y: usize) -> (char, Color) {
    if y < GROUND_ROW && explosion_at(g.explosions, x, y) is Some {
        (blast_glyph(explosion_at(g.explosions, x, y)->0), Color::Yellow)
    } else if 0 < y < GROUND_ROW && occupied(g.enemy_lasers, x, y) {
        (ENEMY_LASER_CHAR, Color::Red)
    } else if 0 < y < GROUND_ROW && occupied(g.lasers, x, y) {
        (LASER_CHAR, Color::Cyan)
    } else if y < GROUND_ROW && occupied(g.enemies, x, y) {
        (ENEMY_CHAR, Color::Red)
    } else if ship_cell(g.player_x, x, y) is Some {
        ship_cell(g.player_x, x, y)->0
    } else if y == 0 || y == GROUND_ROW {
        (BORDER_CHAR, Color::DarkGrey)
    } else {
        (' ', Color::Reset)
    }
}

/// The field, row by row.
pub open spec fn screen(g: GameView) -> Seq<Seq<(char, Color)>> {
    Seq::new(HEIGHT as nat, |y: int| Seq::new(WIDTH as nat, |x: int| screen_cell(g, x as usize, y as usize)))
}

// ---------------------------------------------------------------------------
// Text.
// ---------------------------------------------------------------------------

/// `n` copies of `c`.
pub open spec fn repeat(c: char, n: nat) -> Seq<char> {
    Seq::new(n, |i: int| c)
}

/// The decimal digit `d`.
pub open spec fn digit(d: nat) -> char {
    if d == 0 {
        '0'
    } else if d == 1 {
        '1'
    } else if d == 2 {
        '2'
    } else if d == 3 {
        '3'
    } else if d == 4 {
        '4'
    } else if d == 5 {
        '5'
    } else if d == 6 {
        '6'
    } else if d == 7 {
        '7'
    } else if d == 8 {
        '8'
    } else {
        '9'
    }
}

/// `n` in decimal, without leading zeros.
pub open spec fn decimal(n: nat) -> Seq<char>
    decreases n,
{
    if n < 10 {
        seq![digit(n)]
    } else {
        decimal(n / 10).push(digit(n % 10))
    }
}

/// `n` in decimal, padded with zeros on the left to at least `width` digits.
pub open spec fn zero_padded(n: nat, width: nat) -> Seq<char> {
    let d = decimal(n);
    if d.len() < width {
        repeat('0', (width - d.len()) as nat) + d
    } else {
        d
    }
}

/// `s` centred in `width` columns; where the padding is odd, the extra
/// space goes to the right.
pub open spec fn centered(s: Seq<char>, width: nat) -> Seq<char> {
    if s.len() < width {
        let pad = (width - s.len()) as nat;
        repeat(' ', pad / 2) + s + repeat(' ', (pad - pad / 2) as nat)
    } else {
        s
    }
}

/// The ANSI code of a colour, between `ESC [` and `m`.
pub open spec fn ansi_code(c: Color) -> Seq<char> {
    match c {
        Color::Reset => seq!['0'],
        Color::Red => seq!['3', '1'],
        Color::Green => seq!['3', '2'],
        Color::Yellow => seq!['3', '3'],
        Color::Blue => seq!['3', '4'],
        Color::Magenta => seq!['3', '5'],
        Color::Cyan => seq!['3', '6'],
        Color::White => seq!['3', '7'],
        Color::DarkGreen => seq!['3', '2', ';', '2'],
        Color::DarkGrey => seq!['9', '0'],
    }
}

/// What switching from colour `last` to colour `c` writes: nothing if they
/// are the same, else the escape sequence of `c`.
pub open spec fn paint(last: Color, c: Color) -> Seq<char> {
    if last == c {
        Seq::empty()
    } else {
        seq!['\x1b', '['] + ansi_code(c) + seq!['m']
    }
}

/// The text of a row of cells drawn after colour `last`, and the colour in
/// force after it: a coloured cell is drawn in its colour and followed by a
/// reset; a plain cell is drawn after a reset when a colour is in force.
pub open spec fn cells_text(cells: Seq<(char, Color)>, last: Color) -> (Seq<char>, Color)
    decreases cells.len(),
{
    if cells.len() == 0 {
        (Seq::empty(), last)
    } else {
        let (t, l) = cells_text(cells.drop_last(), last);
        (t + cell_text(cells.last(), l), Color::Reset)
    }
}

/// The text of one cell drawn after colour `last`.
pub open spec fn cell_text(cell: (char, Color), last: Color) -> Seq<char> {
    let (ch, c) = cell;
    if c != Color::Reset {
        paint(last, c) + seq![ch] + paint(c, Color::Reset)
    } else {
        paint(last, Color::Reset) + seq![ch]
    }
}

/// The text of the rows of the field drawn after colour `last`, each row
/// ending a line, and the colour in force after them.
pub open spec fn rows_text(rows: Seq<Seq<(char, Color)>>, last: Color) -> (Seq<char>, Color)
    decreases rows.len(),
{
    if rows.len() == 0 {
        (Seq::empty(), last)
    } else {
        let (t, l) = rows_text(rows.drop_last(), last);
        let (u, l2) = cells_text(rows.last(), l);
        (t + u + seq!['\r', '\n'], l2)
    }
}

/// The end of a line.
pub open spec fn newline() -> Seq<char> {
    seq!['\r', '\n']
}

/// The title bar: a box across the frame with the title centred in it.
pub open spec fn title_bar() -> Seq<char> {
    paint(Color::Reset, Color::Cyan) + seq!['╔'] + repeat(BORDER_CHAR, (WIDTH - 2) as nat) + seq!['╗']
        + newline() + seq!['║'] + paint(Color::Cyan, Color::Yellow) + centered(
        TITLE@,
        (WIDTH - 2) as nat,
    ) + paint(Color::Yellow, Color::Cyan) + seq!['║'] + newline() + seq!['╚'] + repeat(
        BORDER_CHAR,
        (WIDTH - 2) as nat,
    ) + seq!['╝'] + newline()
}

/// Enemies of the current wave destroyed so far, as the panel counts them.
pub open spec fn wave_progress(g: GameView) -> nat {
    let total = rows_for_wave(g.wave) * WAVE_COLUMNS;
    if g.enemies.len() < total {
        (total - g.enemies.len()) as nat
    } else {
        0
    }
}

/// Filled cells of the progress bar: the share of the wave destroyed.
pub open spec fn bar_filled(g: GameView) -> nat {
    let total = rows_for_wave(g.wave) * WAVE_COLUMNS;
    if total > 0 {
        (wave_progress(g) * BAR_WIDTH / total) as nat
    } else {
        0
    }
}

/// The rule that opens the status panel, drawn after colour `last`.
pub open spec fn hud_rule(last: Color) -> Seq<char> {
    paint(last, Color::DarkGrey) + repeat(BORDER_CHAR, WIDTH as nat) + newline()
}

/// Lives left and lost, score, wave and best score, after the rule.
pub open spec fn hud_stats(g: GameView) -> Seq<char> {
    hud_lives(g) + hud_numbers(g)
}

/// A full block per life left and a light one per life lost.
pub open spec fn hud_lives(g: GameView) -> Seq<char> {
    let lost = if g.player_lives < START_LIVES {
        (START_LIVES - g.player_lives) as nat
    } else {
        0
    };
    paint(Color::DarkGrey, Color::Green) + "♥ Lives: "@ + repeat('█', g.player_lives as nat) + paint(
        Color::Green,
        Color::DarkGrey,
    ) + repeat('░', lost)
}

/// Score, wave and best score, each in its colour, ending the line.
pub open spec fn hud_numbers(g: GameView) -> Seq<char> {
    paint(Color::DarkGrey, Color::Yellow) + "  │  Score: "@ + zero_padded(g.score as nat, 6) + paint(
        Color::Yellow,
        Color::Magenta,
    ) + "  │  Wave: "@ + zero_padded(g.wave as nat, 2) + paint(Color::Magenta, Color::Cyan)
        + "  │  High: "@ + zero_padded(g.high_score as nat, 6) + newline()
}

/// The wave's progress bar and tally, after the statistics.
pub open spec fn hud_progress(g: GameView) -> Seq<char> {
    let total = rows_for_wave(g.wave) * WAVE_COLUMNS;
    let empty = if bar_filled(g) < BAR_WIDTH {
        (BAR_WIDTH - bar_filled(g)) as nat
    } else {
        0
    };
    paint(Color::Cyan, Color::DarkGrey) + "Enemies: ["@ + paint(Color::DarkGrey, Color::Red) + repeat(
        '█',
        bar_filled(g),
    ) + paint(Color::Red, Color::DarkGrey) + repeat('░', empty) + seq![']', ' '] + decimal(
        wave_progress(g),
    ) + seq!['/'] + decimal(total as nat)
}

/// The status panel drawn after colour `last`: a rule, then lives, score,
/// wave and best score, then the wave's progress bar and tally.
pub open spec fn hud_text(g: GameView, last: Color) -> Seq<char> {
    hud_rule(last) + hud_stats(g) + hud_progress(g)
}

/// The whole frame: title bar, field and status panel, ending with the
/// terminal's default colour.
pub open spec fn frame_text(g: GameView) -> Seq<char> {
    let (field, last) = rows_text(screen(g), Color::Cyan);
    title_bar() + field + hud_text(g, last) + paint(Color::DarkGrey, Color::Reset)
}

// ---------------------------------------------------------------------------
// Code.
// ---------------------------------------------------------------------------

/// Appends the characters of `s`.
pub fn push_str(buf: &mut Vec<char>, s: &str)
    ensures
        final(buf)@ == old(buf)@ + s@,
{
    let n = s.unicode_len();
    let ghost start = buf@;
    let mut i: usize = 0;
    while i < n
        invariant
            n == s@.len(),
            0 <= i <= n,
            buf@ == start + s@.take(i as int),
        decreases n - i,
    {
        buf.push(s.get_char(i));
        proof {
            assert(s@.take(i + 1) =~= s@.take(i as int).push(s@[i as int]));
        }
        i = i + 1;
    }
    proof {
        assert(s@.take(n as int) =~= s@);
    }
}

/// Appends `n` copies of `c`.
pub fn push_repeat(buf: &mut Vec<char>, c: char, n: usize)
    ensures
        final(buf)@ == old(buf)@ + repeat(c, n as nat),
{
    let ghost start = buf@;
    let mut i: usize = 0;
    while i < n
        invariant
            0 <= i <= n,
            buf@ =~= start + repeat(c, i as nat),
        decreases n - i,
    {
        buf.push(c);
        i = i + 1;
    }
}

/// The decimal digit `d`.
fn digit_char(d: u32) -> (c: char)
    requires
        d < 10,
    ensures
        c == digit(d as nat),
{
    if d == 0 {
        '0'
    } else if d == 1 {
        '1'
    } else if d == 2 {
        '2'
    } else if d == 3 {
        '3'
    } else if d == 4 {
        '4'
    } else if d == 5 {
        '5'
    } else if d == 6 {
        '6'
    } else if d == 7 {
        '7'
    } else if d == 8 {
        '8'
    } else {
        '9'
    }
}

/// Appends `n` in decimal.
pub fn push_decimal(buf: &mut Vec<char>, n: u32)
    ensures
        final(buf)@ == old(buf)@ + decimal(n as nat),
    decreases n,
{
    if n >= 10 {
        push_decimal(buf, n / 10);
    }
    buf.push(digit_char(n % 10));
    proof {
        if n < 10 {
            assert(n % 10 == n);
        }
    }
}

/// Number of decimal digits of `n`.
pub fn decimal_len(n: u32) -> (len: usize)
    ensures
        len == decimal(n as nat).len(),
        len <= n as nat + 1,
    decreases n,
{
    if n >= 10 {
        decimal_len(n / 10) + 1
    } else {
        1
    }
}

/// Appends `n` in decimal, zero-padded to `width` digits.
pub fn push_padded(buf: &mut Vec<char>, n: u32, width: usize)
    ensures
        final(buf)@ == old(buf)@ + zero_padded(n as nat, width as nat),
{
    let len = decimal_len(n);
    let ghost start = buf@;
    if len < width {
        push_repeat(buf, '0', width - len);
    }
    push_decimal(buf, n);
    proof {
        if len < width {
            assert(buf@ =~= start + zero_padded(n as nat, width as nat));
        } else {
            assert(buf@ =~= start + zero_padded(n as nat, width as nat));
        }
    }
}

/// Switches to colour `color`, writing its escape sequence unless it is
/// already in force.
pub fn push_color(buf: &mut Vec<char>, color: Color, last: &mut Color)
    ensures
        final(buf)@ == old(buf)@ + paint(*old(last), color),
        *final(last) == color,
{
    if *last == color {
        return;
    }
    *last = color;
    if color == Color::Reset {
        buf.push('\x1b');
        buf.push('[');
        buf.push('0');
        buf.push('m');
        return;
    }
    buf.push('\x1b');
    buf.push('[');
    match color {
        Color::Red => {
            buf.push('3');
            buf.push('1');
        },
        Color::Green => {
            buf.push('3');
            buf.push('2');
        },
        Color::Yellow => {
            buf.push('3');
            buf.push('3');
        },
        Color::Blue => {
            buf.push('3');
            buf.push('4');
        },
        Color::Magenta => {
            buf.push('3');
            buf.push('5');
        },
        Color::Cyan => {
            buf.push('3');
            buf.push('6');
        },
        Color::White => {
            buf.push('3');
            buf.push('7');
        },
        Color::DarkGreen => {
            buf.push('3');
            buf.push('2');
            buf.push(';');
            buf.push('2');
        },
        Color::DarkGrey => {
            buf.push('9');
            buf.push('0');
        },
        Color::Reset => {
            buf.push('0');
        },
    }
    buf.push('m');
    proof {
        assert(buf@ =~= old(buf)@ + paint(*old(last), color));
    }
}

/// The cell at column `x`, row `y` of the field.
pub fn cell_at(game: &Game, x: usize, y: usize) -> (cell: (char, Color))
    ensures
        cell == screen_cell(game@, x, y),
{
    // The last explosion drawn at this cell, if any.
    let mut blast: Option<u8> = None;
    let n = game.explosions.len();
    let mut i: usize = 0;
    while i < n
        invariant
            n == game.explosions.len(),
            0 <= i <= n,
            blast == explosion_at(game.explosions@.take(i as int), x, y),
        decreases n - i,
    {
        let e = game.explosions[i];
        proof {
            assert(game.explosions@.take(i + 1).drop_last() =~= game.explosions@.take(i as int));
        }
        if e.x == x && e.y == y {
            blast = Some(e.lifetime);
        }
        i = i + 1;
    }
    proof {
        assert(game.explosions@.take(n as int) =~= game.explosions@);
    }
    if y < GROUND_ROW {
        if let Some(lifetime) = blast {
            let ch = if 6 <= lifetime && lifetime <= 7 {
                '*'
            } else if 4 <= lifetime && lifetime <= 5 {
                '+'
            } else if 2 <= lifetime && lifetime <= 3 {
                '·'
            } else {
                ' '
            };
            return (ch, Color::Yellow);
        }
    }
    if 0 < y && y < GROUND_ROW && contains_position(&game.enemy_lasers, x, y) {
        return (ENEMY_LASER_CHAR, Color::Red);
    }
    if 0 < y && y < GROUND_ROW && contains_position(&game.lasers, x, y) {
        return (LASER_CHAR, Color::Cyan);
    }
    if y < GROUND_ROW && contains_position(&game.enemies, x, y) {
        return (ENEMY_CHAR, Color::Red);
    }
    let px = game.player_x;
    if 1 <= px && px < WIDTH - 1 {
        if y == PLAYER_ROW && x == px {
            return (PLAYER_CHAR, Color::Green);
        }
        if y == PLAYER_ROW - 1 && x == px - 1 {
            return ('◀', Color::DarkGreen);
        }
        if y == PLAYER_ROW - 1 && x == px + 1 {
            return ('▶', Color::DarkGreen);
        }
    }
    if y == 0 || y == GROUND_ROW {
        return (BORDER_CHAR, Color::DarkGrey);
    }
    (' ', Color::Reset)
}

/// Whether some position of `s` is column `x`, row `y`.
fn contains_position(s: &Vec<(usize, usize)>, x: usize, y: usize) -> (found: bool)
    ensures
        found == occupied(s@, x, y),
{
    let n = s.len();
    let mut i: usize = 0;
    while i < n
        invariant
            n == s.len(),
            0 <= i <= n,
            forall|j: int| 0 <= j < i ==> #[trigger] s@[j] != (x, y),
        decreases n - i,
    {
        if s[i].0 == x && s[i].1 == y {
            assert(s@[i as int] == (x, y));
            return true;
        }
        i = i + 1;
    }
    false
}

/// The field of the match, row by row: `HEIGHT` rows of `WIDTH` cells.
pub fn draw_screen(game: &Game) -> (rows: Vec<Vec<(char, Color)>>)
    ensures
        rows@.len() == HEIGHT,
        forall|y: int| 0 <= y < HEIGHT ==> (#[trigger] rows@[y])@ == screen(game@)[y],
{
    let mut rows: Vec<Vec<(char, Color)>> = Vec::new();
    let mut y: usize = 0;
    while y < HEIGHT
        invariant
            0 <= y <= HEIGHT,
            rows@.len() == y,
            forall|k: int| 0 <= k < y ==> (#[trigger] rows@[k])@ == screen(game@)[k],
        decreases HEIGHT - y,
    {
        let mut row: Vec<(char, Color)> = Vec::new();
        let mut x: usize = 0;
        while x < WIDTH
            invariant
                0 <= x <= WIDTH,
                0 <= y < HEIGHT,
                row@.len() == x,
                forall|k: int| 0 <= k < x ==> #[trigger] row@[k] == screen_cell(game@, k as usize, y),
            decreases WIDTH - x,
        {
            row.push(cell_at(game, x, y));
            x = x + 1;
        }
        assert(row@ =~= screen(game@)[y as int]);
        rows.push(row);
        y = y + 1;
    }
    rows
}

/// Appends `s` centred in `width` columns.
pub fn push_centered(buf: &mut Vec<char>, s: &str, width: usize)
    ensures
        final(buf)@ == old(buf)@ + centered(s@, width as nat),
{
    let len = s.unicode_len();
    let ghost start = buf@;
    if len < width {
        let pad = width - len;
        push_repeat(buf, ' ', pad / 2);
        push_str(buf, s);
        push_repeat(buf, ' ', pad - pad / 2);
        assert(buf@ =~= start + centered(s@, width as nat));
    } else {
        push_str(buf, s);
    }
}

/// Appends the end of a line.
fn push_newline(buf: &mut Vec<char>)
    ensures
        final(buf)@ == old(buf)@ + newline(),
{
    buf.push('\r');
    buf.push('\n');
    assert(buf@ =~= old(buf)@ + newline());
}

/// Appends the status panel, starting from colour `last`: lives, score,
/// wave and best score, then how much of the wave has been destroyed.
pub fn draw_hud(buf: &mut Vec<char>, game: &Game, last: &mut Color)
    ensures
        final(buf)@ == old(buf)@ + hud_text(game@, *old(last)),
        *final(last) == Color::DarkGrey,
{
    let ghost start = buf@;
    let ghost l0 = *last;
    push_color(buf, Color::DarkGrey, last);
    push_repeat(buf, BORDER_CHAR, WIDTH);
    push_newline(buf);
    assert(buf@ =~= start + hud_rule(l0));
    push_stats(buf, game, last);
    push_progress(buf, game, last);
    assert(buf@ =~= start + hud_text(game@, l0));
}

/// Appends lives, score, wave and best score.
fn push_stats(buf: &mut Vec<char>, game: &Game, last: &mut Color)
    requires
        *old(last) == Color::DarkGrey,
    ensures
        final(buf)@ == old(buf)@ + hud_stats(game@),
        *final(last) == Color::Cyan,
{
    let ghost start = buf@;
    push_lives(buf, game, last);
    push_numbers(buf, game, last);
    assert(buf@ =~= start + hud_stats(game@));
}

/// Appends the lives left and lost.
fn push_lives(buf: &mut Vec<char>, game: &Game, last: &mut Color)
    requires
        *old(last) == Color::DarkGrey,
    ensures
        final(buf)@ == old(buf)@ + hud_lives(game@),
        *final(last) == Color::DarkGrey,
{
    let ghost start = buf@;
    push_color(buf, Color::Green, last);
    push_str(buf, "♥ Lives: ");
    push_repeat(buf, '█', game.player_lives as usize);
    push_color(buf, Color::DarkGrey, last);
    let lost = if game.player_lives < START_LIVES {
        START_LIVES - game.player_lives
    } else {
        0
    };
    push_repeat(buf, '░', lost as usize);
    assert(buf@ =~= start + hud_lives(game@));
}

/// Appends score, wave and best score.
fn push_numbers(buf: &mut Vec<char>, game: &Game, last: &mut Color)
    requires
        *old(last) == Color::DarkGrey,
    ensures
        final(buf)@ == old(buf)@ + hud_numbers(game@),
        *final(last) == Color::Cyan,
{
    let ghost start = buf@;
    push_color(buf, Color::Yellow, last);
    push_str(buf, "  │  Score: ");
    push_padded(buf, game.score, 6);
    push_color(buf, Color::Magenta, last);
    push_str(buf, "  │  Wave: ");
    push_padded(buf, game.wave, 2);
    push_color(buf, Color::Cyan, last);
    push_str(buf, "  │  High: ");
    push_padded(buf, game.high_score, 6);
    push_newline(buf);
    assert(buf@ =~= start + hud_numbers(game@));
}

/// Appends the wave's progress bar and tally.
fn push_progress(buf: &mut Vec<char>, game: &Game, last: &mut Color)
    requires
        *old(last) == Color::Cyan,
    ensures
        final(buf)@ == old(buf)@ + hud_progress(game@),
        *final(last) == Color::DarkGrey,
{
    let ghost start = buf@;
    let total = game.total_enemies_in_wave();
    let remaining = game.enemies.len();
    let bar_width = WIDTH - 20;
    let destroyed = total.saturating_sub(remaining);
    let filled = if total > 0 {
        (destroyed * bar_width) / total
    } else {
        0
    };
    assert(destroyed == wave_progress(game@));
    assert(filled == bar_filled(game@));
    push_color(buf, Color::DarkGrey, last);
    push_str(buf, "Enemies: [");
    push_color(buf, Color::Red, last);
    push_repeat(buf, '█', filled);
    push_color(buf, Color::DarkGrey, last);
    push_repeat(buf, '░', bar_width.saturating_sub(filled));
    buf.push(']');
    buf.push(' ');
    push_decimal(buf, destroyed as u32);
    buf.push('/');
    push_decimal(buf, total as u32);
    assert(buf@ =~= start + hud_progress(game@));
}

/// Appends one cell, starting from colour `last`.
fn push_cell(buf: &mut Vec<char>, cell: (char, Color), last: &mut Color)
    ensures
        final(buf)@ == old(buf)@ + cell_text(cell, *old(last)),
        *final(last) == Color::Reset,
{
    let (ch, color) = cell;
    let ghost start = buf@;
    let ghost l0 = *last;
    if color != Color::Reset {
        push_color(buf, color, last);
        buf.push(ch);
        push_color(buf, Color::Reset, last);
    } else {
        if *last != Color::Reset {
            push_color(buf, Color::Reset, last);
        }
        buf.push(ch);
    }
    assert(buf@ =~= start + cell_text(cell, l0));
}

/// Appends a row of cells, starting from colour `last`.
fn push_row(buf: &mut Vec<char>, row: &Vec<(char, Color)>, last: &mut Color)
    ensures
        final(buf)@ == old(buf)@ + cells_text(row@, *old(last)).0,
        *final(last) == cells_text(row@, *old(last)).1,
{
    let ghost start = buf@;
    let ghost l0 = *last;
    let n = row.len();
    let mut c: usize = 0;
    while c < n
        invariant
            n == row@.len(),
            0 <= c <= n,
            buf@ == start + cells_text(row@.take(c as int), l0).0,
            *last == cells_text(row@.take(c as int), l0).1,
        decreases n - c,
    {
        proof {
            assert(row@.take(c + 1).drop_last() =~= row@.take(c as int));
        }
        push_cell(buf, row[c], last);
        proof {
            assert(buf@ =~= start + cells_text(row@.take(c + 1), l0).0);
        }
        c = c + 1;
    }
    proof {
        assert(row@.take(n as int) =~= row@);
    }
}

/// The text of a whole frame: title bar, field and status panel, with the
/// colour escape sequences of the terminal.
pub fn compose_frame(game: &Game) -> (text: Vec<char>)
    ensures
        text@ == frame_text(game@),
{
    let mut buf: Vec<char> = Vec::new();
    let mut last = Color::Reset;

    push_color(&mut buf, Color::Cyan, &mut last);
    buf.push('╔');
    push_repeat(&mut buf, BORDER_CHAR, WIDTH - 2);
    buf.push('╗');
    push_newline(&mut buf);
    buf.push('║');
    push_color(&mut buf, Color::Yellow, &mut last);
    push_centered(&mut buf, TITLE, WIDTH - 2);
    push_color(&mut buf, Color::Cyan, &mut last);
    buf.push('║');
    push_newline(&mut buf);
    buf.push('╚');
    push_repeat(&mut buf, BORDER_CHAR, WIDTH - 2);
    buf.push('╝');
    push_newline(&mut buf);
    assert(buf@ =~= title_bar());

    let ghost head = buf@;
    let ghost field = screen(game@);
    let screen_rows = draw_screen(game);
    let mut r: usize = 0;
    while r < HEIGHT
        invariant
            0 <= r <= HEIGHT,
            screen_rows@.len() == HEIGHT,
            field == screen(game@),
            forall|y: int| 0 <= y < HEIGHT ==> (#[trigger] screen_rows@[y])@ == field[y],
            buf@ == head + rows_text(field.take(r as int), Color::Cyan).0,
            last == rows_text(field.take(r as int), Color::Cyan).1,
        decreases HEIGHT - r,
    {
        let row = &screen_rows[r];
        assert(row@ == field[r as int]);
        push_row(&mut buf, row, &mut last);
        push_newline(&mut buf);
        proof {
            assert(field.take(r + 1).drop_last() =~= field.take(r as int));
            assert(field.take(r + 1).last() == field[r as int]);
            assert(buf@ =~= head + rows_text(field.take(r + 1), Color::Cyan).0);
        }
        r = r + 1;
    }
    proof {
        assert(field.take(HEIGHT as int) =~= field);
    }
    draw_hud(&mut buf, game, &mut last);
    push_color(&mut buf, Color::Reset, &mut last);
    proof {
        assert(buf@ =~= frame_text(game@));
    }
    buf
}

} // verus!
