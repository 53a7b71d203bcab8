//! The state of a match and the rules that move it forward: the wave of
//! enemy fighters, the player's ship, the lasers of both sides, explosions,
//! score and lives.
use vstd::prelude::*;

use crate::outside::{
    clock_now, elapsed_since, random_below, random_byte, thread_generator, whole_nanos,
};

verus! {

/// Width of the playing field, in columns.
pub const WIDTH: usize = 80;
/// Height of the playing field, in rows.
pub const HEIGHT: usize = 30;
/// Glyph of the player's ship.
pub const PLAYER_CHAR: char = '▲';
/// Glyph of an enemy fighter.
pub const ENEMY_CHAR: char = '◆';
/// Glyph of a laser shot by the player.
pub const LASER_CHAR: char = '│';
/// Glyph of a laser shot by an enemy.
pub const ENEMY_LASER_CHAR: char = '┊';
/// Minimum time between two shots of the player, in milliseconds.
pub const SHOT_COOLDOWN_MS: u128 = 200;
/// Nanoseconds in a millisecond: the match's clock counts nanoseconds.
pub const NANOS_PER_MS: u128 = 1_000_000;

/// Row in which the player's lasers appear when fired (`HEIGHT - 8`).
pub const LASER_START_ROW: usize = 22;
/// Row of the player's ship (`HEIGHT - 6`).
pub const PLAYER_ROW: usize = 24;
/// Enemy lasers leave the field when they would reach this row (`HEIGHT - 5`).
pub const ENEMY_LASER_LIMIT: usize = 25;
/// An enemy at this row or below has reached the rebel base (`HEIGHT - 7`).
pub const BOTTOM_ROW: usize = 23;
/// Points earned for each enemy destroyed.
pub const POINTS_PER_ENEMY: u32 = 10;
/// Lives at the start of a match.
pub const START_LIVES: u32 = 3;
/// Columns of the enemy formation.
pub const WAVE_COLUMNS: usize = 10;
/// How long the player is stunned after a hit, in milliseconds.
pub const HIT_STUN_MS: u128 = 500;
/// Pause between two waves, in milliseconds.
pub const WAVE_PAUSE_MS: u128 = 1000;

/// A short-lived burst drawn where a ship was destroyed.
#[derive(Clone, Copy, Debug, PartialEq, Eq, Structural)]
pub struct Explosion {
    pub x: usize,
    pub y: usize,
    /// Remaining frames; the explosion disappears when it reaches zero.
    pub lifetime: u8,
}

/// Phase of a match. Times are nanoseconds on the match's own clock.
#[derive(Clone, Copy, Debug, PartialEq, Eq, Structural)]
pub enum GameState {
    Playing,
    /// The player was hit; play resumes at `until`.
    HitStun { until: u128 },
    /// The wave was cleared; the next one arrives at `until`.
    WaveTransition { until: u128 },
    GameOver,
}

/// What the player asked for with a key press.
#[derive(Clone, Copy, Debug, PartialEq, Eq, Structural)]
pub enum PlayerAction {
    MoveLeft,
    MoveRight,
    Shoot,
    Quit,
}

/// A match in progress.
pub struct Game {
    /// Column of the player's ship.
    pub player_x: usize,
    pub player_lives: u32,
    /// Positions `(column, row)` of the enemy fighters.
    pub enemies: Vec<(usize, usize)>,
    /// Positions of the player's lasers.
    pub lasers: Vec<(usize, usize)>,
    /// Positions of the enemies' lasers.
    pub enemy_lasers: Vec<(usize, usize)>,
    pub explosions: Vec<Explosion>,
    pub score: u32,
    pub high_score: u32,
    /// Horizontal direction of the formation: `1` right, `-1` left.
    pub enemy_dir: isize,
    /// Number of frames played.
    pub tick: u64,
    /// The formation moves once every `step_interval` frames.
    pub step_interval: u32,
    pub wave: u32,
    pub enemies_destroyed: u32,
    /// Time of the last shot, in nanoseconds on the match's clock; `None`
    /// before the first shot.
    pub last_shot: Option<u128>,
    pub state: GameState,
    /// Origin of the match's clock.
    pub clock: std::time::Instant,
}

/// The mathematical content of a [`Game`]: every field but the clock.
#[verifier::ext_equal]
pub struct GameView {
    pub player_x: usize,
    pub player_lives: u32,
    pub enemies: Seq<(usize, usize)>,
    pub lasers: Seq<(usize, usize)>,
    pub enemy_lasers: Seq<(usize, usize)>,
    pub explosions: Seq<Explosion>,
    pub score: u32,
    pub high_score: u32,
    pub enemy_dir: isize,
    pub tick: u64,
    pub step_interval: u32,
    pub wave: u32,
    pub enemies_destroyed: u32,
    pub last_shot: Option<u128>,
    pub state: GameState,
}

impl View for Game {
    type V = GameView;

    open spec fn view(&self) -> GameView {
        GameView {
            player_x: self.player_x,
            player_lives: self.player_lives,
            enemies: self.enemies@,
            lasers: self.lasers@,
            enemy_lasers: self.enemy_lasers@,
            explosions: self.explosions@,
            score: self.score,
            high_score: self.high_score,
            enemy_dir: self.enemy_dir,
            tick: self.tick,
            step_interval: self.step_interval,
            wave: self.wave,
            enemies_destroyed: self.enemies_destroyed,
            last_shot: self.last_shot,
            state: self.state,
        }
    }
}

// ---------------------------------------------------------------------------
// The rules, as mathematics.
// ---------------------------------------------------------------------------

/// The time `ms` milliseconds after `now`, or the end of the clock where
/// that does not fit (some 10^22 years after the match began).
pub open spec fn later(now: u128, ms: u128) -> u128 {
    if now + ms * NANOS_PER_MS <= u128::MAX {
        (now + ms * NANOS_PER_MS) as u128
    } else {
        u128::MAX
    }
}

/// The state of a fresh match, before its first wave.
pub open spec fn initial_view() -> GameView {
    GameView {
        player_x: (WIDTH / 2) as usize,
        player_lives: START_LIVES,
        enemies: Seq::empty(),
        lasers: Seq::empty(),
        enemy_lasers: Seq::empty(),
        explosions: Seq::empty(),
        score: 0,
        high_score: 0,
        enemy_dir: 1,
        tick: 0,
        step_interval: 10,
        wave: 0,
        enemies_destroyed: 0,
        last_shot: None,
        state: GameState::Playing,
    }
}

/// Rows of enemies in wave number `wave`: five in the first wave, one more
/// in each wave after it, at most eight.
pub open spec fn rows_for_wave(wave: u32) -> usize {
    if wave <= 1 {
        5
    } else if wave >= 4 {
        8
    } else {
        (4 + wave) as usize
    }
}

/// Frames between two moves of the formation in wave number `wave`: ten in
/// the first wave, one fewer in each wave after it, never fewer than three.
pub open spec fn interval_for_wave(wave: u32) -> u32 {
    if wave <= 1 {
        10
    } else if wave >= 8 {
        3
    } else {
        (11 - wave) as u32
    }
}

/// The formation of `rows` rows of ten fighters, row by row: column
/// `7 * j + 8`, row `2 * i + 3`.
pub open spec fn formation(rows: usize) -> Seq<(usize, usize)> {
    Seq::new((rows * WAVE_COLUMNS) as nat, |k: int| formation_slot(k))
}

/// Position of fighter number `k` of a formation, counted row by row.
pub open spec fn formation_slot(k: int) -> (usize, usize) {
    ((((k % 10) * 7) + 8) as usize, (((k / 10) * 2) + 3) as usize)
}

/// The match after the next wave has been sent in.
pub open spec fn spawn_view(v: GameView) -> GameView {
    let wave = (v.wave + 1) as u32;
    GameView {
        wave,
        enemies: formation(rows_for_wave(wave)),
        step_interval: interval_for_wave(wave),
        enemy_dir: 1,
        ..v
    }
}

/// Whether a shot fired at `now` respects the cooldown after `last_shot`.
pub open spec fn cooled_down(last_shot: Option<u128>, now: u128) -> bool {
    match last_shot {
        None => true,
        Some(t) => now >= t + SHOT_COOLDOWN_MS * NANOS_PER_MS,
    }
}

/// The match after the player's `action` at time `now`, and whether the
/// match goes on (`false` only for [`PlayerAction::Quit`]).
pub open spec fn action_view(v: GameView, action: PlayerAction, now: u128) -> (GameView, bool) {
    match action {
        PlayerAction::MoveLeft => (
            if v.player_x > 2 {
                GameView { player_x: (v.player_x - 1) as usize, ..v }
            } else {
                v
            },
            true,
        ),
        PlayerAction::MoveRight => (
            if v.player_x < WIDTH - 3 {
                GameView { player_x: (v.player_x + 1) as usize, ..v }
            } else {
                v
            },
            true,
        ),
        PlayerAction::Shoot => (
            if cooled_down(v.last_shot, now) {
                GameView {
                    lasers: v.lasers.push((v.player_x, LASER_START_ROW)),
                    last_shot: Some(now),
                    ..v
                }
            } else {
                v
            },
            true,
        ),
        PlayerAction::Quit => (v, false),
    }
}

/// Explosions one frame older; those that burnt out are gone.
pub open spec fn faded(s: Seq<Explosion>) -> Seq<Explosion>
    decreases s.len(),
{
    if s.len() == 0 {
        Seq::empty()
    } else {
        let rest = faded(s.drop_last());
        let e = s.last();
        if e.lifetime >= 2 {
            rest.push(Explosion { lifetime: (e.lifetime - 1) as u8, ..e })
        } else {
            rest
        }
    }
}

/// The player's lasers one row higher; those that left the top are gone.
pub open spec fn risen(s: Seq<(usize, usize)>) -> Seq<(usize, usize)>
    decreases s.len(),
{
    if s.len() == 0 {
        Seq::empty()
    } else {
        let rest = risen(s.drop_last());
        let p = s.last();
        if p.1 >= 2 {
            rest.push((p.0, (p.1 - 1) as usize))
        } else {
            rest
        }
    }
}

/// The enemies' lasers one row lower; those that reached the ground are gone.
pub open spec fn fallen(s: Seq<(usize, usize)>) -> Seq<(usize, usize)>
    decreases s.len(),
{
    if s.len() == 0 {
        Seq::empty()
    } else {
        let rest = fallen(s.drop_last());
        let p = s.last();
        if p.1 + 1 < ENEMY_LASER_LIMIT {
            rest.push((p.0, (p.1 + 1) as usize))
        } else {
            rest
        }
    }
}

/// The enemy fighter `shooter`, if any, fires a laser just below itself.
pub open spec fn fired(v: GameView, shooter: Option<usize>) -> GameView {
    match shooter {
        Some(i) if v.enemies.len() > 0 => GameView {
            enemy_lasers: v.enemy_lasers.push(
                (v.enemies[i as int].0, (v.enemies[i as int].1 + 1) as usize),
            ),
            ..v
        },
        _ => v,
    }
}

/// Whether the enemy at column `x` stands at the edge toward which the
/// formation moves.
pub open spec fn at_edge(x: usize, dir: isize) -> bool {
    (dir < 0 && x <= 2) || (dir > 0 && x >= WIDTH - 3)
}

/// Whether some enemy of the formation stands at the edge it moves toward.
pub open spec fn formation_at_edge(s: Seq<(usize, usize)>, dir: isize) -> bool {
    exists|i: int| 0 <= i < s.len() && #[trigger] at_edge(s[i].0, dir)
}

/// Column `x` moved by `dir`, kept between column 1 and column `WIDTH - 2`.
pub open spec fn shifted(x: usize, dir: isize) -> usize {
    let c = x + dir;
    if c < 1 {
        1
    } else if c > WIDTH - 2 {
        (WIDTH - 2) as usize
    } else {
        c as usize
    }
}

/// The formation one row lower.
pub open spec fn descended(s: Seq<(usize, usize)>) -> Seq<(usize, usize)> {
    s.map_values(|p: (usize, usize)| (p.0, (p.1 + 1) as usize))
}

/// The formation one column over in direction `dir`.
pub open spec fn slid(s: Seq<(usize, usize)>, dir: isize) -> Seq<(usize, usize)> {
    s.map_values(|p: (usize, usize)| (shifted(p.0, dir), p.1))
}

/// One frame of the formation's march: every `step_interval` frames it
/// moves one column sideways, or, at an edge, one row down and turns.
pub open spec fn marched(v: GameView) -> GameView {
    let tick = (v.tick + 1) as u64;
    if (v.tick + 1) % (v.step_interval as int) != 0 {
        GameView { tick, ..v }
    } else if formation_at_edge(v.enemies, v.enemy_dir) {
        GameView { tick, enemies: descended(v.enemies), enemy_dir: (-v.enemy_dir) as isize, ..v }
    } else {
        GameView { tick, enemies: slid(v.enemies, v.enemy_dir), ..v }
    }
}

/// Whether the laser at `l` strikes the enemy at `e`: same column, and the
/// enemy in the laser's row or the row below.
pub open spec fn strikes(l: (usize, usize), e: (usize, usize)) -> bool {
    e.0 == l.0 && (e.1 == l.1 || e.1 == l.1 + 1)
}

/// Index of the first enemy of `s` that laser `l` strikes.
pub open spec fn first_struck(s: Seq<(usize, usize)>, l: (usize, usize)) -> Option<int>
    decreases s.len(),
{
    if s.len() == 0 {
        None
    } else {
        match first_struck(s.drop_last(), l) {
            Some(i) => Some(i),
            None => if strikes(l, s.last()) {
                Some(s.len() - 1)
            } else {
                None
            },
        }
    }
}

/// `s` without its element `i`, the last element taking its place.
pub open spec fn swap_removed<T>(s: Seq<T>, i: int) -> Seq<T> {
    s.update(i, s.last()).drop_last()
}

/// What a volley of lasers leaves behind.
pub struct Volley {
    /// The enemies still flying.
    pub enemies: Seq<(usize, usize)>,
    /// The lasers that struck nothing.
    pub missed: Seq<(usize, usize)>,
    /// One explosion per destroyed enemy, in the order they were destroyed.
    pub blasts: Seq<Explosion>,
}

/// The player's `lasers`, in order, each destroying the first enemy it
/// strikes.
pub open spec fn volley(enemies: Seq<(usize, usize)>, lasers: Seq<(usize, usize)>) -> Volley
    decreases lasers.len(),
{
    if lasers.len() == 0 {
        Volley { enemies, missed: Seq::empty(), blasts: Seq::empty() }
    } else {
        let before = volley(enemies, lasers.drop_last());
        let l = lasers.last();
        match first_struck(before.enemies, l) {
            Some(i) => Volley {
                enemies: swap_removed(before.enemies, i),
                missed: before.missed,
                blasts: before.blasts.push(
                    Explosion { x: before.enemies[i].0, y: before.enemies[i].1, lifetime: 8 },
                ),
            },
            None => Volley {
                enemies: before.enemies,
                missed: before.missed.push(l),
                blasts: before.blasts,
            },
        }
    }
}

/// Number of enemies the player's lasers destroy in the frame that starts
/// from `v`.
pub open spec fn frame_kills(v: GameView) -> nat {
    volley(marched(v).enemies, risen(v.lasers)).blasts.len()
}

/// The match after the player's lasers have struck.
pub open spec fn shot_down(v: GameView) -> GameView {
    let r = volley(v.enemies, v.lasers);
    GameView {
        enemies: r.enemies,
        lasers: r.missed,
        explosions: v.explosions + r.blasts,
        score: (v.score + POINTS_PER_ENEMY * r.blasts.len()) as u32,
        enemies_destroyed: (v.enemies_destroyed + r.blasts.len()) as u32,
        ..v
    }
}

/// Whether an enemy laser reaches the player's ship: in one of the two rows
/// above the ground, at most one column from the ship.
pub open spec fn player_struck(v: GameView) -> bool {
    exists|i: int| 0 <= i < v.enemy_lasers.len() && #[trigger] reaches_ship(v.enemy_lasers[i], v.player_x)
}

/// Whether the enemy laser at `l` reaches the ship at column `px`.
pub open spec fn reaches_ship(l: (usize, usize), px: usize) -> bool {
    &&& BOTTOM_ROW <= l.1 <= PLAYER_ROW
    &&& px - 1 <= l.0 <= px + 1
}

/// The match after the player's ship was hit at `now`: one life less, an
/// explosion on the ship, the enemy lasers gone, and a short stun.
pub open spec fn struck_view(v: GameView, now: u128) -> GameView {
    GameView {
        player_lives: if v.player_lives > 0 {
            (v.player_lives - 1) as u32
        } else {
            0
        },
        explosions: v.explosions.push(Explosion { x: v.player_x, y: PLAYER_ROW, lifetime: 10 }),
        enemy_lasers: Seq::empty(),
        state: GameState::HitStun { until: later(now, HIT_STUN_MS) },
        ..v
    }
}

/// Whether some enemy has reached the rebel base.
pub open spec fn base_reached(s: Seq<(usize, usize)>) -> bool {
    exists|i: int| 0 <= i < s.len() && (#[trigger] s[i]).1 >= BOTTOM_ROW
}

/// The moving parts after one frame of play, before any collision.
pub open spec fn advanced(v: GameView) -> GameView {
    GameView {
        explosions: faded(v.explosions),
        lasers: risen(v.lasers),
        enemy_lasers: fallen(v.enemy_lasers),
        ..v
    }
}

/// One frame of play at time `now`, with `shooter` the enemy that fires in
/// this frame, if any; and whether the match goes on.
pub open spec fn play_view(v: GameView, now: u128, shooter: Option<usize>) -> (GameView, bool) {
    let d = shot_down(marched(fired(advanced(v), shooter)));
    if player_struck(d) {
        (struck_view(d, now), true)
    } else if base_reached(d.enemies) {
        (d, false)
    } else if d.enemies.len() == 0 {
        (GameView { state: GameState::WaveTransition { until: later(now, WAVE_PAUSE_MS) }, ..d }, true)
    } else {
        (d, true)
    }
}

/// The enemy that fires in a frame where `count` enemies fly, the random
/// byte `roll` was drawn and, if needed, the random index `pick`: one fires
/// exactly when there are enemies and `roll` is a multiple of 40.
pub open spec fn fire_choice(roll: u8, pick: usize, count: nat) -> Option<usize> {
    if count > 0 && roll % 40 == 0 {
        Some(pick)
    } else {
        None
    }
}

/// Whether `after` and `go` are the outcome of an update of `before` at
/// time `now`, where the frame drew the byte `roll` and, when an enemy
/// fires, the index `pick` of a flying enemy.
pub open spec fn random_update(
    before: GameView,
    after: GameView,
    go: bool,
    now: u128,
    roll: u8,
    pick: usize,
) -> bool {
    &&& (before.enemies.len() > 0 && roll % 40 == 0 ==> pick < before.enemies.len())
    &&& (after, go) == update_view(before, now, fire_choice(roll, pick, before.enemies.len()))
}

/// The match after one update at time `now`, with `shooter` the enemy that
/// fires if the frame is played; and whether the match goes on.
pub open spec fn update_view(v: GameView, now: u128, shooter: Option<usize>) -> (GameView, bool) {
    match v.state {
        GameState::HitStun { until } => if now >= until {
            if v.player_lives == 0 {
                (GameView { state: GameState::GameOver, ..v }, false)
            } else {
                (GameView { state: GameState::Playing, ..v }, true)
            }
        } else {
            (v, true)
        },
        GameState::WaveTransition { until } => if now >= until {
            (GameView { state: GameState::Playing, ..spawn_view(v) }, true)
        } else {
            (v, true)
        },
        GameState::GameOver => (v, false),
        GameState::Playing => play_view(v, now, shooter),
    }
}

impl GameView {
    /// What every match keeps: the formation moves at a positive interval in
    /// one of the two directions, and its columns fit a signed machine word.
    pub open spec fn wf(self) -> bool {
        &&& self.step_interval >= 1
        &&& (self.enemy_dir == 1 || self.enemy_dir == -1)
        &&& forall|i: int| 0 <= i < self.enemies.len() ==> (#[trigger] self.enemies[i]).0 < isize::MAX
    }

    /// The counters and coordinates that a frame of play increments have
    /// room: the frame counter, every enemy row, the score and the tally of
    /// destroyed enemies.
    pub open spec fn frame_fits(self) -> bool {
        &&& self.tick < u64::MAX
        &&& forall|i: int| 0 <= i < self.enemies.len() ==> (#[trigger] self.enemies[i]).1 < usize::MAX
        &&& self.score + POINTS_PER_ENEMY * frame_kills(self) <= u32::MAX
        &&& self.enemies_destroyed + frame_kills(self) <= u32::MAX
    }

    /// A match far from every counter's limit: it keeps its invariant, at
    /// most a thousand enemies fly, and frame counter, wave, rows, score and
    /// tally of destroyed enemies are all far below their maximum.
    pub open spec fn roomy(self) -> bool {
        &&& self.wf()
        &&& forall|i: int| 0 <= i < self.enemies.len() ==> (#[trigger] self.enemies[i]).1 < usize::MAX
        &&& self.tick < u64::MAX
        &&& self.wave < u32::MAX
        &&& self.enemies.len() <= 1000
        &&& self.score <= u32::MAX - 10000
        &&& self.enemies_destroyed <= u32::MAX - 1000
    }

    /// An update at `now` increments nothing that is full.
    pub open spec fn update_fits(self, now: u128) -> bool {
        &&& self.state is Playing ==> self.frame_fits()
        &&& (self.state matches GameState::WaveTransition { until } && now >= until)
            ==> self.wave < u32::MAX
    }
}

// ---------------------------------------------------------------------------
// Lemmas on the rules.
// ---------------------------------------------------------------------------

/// A volley splits the lasers into those that missed and those that each
/// destroyed one enemy, and leaves only enemies that were there before.
pub proof fn lemma_volley_counts(enemies: Seq<(usize, usize)>, lasers: Seq<(usize, usize)>)
    ensures
        volley(enemies, lasers).missed.len() + volley(enemies, lasers).blasts.len() == lasers.len(),
        volley(enemies, lasers).enemies.len() + volley(enemies, lasers).blasts.len()
            == enemies.len(),
        forall|j: int|
            0 <= j < volley(enemies, lasers).enemies.len() ==> enemies.contains(
                #[trigger] volley(enemies, lasers).enemies[j],
            ),
    decreases lasers.len(),
{
    if lasers.len() > 0 {
        lemma_volley_counts(enemies, lasers.drop_last());
        let before = volley(enemies, lasers.drop_last());
        lemma_first_struck(before.enemies, lasers.last());
        let after = volley(enemies, lasers);
        assert forall|j: int| 0 <= j < after.enemies.len() implies enemies.contains(
            #[trigger] after.enemies[j],
        ) by {
            match first_struck(before.enemies, lasers.last()) {
                Some(i) => {
                    if j == i {
                        assert(after.enemies[j] == before.enemies[before.enemies.len() - 1]);
                    } else {
                        assert(after.enemies[j] == before.enemies[j]);
                    }
                },
                None => {},
            }
        }
    }
}

/// A frame destroys no more enemies than fly, nor more than the player's
/// lasers in flight.
pub proof fn lemma_frame_kills_bounded(v: GameView)
    ensures
        frame_kills(v) <= v.enemies.len(),
        frame_kills(v) <= v.lasers.len(),
{
    lemma_volley_counts(marched(v).enemies, risen(v.lasers));
    lemma_risen_len(v.lasers);
}

/// Rising lasers never multiply.
pub proof fn lemma_risen_len(s: Seq<(usize, usize)>)
    ensures
        risen(s).len() <= s.len(),
    decreases s.len(),
{
    if s.len() > 0 {
        lemma_risen_len(s.drop_last());
    }
}

/// `first_struck` names the first enemy that the laser strikes.
pub proof fn lemma_first_struck(s: Seq<(usize, usize)>, l: (usize, usize))
    ensures
        match first_struck(s, l) {
            Some(i) => 0 <= i < s.len() && strikes(l, s[i]) && forall|j: int|
                0 <= j < i ==> !strikes(l, #[trigger] s[j]),
            None => forall|j: int| 0 <= j < s.len() ==> !strikes(l, #[trigger] s[j]),
        },
    decreases s.len(),
{
    if s.len() > 0 {
        lemma_first_struck(s.drop_last(), l);
        assert forall|j: int| 0 <= j < s.len() - 1 implies #[trigger] s[j] == s.drop_last()[j] by {}
    }
}

/// Taking the first `i` lasers of a volley destroys no more enemies than the
/// whole volley.
pub proof fn lemma_volley_prefix(enemies: Seq<(usize, usize)>, lasers: Seq<(usize, usize)>, i: int)
    requires
        0 <= i <= lasers.len(),
    ensures
        volley(enemies, lasers.take(i)).blasts.len() <= volley(enemies, lasers).blasts.len(),
    decreases lasers.len(),
{
    if i < lasers.len() {
        assert(lasers.drop_last().take(i) =~= lasers.take(i));
        lemma_volley_prefix(enemies, lasers.drop_last(), i);
    } else {
        assert(lasers.take(i) =~= lasers);
    }
}

// ---------------------------------------------------------------------------
// The rules, as code.
// ---------------------------------------------------------------------------

/// Index of the first enemy of `enemies` that the laser at `l` strikes.
fn find_struck(enemies: &Vec<(usize, usize)>, l: (usize, usize)) -> (r: Option<usize>)
    ensures
        match r {
            Some(i) => first_struck(enemies@, l) == Some(i as int),
            None => first_struck(enemies@, l) is None,
        },
{
    let n = enemies.len();
    let mut k: usize = 0;
    while k < n
        invariant
            n == enemies.len(),
            0 <= k <= n,
            forall|j: int| 0 <= j < k ==> !strikes(l, #[trigger] enemies@[j]),
        decreases n - k,
    {
        let e = enemies[k];
        if e.0 == l.0 && (e.1 == l.1 || (l.1 < usize::MAX && e.1 == l.1 + 1)) {
            proof {
                lemma_first_struck(enemies@, l);
            }
            return Some(k);
        }
        k = k + 1;
    }
    proof {
        lemma_first_struck(enemies@, l);
    }
    None
}

/// The enemy that fires in a frame where `count` enemies fly, the random
/// byte `roll` was drawn and, if needed, the random index `pick`.
pub fn enemy_shot(roll: u8, pick: usize, count: usize) -> (shooter: Option<usize>)
    ensures
        shooter == fire_choice(roll, pick, count as nat),
{
    if count > 0 && roll % 40 == 0 {
        Some(pick)
    } else {
        None
    }
}

impl Game {
    /// A fresh match: three lives, the ship in the middle, no enemies yet.
    pub fn new() -> (g: Game)
        ensures
            g@ == initial_view(),
            g@.wf(),
    {
        Game {
            player_x: WIDTH / 2,
            player_lives: START_LIVES,
            enemies: Vec::new(),
            lasers: Vec::new(),
            enemy_lasers: Vec::new(),
            explosions: Vec::new(),
            score: 0,
            high_score: 0,
            enemy_dir: 1,
            tick: 0,
            step_interval: 10,
            wave: 0,
            enemies_destroyed: 0,
            last_shot: None,
            state: GameState::Playing,
            clock: clock_now(),
        }
    }

    /// Rows of enemies in the current wave.
    pub fn wave_rows(&self) -> (rows: usize)
        ensures
            rows == rows_for_wave(self.wave),
            5 <= rows <= 8,
    {
        if self.wave <= 1 {
            5
        } else if self.wave >= 4 {
            8
        } else {
            (4 + self.wave) as usize
        }
    }

    /// Number of enemies the current wave starts with.
    pub fn total_enemies_in_wave(&self) -> (n: usize)
        ensures
            n == rows_for_wave(self.wave) * WAVE_COLUMNS,
            50 <= n <= 80,
    {
        self.wave_rows() * WAVE_COLUMNS
    }

    /// Sends in the next wave: a fresh formation, a faster march, moving right.
    pub fn spawn_wave(&mut self)
        requires
            old(self).wave < u32::MAX,
        ensures
            final(self)@ == spawn_view(old(self)@),
            final(self).clock == old(self).clock,
            old(self)@.wf() ==> final(self)@.wf(),
    {
        self.wave = self.wave + 1;
        let rows = self.wave_rows();
        let cols = WAVE_COLUMNS;
        let mut enemies: Vec<(usize, usize)> = Vec::new();
        let mut i: usize = 0;
        while i < rows
            invariant
                rows <= 8,
                cols == 10,
                0 <= i <= rows,
                enemies@ =~= Seq::new((i * 10) as nat, |k: int| formation_slot(k)),
            decreases rows - i,
        {
            let mut j: usize = 0;
            while j < cols
                invariant
                    rows <= 8,
                    cols == 10,
                    0 <= i < rows,
                    0 <= j <= cols,
                    enemies@ =~= Seq::new((i * 10 + j) as nat, |k: int| formation_slot(k)),
                decreases cols - j,
            {
                let x = j * 7 + 8;
                let y = i * 2 + 3;
                proof {
                    assert((i * 10 + j) % 10 == j as int && (i * 10 + j) / 10 == i as int)
                        by (nonlinear_arith)
                        requires
                            j < 10,
                    ;
                }
                assert(formation_slot((i * 10 + j) as int) == (x, y));
                if x < WIDTH - 5 && y < HEIGHT - 10 {
                    enemies.push((x, y));
                }
                j = j + 1;
            }
            i = i + 1;
        }
        self.enemies = enemies;
        let slower = 10u32.saturating_sub(self.wave.saturating_sub(1));
        self.step_interval = if slower > 3 {
            slower
        } else {
            3
        };
        self.enemy_dir = 1;
        proof {
            assert forall|k: int| 0 <= k < self.enemies@.len() implies (#[trigger] self.enemies@[k]).0
                < isize::MAX by {
                assert(0 <= k % 10 < 10);
            }
        }
    }

    /// Handles the player's `action` at time `now` (nanoseconds on the
    /// match's clock); `false` when the player quits.
    pub fn handle_action_at(&mut self, action: PlayerAction, now: u128) -> (go: bool)
        ensures
            (final(self)@, go) == action_view(old(self)@, action, now),
            final(self).clock == old(self).clock,
    {
        match action {
            PlayerAction::MoveLeft => {
                if self.player_x > 2 {
                    self.player_x = self.player_x - 1;
                }
            },
            PlayerAction::MoveRight => {
                if self.player_x < WIDTH - 3 {
                    self.player_x = self.player_x + 1;
                }
            },
            PlayerAction::Shoot => self.shoot(now),
            PlayerAction::Quit => return false,
        }
        true
    }

    /// Handles the player's `action` now; `false` when the player quits.
    pub fn handle_action(&mut self, action: PlayerAction) -> (go: bool)
        ensures
            exists|now: u128| (final(self)@, go) == action_view(old(self)@, action, now),
            final(self).clock == old(self).clock,
    {
        let now = self.clock_nanos();
        self.handle_action_at(action, now)
    }

    /// Fires a laser from the ship, unless the last shot was too recent.
    fn shoot(&mut self, now: u128)
        ensures
            final(self)@ == action_view(old(self)@, PlayerAction::Shoot, now).0,
            final(self).clock == old(self).clock,
    {
        let ready = match self.last_shot {
            None => true,
            Some(t) => now >= t && now - t >= SHOT_COOLDOWN_MS * NANOS_PER_MS,
        };
        if ready && HEIGHT >= 8 {
            self.lasers.push((self.player_x, HEIGHT - 8));
            self.last_shot = Some(now);
        }
    }

    /// Plays one update at time `now`, with `shooter` the enemy that fires if
    /// a frame is played. Returns `false` when the match is over: the player
    /// has no life left after a hit, an enemy reached the base, or the match
    /// had already ended.
    pub fn update_at(&mut self, now: u128, shooter: Option<usize>) -> (go: bool)
        requires
            old(self)@.wf(),
            old(self)@.update_fits(now),
            shooter matches Some(i) ==> i < old(self).enemies.len(),
        ensures
            (final(self)@, go) == update_view(old(self)@, now, shooter),
            final(self)@.wf(),
            final(self).clock == old(self).clock,
    {
        match self.state {
            GameState::HitStun { until } => {
                if now >= until {
                    if self.player_lives == 0 {
                        self.state = GameState::GameOver;
                        return false;
                    }
                    self.state = GameState::Playing;
                }
                return true;
            },
            GameState::WaveTransition { until } => {
                if now >= until {
                    self.spawn_wave();
                    self.state = GameState::Playing;
                }
                return true;
            },
            GameState::GameOver => {
                return false;
            },
            GameState::Playing => {},
        }
        let ghost v0 = self@;
        self.update_explosions();
        self.update_player_lasers();
        self.update_enemy_lasers();
        self.enemy_fire(shooter);
        self.move_enemies();
        // The formation marched exactly as it would have before the lasers moved.
        assert(self@.enemies == marched(v0).enemies);
        proof {
            lemma_volley_counts(self.enemies@, self.lasers@);
        }
        if !self.check_player_laser_hits() {
            return false;
        }
        if !self.check_enemy_laser_hits(now) {
            return true;
        }
        if !self.check_enemies_reached_bottom() {
            return false;
        }
        if self.enemies.len() == 0 {
            self.state = GameState::WaveTransition {
                until: now.saturating_add(WAVE_PAUSE_MS * NANOS_PER_MS),
            };
        }
        true
    }

    /// Nanoseconds since the match began, by its clock.
    fn clock_nanos(&self) -> (ns: u128) {
        whole_nanos(&elapsed_since(&self.clock))
    }

    /// Plays one update now. Returns `false` when the match is over.
    /// While playing, an enemy fires when the random byte drawn for the frame
    /// is a multiple of 40; the one that fires is drawn at random among them.
    pub fn update(&mut self) -> (go: bool)
        requires
            old(self)@.wf(),
            old(self).state is Playing ==> old(self)@.frame_fits(),
            old(self).state is WaveTransition ==> old(self).wave < u32::MAX,
        ensures
            exists|now: u128, roll: u8, pick: usize|
                #[trigger] random_update(old(self)@, final(self)@, go, now, roll, pick),
            final(self)@.wf(),
            final(self).clock == old(self).clock,
    {
        let now = self.clock_nanos();
        let playing = match self.state {
            GameState::Playing => true,
            _ => false,
        };
        let count = self.enemies.len();
        let mut roll: u8 = 1;
        let mut pick: usize = 0;
        if playing && count > 0 {
            roll = random_byte();
            if roll % 40 == 0 {
                let mut rng = thread_generator();
                pick = random_below(&mut rng, count);
            }
        }
        let shooter = enemy_shot(roll, pick, count);
        let ghost before = self@;
        let go = self.update_at(now, shooter);
        assert(random_update(before, self@, go, now, roll, pick));
        go
    }

    /// Whether [`Game::update`] may be called: the match keeps its invariant,
    /// and the counters a frame or the next wave would increment have room
    /// whatever the enemies do. `true` for every match that has not been
    /// played for billions of frames.
    pub fn update_is_safe(&self) -> (safe: bool)
        ensures
            safe == self@.roomy(),
            safe ==> {
                &&& self@.wf()
                &&& self.state is Playing ==> self@.frame_fits()
                &&& self.state is WaveTransition ==> self.wave < u32::MAX
            },
    {
        if self.step_interval < 1 || !(self.enemy_dir == 1 || self.enemy_dir == -1) {
            return false;
        }
        let n = self.enemies.len();
        let mut i: usize = 0;
        while i < n
            invariant
                n == self.enemies.len(),
                0 <= i <= n,
                forall|j: int| 0 <= j < i ==> {
                    &&& (#[trigger] self.enemies@[j]).0 < isize::MAX
                    &&& self.enemies@[j].1 < usize::MAX
                },
            decreases n - i,
        {
            let (x, y) = self.enemies[i];
            if x >= isize::MAX as usize || y == usize::MAX {
                return false;
            }
            i = i + 1;
        }
        if self.tick == u64::MAX || self.wave == u32::MAX {
            return false;
        }
        if n > 1000 || self.score > u32::MAX - 10000 || self.enemies_destroyed > u32::MAX - 1000 {
            return false;
        }
        proof {
            let v = self@;
            lemma_volley_counts(marched(v).enemies, risen(v.lasers));
            assert(marched(v).enemies.len() == v.enemies.len());
        }
        true
    }

    /// Ages every explosion by one frame.
    fn update_explosions(&mut self)
        ensures
            final(self)@ == (GameView { explosions: faded(old(self)@.explosions), ..old(self)@ }),
            final(self).clock == old(self).clock,
    {
        let mut kept: Vec<Explosion> = Vec::new();
        let n = self.explosions.len();
        let mut i: usize = 0;
        while i < n
            invariant
                n == self.explosions.len(),
                0 <= i <= n,
                kept@ == faded(self.explosions@.take(i as int)),
            decreases n - i,
        {
            let e = self.explosions[i];
            proof {
                assert(self.explosions@.take(i + 1).drop_last() =~= self.explosions@.take(i as int));
            }
            if e.lifetime >= 2 {
                kept.push(Explosion { x: e.x, y: e.y, lifetime: e.lifetime - 1 });
            }
            i = i + 1;
        }
        proof {
            assert(self.explosions@.take(n as int) =~= self.explosions@);
        }
        self.explosions = kept;
    }

    /// Moves the player's lasers up one row.
    fn update_player_lasers(&mut self)
        ensures
            final(self)@ == (GameView { lasers: risen(old(self)@.lasers), ..old(self)@ }),
            final(self).clock == old(self).clock,
    {
        let mut kept: Vec<(usize, usize)> = Vec::new();
        let n = self.lasers.len();
        let mut i: usize = 0;
        while i < n
            invariant
                n == self.lasers.len(),
                0 <= i <= n,
                kept@ == risen(self.lasers@.take(i as int)),
            decreases n - i,
        {
            let (x, y) = self.lasers[i];
            proof {
                assert(self.lasers@.take(i + 1).drop_last() =~= self.lasers@.take(i as int));
            }
            if y >= 2 {
                kept.push((x, y - 1));
            }
            i = i + 1;
        }
        proof {
            assert(self.lasers@.take(n as int) =~= self.lasers@);
        }
        self.lasers = kept;
    }

    /// Moves the enemies' lasers down one row.
    fn update_enemy_lasers(&mut self)
        ensures
            final(self)@ == (GameView { enemy_lasers: fallen(old(self)@.enemy_lasers), ..old(self)@ }),
            final(self).clock == old(self).clock,
    {
        let mut kept: Vec<(usize, usize)> = Vec::new();
        let n = self.enemy_lasers.len();
        let mut i: usize = 0;
        while i < n
            invariant
                n == self.enemy_lasers.len(),
                0 <= i <= n,
                kept@ == fallen(self.enemy_lasers@.take(i as int)),
            decreases n - i,
        {
            let (x, y) = self.enemy_lasers[i];
            proof {
                assert(self.enemy_lasers@.take(i + 1).drop_last() =~= self.enemy_lasers@.take(i as int));
            }
            if y < ENEMY_LASER_LIMIT - 1 {
                kept.push((x, y + 1));
            }
            i = i + 1;
        }
        proof {
            assert(self.enemy_lasers@.take(n as int) =~= self.enemy_lasers@);
        }
        self.enemy_lasers = kept;
    }

    /// The enemy `shooter`, if any, fires a laser downward.
    fn enemy_fire(&mut self, shooter: Option<usize>)
        requires
            shooter matches Some(i) ==> i < old(self).enemies.len(),
            forall|i: int| 0 <= i < old(self).enemies.len() ==> (#[trigger] old(self).enemies@[i]).1 < usize::MAX,
        ensures
            final(self)@ == fired(old(self)@, shooter),
            final(self).clock == old(self).clock,
    {
        if let Some(i) = shooter {
            if self.enemies.len() > 0 {
                let (ex, ey) = self.enemies[i];
                self.enemy_lasers.push((ex, ey + 1));
            }
        }
    }

    /// One frame of the formation's march.
    fn move_enemies(&mut self)
        requires
            old(self)@.wf(),
            old(self).tick < u64::MAX,
            forall|i: int| 0 <= i < old(self).enemies.len() ==> (#[trigger] old(self).enemies@[i]).1 < usize::MAX,
        ensures
            final(self)@ == marched(old(self)@),
            final(self)@.wf(),
            final(self).clock == old(self).clock,
    {
        self.tick = self.tick + 1;
        if self.tick % (self.step_interval as u64) != 0 {
            return;
        }
        let dir = self.enemy_dir;
        let n = self.enemies.len();
        let mut hit_edge = false;
        let mut i: usize = 0;
        while i < n
            invariant
                n == self.enemies.len(),
                0 <= i <= n,
                hit_edge == exists|j: int| 0 <= j < i && #[trigger] at_edge(self.enemies@[j].0, dir),
            decreases n - i,
        {
            let x = self.enemies[i].0;
            if (dir < 0 && x <= 2) || (dir > 0 && x >= WIDTH - 3) {
                assert(at_edge(self.enemies@[i as int].0, dir));
                hit_edge = true;
            }
            i = i + 1;
        }
        let mut moved: Vec<(usize, usize)> = Vec::new();
        let mut k: usize = 0;
        if hit_edge {
            while k < n
                invariant
                    n == self.enemies.len(),
                    0 <= k <= n,
                    moved@.len() == k,
                    forall|i: int| 0 <= i < self.enemies.len() ==> (#[trigger] self.enemies@[i]).1 < usize::MAX,
                    forall|j: int| 0 <= j < k ==> #[trigger] moved@[j] == (self.enemies@[j].0, (self.enemies@[j].1 + 1) as usize),
                decreases n - k,
            {
                let (x, y) = self.enemies[k];
                moved.push((x, y + 1));
                k = k + 1;
            }
            assert(moved@ =~= descended(self.enemies@));
            self.enemies = moved;
            self.enemy_dir = -self.enemy_dir;
        } else {
            while k < n
                invariant
                    n == self.enemies.len(),
                    0 <= k <= n,
                    dir == 1 || dir == -1,
                    moved@.len() == k,
                    forall|i: int| 0 <= i < self.enemies.len() ==> (#[trigger] self.enemies@[i]).0 < isize::MAX,
                    forall|j: int| 0 <= j < k ==> #[trigger] moved@[j] == (shifted(self.enemies@[j].0, dir), self.enemies@[j].1),
                decreases n - k,
            {
                let (x, y) = self.enemies[k];
                let c = (x as isize) + dir;
                let c = if c < 1 {
                    1
                } else if c > (WIDTH - 2) as isize {
                    (WIDTH - 2) as isize
                } else {
                    c
                };
                moved.push((c as usize, y));
                k = k + 1;
            }
            assert(moved@ =~= slid(self.enemies@, dir));
            self.enemies = moved;
        }
    }

    /// The player's lasers strike: each destroys the first enemy it hits,
    /// for ten points and an explosion; the others fly on.
    fn check_player_laser_hits(&mut self) -> (r: bool)
        requires
            old(self).score + POINTS_PER_ENEMY * volley(old(self).enemies@, old(self).lasers@).blasts.len() <= u32::MAX,
            old(self).enemies_destroyed + volley(old(self).enemies@, old(self).lasers@).blasts.len() <= u32::MAX,
        ensures
            final(self)@ == shot_down(old(self)@),
            r,
            final(self).clock == old(self).clock,
    {
        let ghost e0 = self.enemies@;
        let ghost l0 = self.lasers@;
        let ghost x0 = self.explosions@;
        let ghost s0 = self.score;
        let ghost d0 = self.enemies_destroyed;
        let mut lasers: Vec<(usize, usize)> = Vec::new();
        std::mem::swap(&mut lasers, &mut self.lasers);
        let mut enemies: Vec<(usize, usize)> = Vec::new();
        std::mem::swap(&mut enemies, &mut self.enemies);
        let mut explosions: Vec<Explosion> = Vec::new();
        std::mem::swap(&mut explosions, &mut self.explosions);
        let mut score = self.score;
        let mut destroyed = self.enemies_destroyed;
        let mut kept: Vec<(usize, usize)> = Vec::new();
        proof {
            assert(l0.take(0) =~= Seq::<(usize, usize)>::empty());
            assert(x0 + Seq::<Explosion>::empty() =~= x0);
        }
        let n = lasers.len();
        let mut i: usize = 0;
        while i < n
            invariant
                n == lasers.len(),
                lasers@ == l0,
                0 <= i <= n,
                enemies@ == volley(e0, l0.take(i as int)).enemies,
                kept@ == volley(e0, l0.take(i as int)).missed,
                explosions@ == x0 + volley(e0, l0.take(i as int)).blasts,
                score == s0 + POINTS_PER_ENEMY * volley(e0, l0.take(i as int)).blasts.len(),
                destroyed == d0 + volley(e0, l0.take(i as int)).blasts.len(),
                s0 + POINTS_PER_ENEMY * volley(e0, l0).blasts.len() <= u32::MAX,
                d0 + volley(e0, l0).blasts.len() <= u32::MAX,
            decreases n - i,
        {
            let l = lasers[i];
            proof {
                assert(l0.take(i + 1).drop_last() =~= l0.take(i as int));
                lemma_volley_prefix(e0, l0, i + 1);
                lemma_first_struck(enemies@, l);
            }
            match find_struck(&enemies, l) {
                Some(idx) => {
                    let (ex, ey) = enemies[idx];
                    enemies.swap_remove(idx);
                    score = score + POINTS_PER_ENEMY;
                    destroyed = destroyed + 1;
                    explosions.push(Explosion { x: ex, y: ey, lifetime: 8 });
                    proof {
                        let prev = volley(e0, l0.take(i as int));
                        assert(explosions@ =~= x0 + prev.blasts.push(
                            Explosion { x: ex, y: ey, lifetime: 8 },
                        ));
                    }
                },
                None => {
                    kept.push(l);
                },
            }
            i = i + 1;
        }
        proof {
            assert(l0.take(n as int) =~= l0);
        }
        self.lasers = kept;
        self.enemies = enemies;
        self.explosions = explosions;
        self.score = score;
        self.enemies_destroyed = destroyed;
        true
    }

    /// Whether the player's ship survives the enemy lasers: on a hit it loses
    /// a life, explodes, the enemy lasers vanish and it is stunned; then the
    /// result is `false`.
    fn check_enemy_laser_hits(&mut self, now: u128) -> (r: bool)
        ensures
            r == !player_struck(old(self)@),
            final(self)@ == if r {
                old(self)@
            } else {
                struck_view(old(self)@, now)
            },
            final(self).clock == old(self).clock,
    {
        if HEIGHT < 7 {
            return true;
        }
        let px = self.player_x;
        let n = self.enemy_lasers.len();
        let mut hit = false;
        let mut i: usize = 0;
        while i < n
            invariant
                n == self.enemy_lasers.len(),
                px == self.player_x,
                0 <= i <= n,
                hit == exists|j: int| 0 <= j < i && #[trigger] reaches_ship(self.enemy_lasers@[j], px),
            decreases n - i,
        {
            let (lx, ly) = self.enemy_lasers[i];
            if ly >= HEIGHT - 7 && ly <= HEIGHT - 6 && lx >= px.saturating_sub(1) && lx
                <= px.saturating_add(1) {
                assert(reaches_ship(self.enemy_lasers@[i as int], px));
                hit = true;
            }
            i = i + 1;
        }
        proof {
            if hit {
                let j = choose|j: int| 0 <= j < i && #[trigger] reaches_ship(self.enemy_lasers@[j], px);
                assert(reaches_ship(old(self)@.enemy_lasers[j], old(self)@.player_x));
            }
        }
        if hit {
            self.player_lives = self.player_lives.saturating_sub(1);
            if HEIGHT >= 6 {
                self.explosions.push(Explosion { x: px, y: HEIGHT - 6, lifetime: 10 });
            }
            self.enemy_lasers.clear();
            self.state = GameState::HitStun { until: now.saturating_add(HIT_STUN_MS * NANOS_PER_MS) };
            return false;
        }
        true
    }

    /// Whether no enemy has reached the rebel base.
    fn check_enemies_reached_bottom(&self) -> (r: bool)
        ensures
            r == !base_reached(self.enemies@),
    {
        let n = self.enemies.len();
        let mut i: usize = 0;
        while i < n
            invariant
                n == self.enemies.len(),
                0 <= i <= n,
                forall|j: int| 0 <= j < i ==> (#[trigger] self.enemies@[j]).1 < BOTTOM_ROW,
            decreases n - i,
        {
            if HEIGHT >= 7 && self.enemies[i].1 >= HEIGHT - 7 {
                return false;
            }
            i = i + 1;
        }
        true
    }
}

} // verus!
