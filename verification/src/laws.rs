//! What holds of every match, whatever the player does and whenever the
//! enemies fire.
use vstd::prelude::*;

use crate::game::{
    action_view, advanced, at_edge, base_reached, faded, fallen, first_struck, lemma_first_struck,
    reaches_ship, strikes, volley, Explosion, cooled_down, fired, formation_at_edge, interval_for_wave,
    later, lemma_volley_counts, marched, player_struck, risen, rows_for_wave, shifted, shot_down,
    spawn_view, update_view, GameState, GameView, PlayerAction, BOTTOM_ROW, HIT_STUN_MS,
    LASER_START_ROW,
    POINTS_PER_ENEMY, WAVE_COLUMNS, WAVE_PAUSE_MS, WIDTH,
};

verus! {

/// The shot-down step of a frame played from `v` with `shooter` firing, and
/// what it is built from.
proof fn lemma_frame_parts(v: GameView, shooter: Option<usize>)
    ensures
        marched(fired(advanced(v), shooter)).enemies == marched(v).enemies,
        marched(fired(advanced(v), shooter)).lasers == risen(v.lasers),
        marched(fired(advanced(v), shooter)).score == v.score,
        marched(fired(advanced(v), shooter)).enemies_destroyed == v.enemies_destroyed,
        marched(fired(advanced(v), shooter)).player_lives == v.player_lives,
        marched(fired(advanced(v), shooter)).player_x == v.player_x,
        marched(fired(advanced(v), shooter)).high_score == v.high_score,
        marched(v).enemies.len() == v.enemies.len(),
{
    let a = fired(advanced(v), shooter);
    assert(a.tick == v.tick && a.step_interval == v.step_interval && a.enemy_dir == v.enemy_dir
        && a.enemies == v.enemies);
}

/// Each enemy destroyed is worth exactly ten points: across an update the
/// score grows by ten times the number of enemies destroyed, and the tally of
/// destroyed enemies never falls.
pub proof fn law_ten_points_per_enemy(v: GameView, now: u128, shooter: Option<usize>)
    requires
        v.update_fits(now),
    ensures
        update_view(v, now, shooter).0.enemies_destroyed >= v.enemies_destroyed,
        update_view(v, now, shooter).0.score == v.score + POINTS_PER_ENEMY * (
        update_view(v, now, shooter).0.enemies_destroyed - v.enemies_destroyed),
{
    if v.state is Playing {
        lemma_frame_parts(v, shooter);
    }
}

/// The score is the tally of kills at ten points each: a match whose score
/// is ten times the enemies destroyed keeps it so through every update and
/// every action of the player.
pub proof fn law_score_tracks_kills(v: GameView, now: u128, shooter: Option<usize>, action: PlayerAction)
    requires
        v.update_fits(now),
        v.score == POINTS_PER_ENEMY * v.enemies_destroyed,
    ensures
        update_view(v, now, shooter).0.score == POINTS_PER_ENEMY * update_view(
            v,
            now,
            shooter,
        ).0.enemies_destroyed,
        action_view(v, action, now).0.score == POINTS_PER_ENEMY * action_view(
            v,
            action,
            now,
        ).0.enemies_destroyed,
{
    law_ten_points_per_enemy(v, now, shooter);
}

/// The score never falls: neither an update nor an action of the player
/// lowers it.
pub proof fn law_score_never_falls(v: GameView, now: u128, shooter: Option<usize>, action: PlayerAction)
    requires
        v.update_fits(now),
    ensures
        update_view(v, now, shooter).0.score >= v.score,
        action_view(v, action, now).0.score == v.score,
{
    law_ten_points_per_enemy(v, now, shooter);
}

/// An enemy destroyed leaves the formation: in a frame of play the formation
/// shrinks by exactly the number of enemies destroyed.
pub proof fn law_destroyed_enemies_leave(v: GameView, now: u128, shooter: Option<usize>)
    requires
        v.state is Playing,
        v.frame_fits(),
    ensures
        update_view(v, now, shooter).0.enemies.len() + (update_view(v, now, shooter).0.enemies_destroyed
            - v.enemies_destroyed) == v.enemies.len(),
{
    lemma_frame_parts(v, shooter);
    let c = marched(fired(advanced(v), shooter));
    lemma_volley_counts(c.enemies, c.lasers);
}

/// Lives are only lost, one at a time: an update takes at most one life and
/// never gives one back, and the player's actions do not touch them.
pub proof fn law_lives_only_fall(v: GameView, now: u128, shooter: Option<usize>, action: PlayerAction)
    ensures
        update_view(v, now, shooter).0.player_lives <= v.player_lives,
        v.player_lives <= update_view(v, now, shooter).0.player_lives + 1,
        action_view(v, action, now).0.player_lives == v.player_lives,
{
    if v.state is Playing {
        lemma_frame_parts(v, shooter);
    }
}

/// A hit by an enemy laser costs a life: when, in a frame of play, an enemy
/// laser reaches the ship, the player loses one life (none below zero), the
/// enemy lasers vanish, the ship is stunned for half a second, and the match
/// goes on until the stun is over.
pub proof fn law_hit_costs_a_life(v: GameView, now: u128, shooter: Option<usize>)
    requires
        v.state is Playing,
        player_struck(shot_down(marched(fired(advanced(v), shooter)))),
    ensures
        update_view(v, now, shooter).1,
        update_view(v, now, shooter).0.player_lives == if v.player_lives > 0 {
            v.player_lives - 1
        } else {
            0
        },
        update_view(v, now, shooter).0.enemy_lasers.len() == 0,
        update_view(v, now, shooter).0.state == (GameState::HitStun { until: later(now, HIT_STUN_MS) }),
{
    lemma_frame_parts(v, shooter);
}

/// The match ends only for a reason: it was already over, the stun after a
/// hit ran out with no life left, or, in a frame of play that did not hit
/// the ship, an enemy reached the rebel base.
pub proof fn law_match_ends_only_for_a_reason(v: GameView, now: u128, shooter: Option<usize>)
    requires
        !update_view(v, now, shooter).1,
    ensures
        v.state is GameOver || (v.state matches GameState::HitStun { until } && now >= until
            && v.player_lives == 0) || (v.state is Playing && base_reached(
            update_view(v, now, shooter).0.enemies,
        )),
{
}

/// Once over, a match stays over: an update changes nothing and reports
/// the end again.
pub proof fn law_game_over_is_final(v: GameView, now: u128, shooter: Option<usize>)
    requires
        v.state is GameOver,
    ensures
        update_view(v, now, shooter) == (v, false),
{
}

/// After a hit with no life left, the match ends as soon as the stun is over.
pub proof fn law_last_life_ends_the_match(v: GameView, now: u128, shooter: Option<usize>)
    requires
        v.state matches GameState::HitStun { until } && now >= until,
        v.player_lives == 0,
    ensures
        update_view(v, now, shooter) == (GameView { state: GameState::GameOver, ..v }, false),
{
}

/// A cleared wave brings the next one: when a frame of play destroys the
/// last enemy without the ship being hit, the match pauses for a second, and
/// the first update after the pause sends in the next, larger-or-equal wave.
pub proof fn law_cleared_wave_brings_the_next(v: GameView, now: u128, shooter: Option<usize>, later_now: u128)
    requires
        v.state is Playing,
        update_view(v, now, shooter).0.enemies.len() == 0,
        !player_struck(shot_down(marched(fired(advanced(v), shooter)))),
        later_now >= later(now, WAVE_PAUSE_MS),
        v.wave < u32::MAX,
    ensures
        update_view(v, now, shooter).1,
        update_view(v, now, shooter).0.state == (GameState::WaveTransition {
            until: later(now, WAVE_PAUSE_MS),
        }),
        update_view(update_view(v, now, shooter).0, later_now, None).1,
        update_view(update_view(v, now, shooter).0, later_now, None).0.state is Playing,
        update_view(update_view(v, now, shooter).0, later_now, None).0.wave == v.wave + 1,
        update_view(update_view(v, now, shooter).0, later_now, None).0.enemies.len() == rows_for_wave(
            (v.wave + 1) as u32,
        ) * WAVE_COLUMNS,
{
    lemma_frame_parts(v, shooter);
    let d = shot_down(marched(fired(advanced(v), shooter)));
    assert(!base_reached(d.enemies));
}

/// No wave is smaller or slower than an earlier one: five to eight rows of
/// ten fighters, the formation moving every ten frames at first and never
/// faster than every three.
pub proof fn law_waves_grow_harder(w1: u32, w2: u32)
    requires
        w1 <= w2,
    ensures
        5 <= rows_for_wave(w1) <= rows_for_wave(w2) <= 8,
        3 <= interval_for_wave(w2) <= interval_for_wave(w1) <= 10,
{
}

/// Every wave after the first brings more fighters and a faster march than
/// the one before, until the field is full (eight rows) and the march at
/// its fastest (every three frames): one more row and one frame less per
/// wave.
pub proof fn law_each_wave_adds_enemies_and_speed(w: u32)
    requires
        1 <= w < u32::MAX,
    ensures
        rows_for_wave((w + 1) as u32) == if rows_for_wave(w) < 8 {
            rows_for_wave(w) + 1
        } else {
            8
        },
        interval_for_wave((w + 1) as u32) == if interval_for_wave(w) > 3 {
            interval_for_wave(w) - 1
        } else {
            3
        },
        rows_for_wave(w) < 8 ==> rows_for_wave((w + 1) as u32) * WAVE_COLUMNS > rows_for_wave(w)
            * WAVE_COLUMNS,
        interval_for_wave(w) > 3 ==> interval_for_wave((w + 1) as u32) < interval_for_wave(w),
{
}

/// A new wave is a full formation inside the field: as many fighters as the
/// wave announces, all between columns 8 and 71 and rows 3 and 17, moving
/// right.
pub proof fn law_new_wave_is_full(v: GameView)
    requires
        v.wave < u32::MAX,
    ensures
        spawn_view(v).enemies.len() == rows_for_wave(spawn_view(v).wave) * WAVE_COLUMNS,
        forall|i: int|
            0 <= i < spawn_view(v).enemies.len() ==> {
                let e = #[trigger] spawn_view(v).enemies[i];
                &&& 8 <= e.0 <= 71
                &&& 3 <= e.1 <= 17
            },
        spawn_view(v).enemy_dir == 1,
{
    assert forall|i: int| 0 <= i < spawn_view(v).enemies.len() implies {
        let e = #[trigger] spawn_view(v).enemies[i];
        &&& 8 <= e.0 <= 71
        &&& 3 <= e.1 <= 17
    } by {
        let rows = rows_for_wave(spawn_view(v).wave);
        assert(0 <= i % 10 < 10);
        assert(i / 10 < rows) by (nonlinear_arith)
            requires
                0 <= i < rows * 10,
        ;
    }
}

/// The ship stays in its lane: the player's actions keep it between columns
/// 2 and `WIDTH - 3` once it is there, and updates never move it.
pub proof fn law_ship_stays_in_lane(v: GameView, action: PlayerAction, now: u128, shooter: Option<usize>)
    requires
        2 <= v.player_x <= WIDTH - 3,
    ensures
        2 <= action_view(v, action, now).0.player_x <= WIDTH - 3,
        update_view(v, now, shooter).0.player_x == v.player_x,
{
    if v.state is Playing {
        lemma_frame_parts(v, shooter);
    }
}

/// The cannons cool down: a shot leaves the ship only if the previous one
/// is at least `SHOT_COOLDOWN_MS` milliseconds old, and only the Shoot
/// action fires.
pub proof fn law_shots_are_spaced(v: GameView, action: PlayerAction, now: u128)
    ensures
        action_view(v, action, now).0.lasers.len() > v.lasers.len() ==> action == PlayerAction::Shoot
            && cooled_down(v.last_shot, now) && action_view(v, action, now).0.lasers.last() == (
        v.player_x, LASER_START_ROW),
        action_view(v, action, now).0.lasers.len() <= v.lasers.len() + 1,
{
}

/// Only quitting ends the match from the keyboard.
pub proof fn law_only_quit_stops(v: GameView, action: PlayerAction, now: u128)
    ensures
        !action_view(v, action, now).1 <==> action == PlayerAction::Quit,
        action == PlayerAction::Quit ==> action_view(v, action, now).0 == v,
{
}

/// The session's best score is the caller's to keep: no update and no
/// action of the player changes it.
pub proof fn law_high_score_untouched(v: GameView, action: PlayerAction, now: u128, shooter: Option<usize>)
    ensures
        update_view(v, now, shooter).0.high_score == v.high_score,
        action_view(v, action, now).0.high_score == v.high_score,
{
    if v.state is Playing {
        lemma_frame_parts(v, shooter);
    }
}

/// The formation marches as in Space Invaders: on a frame when it moves,
/// either every fighter steps one column in the current direction, or, when
/// one of them is at the edge it moves toward, every fighter drops one row
/// and the direction turns.
pub proof fn law_formation_marches(v: GameView)
    requires
        v.wf(),
        v.tick < u64::MAX,
        (v.tick + 1) % (v.step_interval as int) == 0,
    ensures
        marched(v).enemies.len() == v.enemies.len(),
        formation_at_edge(v.enemies, v.enemy_dir) ==> {
            &&& marched(v).enemy_dir == -v.enemy_dir
            &&& forall|i: int|
                0 <= i < v.enemies.len() ==> #[trigger] marched(v).enemies[i] == (
                v.enemies[i].0,
                (v.enemies[i].1 + 1) as usize,
            )
        },
        !formation_at_edge(v.enemies, v.enemy_dir) ==> {
            &&& marched(v).enemy_dir == v.enemy_dir
            &&& forall|i: int|
                0 <= i < v.enemies.len() ==> #[trigger] marched(v).enemies[i] == (
                shifted(v.enemies[i].0, v.enemy_dir),
                v.enemies[i].1,
            )
        },
{
}

/// Between two moves the formation rests: on other frames only the frame
/// counter changes.
pub proof fn law_formation_rests_between_moves(v: GameView)
    requires
        v.tick < u64::MAX,
        (v.tick + 1) % (v.step_interval as int) != 0,
    ensures
        marched(v) == (GameView { tick: (v.tick + 1) as u64, ..v }),
{
}

/// Whether every fighter of `s` flies between columns 1 and `WIDTH - 2`.
pub open spec fn columns_on_field(s: Seq<(usize, usize)>) -> bool {
    forall|i: int| 0 <= i < s.len() ==> 1 <= (#[trigger] s[i]).0 <= WIDTH - 2
}

/// A frame's march keeps every fighter between columns 1 and `WIDTH - 2`,
/// and keeps the formation's direction one of the two.
proof fn lemma_march_keeps_columns(v: GameView)
    requires
        v.wf(),
        columns_on_field(v.enemies),
        v.tick < u64::MAX,
    ensures
        columns_on_field(marched(v).enemies),
        marched(v).wf(),
{
    let m = marched(v);
    assert forall|i: int| 0 <= i < m.enemies.len() implies 1 <= (#[trigger] m.enemies[i]).0 <= WIDTH
        - 2 && m.enemies[i].0 < isize::MAX by {
        assert(m.enemies.len() == v.enemies.len());
        assert(1 <= v.enemies[i].0 <= WIDTH - 2);
    }
}

/// The fighters stay on the field: once every fighter flies between
/// columns 1 and `WIDTH - 2`, every update keeps them there.
pub proof fn law_fighters_stay_on_the_field(v: GameView, now: u128, shooter: Option<usize>)
    requires
        v.wf(),
        v.update_fits(now),
        columns_on_field(v.enemies),
    ensures
        columns_on_field(update_view(v, now, shooter).0.enemies),
{
    if v.state is Playing {
        lemma_frame_parts(v, shooter);
        let c = marched(fired(advanced(v), shooter));
        lemma_march_keeps_columns(v);
        lemma_volley_counts(c.enemies, c.lasers);
        let d = shot_down(c);
        assert forall|i: int| 0 <= i < d.enemies.len() implies 1 <= (#[trigger] d.enemies[i]).0
            <= WIDTH - 2 by {
            assert(c.enemies.contains(d.enemies[i]));
        }
    } else if let GameState::WaveTransition { until } = v.state {
        if now >= until {
            law_new_wave_is_full(v);
        }
    }
}

/// Every update keeps the match's invariant, and so does every action of
/// the player.
pub proof fn law_invariant_kept(v: GameView, now: u128, shooter: Option<usize>, action: PlayerAction)
    requires
        v.wf(),
        v.update_fits(now),
    ensures
        update_view(v, now, shooter).0.wf(),
        action_view(v, action, now).0.wf(),
{
    if v.state is Playing {
        lemma_frame_parts(v, shooter);
        let c = marched(fired(advanced(v), shooter));
        let m = marched(v);
        assert forall|i: int| 0 <= i < m.enemies.len() implies (#[trigger] m.enemies[i]).0
            < isize::MAX by {
            assert(m.enemies.len() == v.enemies.len());
        }
        lemma_volley_counts(c.enemies, c.lasers);
        let d = shot_down(c);
        assert forall|i: int| 0 <= i < d.enemies.len() implies (#[trigger] d.enemies[i]).0
            < isize::MAX by {
            assert(c.enemies.contains(d.enemies[i]));
        }
    } else if let GameState::WaveTransition { until } = v.state {
        if now >= until {
            law_new_wave_is_full(v);
        }
    }
}

/// Marching left, away from the right edge: on a frame when the formation
/// moves to the left and every fighter is at column 3 or more, every
/// fighter steps exactly one column left, keeps its row, and the formation
/// keeps moving left. A fighter at the right edge does not make it drop.
pub proof fn law_march_left_steps_one_column(v: GameView)
    requires
        v.tick < u64::MAX,
        v.step_interval >= 1,
        (v.tick + 1) % (v.step_interval as int) == 0,
        v.enemy_dir == -1,
        forall|i: int| 0 <= i < v.enemies.len() ==> 3 <= (#[trigger] v.enemies[i]).0 <= WIDTH - 2,
    ensures
        marched(v).enemy_dir == -1,
        marched(v).enemies.len() == v.enemies.len(),
        forall|i: int|
            0 <= i < v.enemies.len() ==> #[trigger] marched(v).enemies[i] == (
            (v.enemies[i].0 - 1) as usize,
            v.enemies[i].1,
        ),
{
    assert(!formation_at_edge(v.enemies, v.enemy_dir));
}

/// Marching right, away from the left edge: on a frame when the formation
/// moves to the right and every fighter is at column `WIDTH - 4` or less,
/// every fighter steps exactly one column right, keeps its row, and the
/// formation keeps moving right. A fighter at the left edge does not make
/// it drop.
pub proof fn law_march_right_steps_one_column(v: GameView)
    requires
        v.tick < u64::MAX,
        v.step_interval >= 1,
        (v.tick + 1) % (v.step_interval as int) == 0,
        v.enemy_dir == 1,
        forall|i: int| 0 <= i < v.enemies.len() ==> 1 <= (#[trigger] v.enemies[i]).0 <= WIDTH - 4,
    ensures
        marched(v).enemy_dir == 1,
        marched(v).enemies.len() == v.enemies.len(),
        forall|i: int|
            0 <= i < v.enemies.len() ==> #[trigger] marched(v).enemies[i] == (
            (v.enemies[i].0 + 1) as usize,
            v.enemies[i].1,
        ),
{
    assert(!formation_at_edge(v.enemies, v.enemy_dir));
}

/// Dropping at the edge ahead: on a frame when the formation moves, if it
/// moves left and some fighter is at column 2 or less, or it moves right
/// and some fighter is at column `WIDTH - 3` or more, every fighter drops
/// exactly one row, keeps its column, and the formation turns around.
pub proof fn law_formation_drops_at_the_edge_ahead(v: GameView, k: int)
    requires
        v.tick < u64::MAX,
        v.step_interval >= 1,
        (v.tick + 1) % (v.step_interval as int) == 0,
        v.enemy_dir == -1 || v.enemy_dir == 1,
        0 <= k < v.enemies.len(),
        (v.enemy_dir == -1 && v.enemies[k].0 <= 2) || (v.enemy_dir == 1 && v.enemies[k].0 >= WIDTH
            - 3),
    ensures
        marched(v).enemy_dir == -v.enemy_dir,
        marched(v).enemies.len() == v.enemies.len(),
        forall|i: int|
            0 <= i < v.enemies.len() ==> #[trigger] marched(v).enemies[i] == (
            v.enemies[i].0,
            (v.enemies[i].1 + 1) as usize,
        ),
{
    assert(at_edge(v.enemies[k].0, v.enemy_dir));
}

/// One fighter at the base is enough: in a frame of play that does not hit
/// the ship, the match ends as soon as any one fighter stands at row
/// `BOTTOM_ROW` or below, wherever the others are.
pub proof fn law_one_fighter_at_the_base_ends_the_match(
    v: GameView,
    now: u128,
    shooter: Option<usize>,
    k: int,
)
    requires
        v.state is Playing,
        !player_struck(shot_down(marched(fired(advanced(v), shooter)))),
        0 <= k < shot_down(marched(fired(advanced(v), shooter))).enemies.len(),
        shot_down(marched(fired(advanced(v), shooter))).enemies[k].1 >= BOTTOM_ROW,
    ensures
        !update_view(v, now, shooter).1,
{
    let d = shot_down(marched(fired(advanced(v), shooter)));
    assert(d.enemies[k].1 >= BOTTOM_ROW);
}

/// The match goes on while no fighter has reached the base: in a frame of
/// play that does not hit the ship and leaves every fighter above row
/// `BOTTOM_ROW`, the match continues.
pub proof fn law_match_goes_on_above_the_base(v: GameView, now: u128, shooter: Option<usize>)
    requires
        v.state is Playing,
        forall|i: int|
            0 <= i < shot_down(marched(fired(advanced(v), shooter))).enemies.len() ==> (
            #[trigger] shot_down(marched(fired(advanced(v), shooter))).enemies[i]).1 < BOTTOM_ROW,
    ensures
        update_view(v, now, shooter).1,
{
}

/// Whether any fighter of `s` is at row `BOTTOM_ROW` or below is exactly
/// what `base_reached` tells.
pub proof fn law_base_reached_by_any_fighter(s: Seq<(usize, usize)>)
    ensures
        base_reached(s) <==> exists|i: int| 0 <= i < s.len() && #[trigger] s[i].1 >= 23,
{
}

/// A shot whose cooldown is over always fires: with no earlier shot, or at
/// least 200 ms (200 000 000 ns) after the last one, the Shoot action adds a
/// laser at the ship's column in row `LASER_START_ROW`, behind the lasers
/// already in flight, however many there are, and records the time.
pub proof fn law_a_cooled_shot_always_fires(v: GameView, now: u128)
    requires
        v.last_shot is None || now >= v.last_shot->0 + 200_000_000,
    ensures
        action_view(v, PlayerAction::Shoot, now).1,
        action_view(v, PlayerAction::Shoot, now).0 == (GameView {
            lasers: v.lasers.push((v.player_x, 22)),
            last_shot: Some(now),
            ..v
        }),
{
}

/// A shot within the cooldown never fires: less than 200 ms
/// (200 000 000 ns) after the last shot, the Shoot action changes nothing.
pub proof fn law_a_hot_shot_never_fires(v: GameView, now: u128)
    requires
        v.last_shot is Some,
        now < v.last_shot->0 + 200_000_000,
    ensures
        action_view(v, PlayerAction::Shoot, now) == (v, true),
{
}

/// The player's lasers climb one row a frame: when every laser is at row 2
/// or below it on screen (row number at least 2), each moves up exactly one
/// row in its column, and none is lost or added.
pub proof fn law_lasers_climb_one_row(s: Seq<(usize, usize)>)
    requires
        forall|i: int| 0 <= i < s.len() ==> (#[trigger] s[i]).1 >= 2,
    ensures
        risen(s).len() == s.len(),
        forall|i: int| 0 <= i < s.len() ==> #[trigger] risen(s)[i] == (s[i].0, (s[i].1 - 1) as usize),
    decreases s.len(),
{
    if s.len() > 0 {
        law_lasers_climb_one_row(s.drop_last());
        assert forall|i: int| 0 <= i < s.len() - 1 implies #[trigger] s.drop_last()[i] == s[i] by {}
    }
}

/// The player's lasers leave at the top: lasers in rows 0 and 1 are gone
/// after a frame.
pub proof fn law_lasers_leave_at_the_top(s: Seq<(usize, usize)>)
    requires
        forall|i: int| 0 <= i < s.len() ==> (#[trigger] s[i]).1 <= 1,
    ensures
        risen(s).len() == 0,
    decreases s.len(),
{
    if s.len() > 0 {
        law_lasers_leave_at_the_top(s.drop_last());
    }
}

/// Enemy lasers fall one row a frame: above row 24 each moves down exactly
/// one row in its column, and none is lost or added.
pub proof fn law_enemy_lasers_fall_one_row(s: Seq<(usize, usize)>)
    requires
        forall|i: int| 0 <= i < s.len() ==> (#[trigger] s[i]).1 < 24,
    ensures
        fallen(s).len() == s.len(),
        forall|i: int| 0 <= i < s.len() ==> #[trigger] fallen(s)[i] == (s[i].0, (s[i].1 + 1) as usize),
    decreases s.len(),
{
    if s.len() > 0 {
        law_enemy_lasers_fall_one_row(s.drop_last());
        assert forall|i: int| 0 <= i < s.len() - 1 implies #[trigger] s.drop_last()[i] == s[i] by {}
    }
}

/// Enemy lasers end at the ground: those at row 24 or below are gone after
/// a frame.
pub proof fn law_enemy_lasers_end_at_the_ground(s: Seq<(usize, usize)>)
    requires
        forall|i: int| 0 <= i < s.len() ==> (#[trigger] s[i]).1 >= 24,
    ensures
        fallen(s).len() == 0,
    decreases s.len(),
{
    if s.len() > 0 {
        law_enemy_lasers_end_at_the_ground(s.drop_last());
    }
}

/// Explosions burn one frame at a time: with two frames or more left, each
/// explosion stays where it is with one frame less.
pub proof fn law_explosions_burn_down(s: Seq<Explosion>)
    requires
        forall|i: int| 0 <= i < s.len() ==> (#[trigger] s[i]).lifetime >= 2,
    ensures
        faded(s).len() == s.len(),
        forall|i: int|
            0 <= i < s.len() ==> #[trigger] faded(s)[i] == (Explosion {
                x: s[i].x,
                y: s[i].y,
                lifetime: (s[i].lifetime - 1) as u8,
            }),
    decreases s.len(),
{
    if s.len() > 0 {
        law_explosions_burn_down(s.drop_last());
        assert forall|i: int| 0 <= i < s.len() - 1 implies #[trigger] s.drop_last()[i] == s[i] by {}
    }
}

/// Explosions with at most one frame left are gone after a frame.
pub proof fn law_explosions_burn_out(s: Seq<Explosion>)
    requires
        forall|i: int| 0 <= i < s.len() ==> (#[trigger] s[i]).lifetime <= 1,
    ensures
        faded(s).len() == 0,
    decreases s.len(),
{
    if s.len() > 0 {
        law_explosions_burn_out(s.drop_last());
    }
}

/// What a laser hits: a laser destroys an enemy in its own column that is
/// in the laser's row or the row just below it, and no other.
pub proof fn law_laser_hits_its_column(e: (usize, usize), l: (usize, usize))
    ensures
        volley(seq![e], seq![l]).blasts.len() == if e.0 == l.0 && (e.1 == l.1 || e.1 == l.1 + 1) {
            1int
        } else {
            0int
        },
        volley(seq![e], seq![l]).blasts.len() == 1 ==> volley(seq![e], seq![l]).enemies.len() == 0
            && volley(seq![e], seq![l]).blasts[0] == (Explosion { x: e.0, y: e.1, lifetime: 8 }),
{
    assert(seq![l].drop_last() =~= Seq::<(usize, usize)>::empty());
    assert(seq![e].drop_last() =~= Seq::<(usize, usize)>::empty());
    reveal_with_fuel(first_struck, 2);
    reveal_with_fuel(volley, 2);
    let before = volley(seq![e], seq![l].drop_last());
    assert(before.enemies == seq![e]);
    assert(before.blasts.len() == 0);
}

/// A laser destroys the first enemy it hits in the order of the formation,
/// and only that one: the others stay, the last one taking its place.
pub proof fn law_laser_destroys_the_first_enemy_it_hits(
    enemies: Seq<(usize, usize)>,
    l: (usize, usize),
    k: int,
)
    requires
        0 <= k < enemies.len(),
        enemies[k].0 == l.0 && (enemies[k].1 == l.1 || enemies[k].1 == l.1 + 1),
        forall|j: int|
            0 <= j < k ==> !((#[trigger] enemies[j]).0 == l.0 && (enemies[j].1 == l.1 || enemies[j].1
                == l.1 + 1)),
    ensures
        volley(enemies, seq![l]).blasts =~= seq![Explosion { x: enemies[k].0, y: enemies[k].1, lifetime: 8 }],
        volley(enemies, seq![l]).enemies =~= enemies.update(k, enemies.last()).drop_last(),
        volley(enemies, seq![l]).missed.len() == 0,
{
    assert(seq![l].drop_last() =~= Seq::<(usize, usize)>::empty());
    reveal_with_fuel(volley, 2);
    let before = volley(enemies, seq![l].drop_last());
    assert(before.enemies == enemies);
    assert(before.blasts.len() == 0 && before.missed.len() == 0);
    assert(seq![l].last() == l);
    lemma_first_struck(enemies, l);
    match first_struck(enemies, l) {
        Some(i) => {
            if i < k {
                assert(strikes(l, enemies[i]));
            } else if i > k {
                assert(!strikes(l, enemies[k]));
            }
        },
        None => {
            assert(!strikes(l, enemies[k]));
        },
    }
}

/// The ship's hit zone: an enemy laser hits the ship exactly when it is in
/// row 23 or 24 and at most one column from the ship.
pub proof fn law_ship_hit_zone(v: GameView)
    ensures
        player_struck(v) <==> exists|i: int|
            0 <= i < v.enemy_lasers.len() && 23 <= (#[trigger] v.enemy_lasers[i]).1 <= 24
                && v.player_x <= v.enemy_lasers[i].0 + 1 && v.enemy_lasers[i].0 <= v.player_x + 1,
{
    if player_struck(v) {
        let i = choose|i: int| 0 <= i < v.enemy_lasers.len() && #[trigger] reaches_ship(v.enemy_lasers[i], v.player_x);
        assert(23 <= v.enemy_lasers[i].1 <= 24);
    }
    if exists|i: int|
        0 <= i < v.enemy_lasers.len() && 23 <= (#[trigger] v.enemy_lasers[i]).1 <= 24 && v.player_x
            <= v.enemy_lasers[i].0 + 1 && v.enemy_lasers[i].0 <= v.player_x + 1 {
        let i = choose|i: int|
            0 <= i < v.enemy_lasers.len() && 23 <= (#[trigger] v.enemy_lasers[i]).1 <= 24
                && v.player_x <= v.enemy_lasers[i].0 + 1 && v.enemy_lasers[i].0 <= v.player_x + 1;
        assert(reaches_ship(v.enemy_lasers[i], v.player_x));
    }
}

/// The ship moves one column per key: left down to column 2, right up to
/// column 77, and nothing else changes.
pub proof fn law_ship_moves_one_column(v: GameView, now: u128)
    ensures
        action_view(v, PlayerAction::MoveLeft, now) == (GameView {
            player_x: if v.player_x > 2 {
                (v.player_x - 1) as usize
            } else {
                v.player_x
            },
            ..v
        }, true),
        action_view(v, PlayerAction::MoveRight, now) == (GameView {
            player_x: if v.player_x < 77 {
                (v.player_x + 1) as usize
            } else {
                v.player_x
            },
            ..v
        }, true),
{
}

/// A hit stuns the ship for exactly half a second (500 000 000 ns), and a
/// cleared wave pauses the match for exactly one second, unless the clock
/// would run past its end.
pub proof fn law_stun_and_pause_durations(now: u128)
    requires
        now + 1_000_000_000 <= u128::MAX,
    ensures
        later(now, HIT_STUN_MS) == now + 500_000_000,
        later(now, WAVE_PAUSE_MS) == now + 1_000_000_000,
{
}

} // verus!
