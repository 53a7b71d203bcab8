use rstarwars::game::{Explosion, Game};
use rstarwars::render::{
    cell_at, compose_frame, draw_hud, draw_screen, push_centered, push_color, push_decimal,
    push_padded, push_repeat, push_str, Color,
};

fn text(buf: &[char]) -> String {
    buf.iter().collect()
}

#[test]
fn colour_switches_write_ansi_codes_once() {
    let mut buf = Vec::new();
    let mut last = Color::Reset;
    push_color(&mut buf, Color::Cyan, &mut last);
    assert_eq!(text(&buf), "\x1b[36m");
    assert_eq!(last, Color::Cyan);
    push_color(&mut buf, Color::Cyan, &mut last);
    assert_eq!(text(&buf), "\x1b[36m");
    push_color(&mut buf, Color::DarkGreen, &mut last);
    push_color(&mut buf, Color::DarkGrey, &mut last);
    push_color(&mut buf, Color::Reset, &mut last);
    assert_eq!(text(&buf), "\x1b[36m\x1b[32;2m\x1b[90m\x1b[0m");
    assert_eq!(last, Color::Reset);
}

#[test]
fn every_colour_has_its_code() {
    let cases = [
        (Color::Red, "\x1b[31m"),
        (Color::Green, "\x1b[32m"),
        (Color::Yellow, "\x1b[33m"),
        (Color::Blue, "\x1b[34m"),
        (Color::Magenta, "\x1b[35m"),
        (Color::White, "\x1b[37m"),
    ];
    for (c, code) in cases {
        let mut buf = Vec::new();
        let mut last = Color::Reset;
        push_color(&mut buf, c, &mut last);
        assert_eq!(text(&buf), code);
    }
}

#[test]
fn numbers_are_written_in_decimal() {
    let mut buf = Vec::new();
    push_padded(&mut buf, 42, 6);
    assert_eq!(text(&buf), "000042");
    buf.clear();
    push_padded(&mut buf, 1234567, 6);
    assert_eq!(text(&buf), "1234567");
    buf.clear();
    push_padded(&mut buf, 7, 2);
    assert_eq!(text(&buf), "07");
    buf.clear();
    push_decimal(&mut buf, 0);
    push_decimal(&mut buf, 4294967295);
    assert_eq!(text(&buf), "04294967295");
}

#[test]
fn strings_repeats_and_centring() {
    let mut buf = Vec::new();
    push_str(&mut buf, "♥ ab");
    push_repeat(&mut buf, '█', 3);
    assert_eq!(text(&buf), "♥ ab███");
    buf.clear();
    push_centered(&mut buf, "abc", 8);
    assert_eq!(text(&buf), "  abc   ");
    buf.clear();
    push_centered(&mut buf, "abcdef", 4);
    assert_eq!(text(&buf), "abcdef");
}

#[test]
fn the_field_shows_ship_border_and_sprites() {
    let mut g = Game::new();
    assert_eq!(cell_at(&g, 40, 24), ('▲', Color::Green));
    assert_eq!(cell_at(&g, 39, 23), ('◀', Color::DarkGreen));
    assert_eq!(cell_at(&g, 41, 23), ('▶', Color::DarkGreen));
    assert_eq!(cell_at(&g, 0, 0), ('═', Color::DarkGrey));
    assert_eq!(cell_at(&g, 79, 26), ('═', Color::DarkGrey));
    assert_eq!(cell_at(&g, 5, 5), (' ', Color::Reset));
    assert_eq!(cell_at(&g, 5, 29), (' ', Color::Reset));
    g.enemies = vec![(10, 5), (12, 27)];
    g.lasers = vec![(11, 5), (13, 0)];
    g.enemy_lasers = vec![(40, 24)];
    assert_eq!(cell_at(&g, 10, 5), ('◆', Color::Red));
    assert_eq!(cell_at(&g, 12, 27), (' ', Color::Reset));
    assert_eq!(cell_at(&g, 11, 5), ('│', Color::Cyan));
    assert_eq!(cell_at(&g, 13, 0), ('═', Color::DarkGrey));
    assert_eq!(cell_at(&g, 40, 24), ('┊', Color::Red));
}

#[test]
fn explosions_dim_and_the_last_one_wins() {
    let mut g = Game::new();
    g.enemies = vec![(10, 5)];
    g.explosions = vec![Explosion { x: 10, y: 5, lifetime: 7 }];
    assert_eq!(cell_at(&g, 10, 5), ('*', Color::Yellow));
    g.explosions.push(Explosion { x: 10, y: 5, lifetime: 4 });
    assert_eq!(cell_at(&g, 10, 5), ('+', Color::Yellow));
    g.explosions.push(Explosion { x: 10, y: 5, lifetime: 2 });
    assert_eq!(cell_at(&g, 10, 5), ('·', Color::Yellow));
    g.explosions.push(Explosion { x: 10, y: 5, lifetime: 8 });
    assert_eq!(cell_at(&g, 10, 5), (' ', Color::Yellow));
}

#[test]
fn the_screen_is_thirty_rows_of_eighty_cells() {
    let g = Game::new();
    let rows = draw_screen(&g);
    assert_eq!(rows.len(), 30);
    assert!(rows.iter().all(|r| r.len() == 80));
    assert_eq!(rows[24][40], ('▲', Color::Green));
}

#[test]
fn the_status_panel_of_a_fresh_wave() {
    let mut g = Game::new();
    g.spawn_wave();
    g.score = 120;
    g.high_score = 3000;
    g.player_lives = 2;
    let mut buf = Vec::new();
    let mut last = Color::Reset;
    draw_hud(&mut buf, &g, &mut last);
    let expected = format!(
        "\x1b[90m{}\r\n\x1b[32m♥ Lives: ██\x1b[90m░\x1b[33m  │  Score: 000120\x1b[35m  │  Wave: 01\x1b[36m  │  High: 003000\r\n\x1b[90mEnemies: [\x1b[31m\x1b[90m{}] 0/50",
        "═".repeat(80),
        "░".repeat(60)
    );
    assert_eq!(text(&buf), expected);
    assert_eq!(last, Color::DarkGrey);
}

#[test]
fn the_progress_bar_fills_as_enemies_fall() {
    let mut g = Game::new();
    g.spawn_wave();
    g.enemies.truncate(25);
    let mut buf = Vec::new();
    let mut last = Color::Cyan;
    draw_hud(&mut buf, &g, &mut last);
    let s = text(&buf);
    assert!(s.ends_with(&format!("\x1b[31m{}\x1b[90m{}] 25/50", "█".repeat(30), "░".repeat(30))));
}

#[test]
fn a_frame_has_title_field_and_panel() {
    let g = Game::new();
    let s = text(&compose_frame(&g));
    let title = format!(
        "\x1b[36m╔{}╗\r\n║\x1b[33m{}★ STAR WARS: TERMINAL ASSAULT ★{}\x1b[36m║\r\n╚{}╝\r\n",
        "═".repeat(78),
        " ".repeat(23),
        " ".repeat(24),
        "═".repeat(78)
    );
    assert!(s.starts_with(&title));
    assert_eq!(s.split("\r\n").count(), 36);
    let top_row = format!("{}\r\n", "\x1b[90m═\x1b[0m".repeat(80));
    assert!(s[title.len()..].starts_with(&top_row));
    assert!(s.ends_with("] 50/50\x1b[0m"));
}
