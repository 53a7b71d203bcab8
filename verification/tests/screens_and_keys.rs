use rstarwars::game::{Game, PlayerAction};
use rstarwars::input::{action_for_key, Key};
use rstarwars::screens::{
    centered_column, centered_top, crawl_goes_on, crawl_row, is_frame_line, menu_step,
    mission_stat_lines, report_line_color, session_best, skips_intro, MenuChoice, MenuStep,
};
use rstarwars::render::Color;

fn line(chars: &[char]) -> String {
    chars.iter().collect()
}

#[test]
fn keys_during_a_match() {
    assert_eq!(action_for_key(Key::Left), Some(PlayerAction::MoveLeft));
    assert_eq!(action_for_key(Key::Right), Some(PlayerAction::MoveRight));
    assert_eq!(action_for_key(Key::Char(' ')), Some(PlayerAction::Shoot));
    assert_eq!(action_for_key(Key::Char('q')), Some(PlayerAction::Quit));
    assert_eq!(action_for_key(Key::Char('Q')), Some(PlayerAction::Quit));
    assert_eq!(action_for_key(Key::Esc), Some(PlayerAction::Quit));
    assert_eq!(action_for_key(Key::Char('s')), None);
    assert_eq!(action_for_key(Key::Other), None);
}

#[test]
fn keys_in_the_menu() {
    assert_eq!(menu_step(Key::Char('s')), MenuStep::Choose(MenuChoice::Start));
    assert_eq!(menu_step(Key::Char('S')), MenuStep::Choose(MenuChoice::Start));
    assert_eq!(menu_step(Key::Char('h')), MenuStep::Help);
    assert_eq!(menu_step(Key::Char('H')), MenuStep::Help);
    assert_eq!(menu_step(Key::Char('q')), MenuStep::Choose(MenuChoice::Quit));
    assert_eq!(menu_step(Key::Esc), MenuStep::Choose(MenuChoice::Quit));
    assert_eq!(menu_step(Key::Char(' ')), MenuStep::Wait);
    assert_eq!(menu_step(Key::Left), MenuStep::Wait);
}

#[test]
fn only_s_skips_the_intro() {
    assert!(skips_intro(Key::Char('s')));
    assert!(skips_intro(Key::Char('S')));
    assert!(!skips_intro(Key::Char('q')));
    assert!(!skips_intro(Key::Esc));
}

#[test]
fn layout_of_the_intro_and_menus() {
    assert_eq!(centered_column(44), 18);
    assert_eq!(centered_column(0), 40);
    assert_eq!(centered_column(100), 0);
    assert_eq!(crawl_row(30, 0), None);
    assert_eq!(crawl_row(28, 1), Some(29));
    assert_eq!(crawl_row(-3, 2), None);
    assert_eq!(crawl_row(-3, 5), Some(2));
    assert!(crawl_goes_on(30, 14));
    assert!(crawl_goes_on(-16, 14));
    assert!(!crawl_goes_on(-17, 14));
    assert!(is_frame_line(0, 16));
    assert!(is_frame_line(15, 16));
    assert!(!is_frame_line(7, 16));
    assert_eq!(centered_top(19), 6);
    assert_eq!(centered_top(40), 0);
    assert_eq!(centered_top(30), 0);
}

#[test]
fn mission_report_lines() {
    let mut g = Game::new();
    g.score = 1230;
    g.wave = 4;
    g.enemies_destroyed = 123;
    g.high_score = 9999999;
    let lines = mission_stat_lines(&g);
    let tail = " ".repeat(42) + "║";
    assert_eq!(line(&lines[0]), format!("║    Final Score:           1230{}", tail));
    assert_eq!(line(&lines[1]), format!("║    Waves Completed:          3{}", tail));
    assert_eq!(line(&lines[2]), format!("║    Enemies Destroyed:      123{}", tail));
    assert_eq!(line(&lines[3]), format!("║    High Score:          9999999{}", tail));
    g.wave = 0;
    assert_eq!(line(&mission_stat_lines(&g)[1]), format!("║    Waves Completed:          0{}", tail));
}

#[test]
fn the_session_keeps_the_best_score() {
    assert_eq!(session_best(100, 250), 250);
    assert_eq!(session_best(300, 250), 300);
    assert_eq!(session_best(0, 0), 0);
}

#[test]
fn the_report_heading_is_red_and_the_rest_yellow() {
    assert_eq!(report_line_color(0), Color::Red);
    assert_eq!(report_line_color(5), Color::Red);
    assert_eq!(report_line_color(6), Color::Yellow);
    assert_eq!(report_line_color(18), Color::Yellow);
}
