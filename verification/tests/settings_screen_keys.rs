use rchess::client_game::Key;
use rchess::config::{Config, Theme};
use rchess::settings_screen::{settings_key, settings_rows, settings_scroll, SettingsAction};

#[test]
fn settings_rows_show_values() {
    let cfg = Config::default();
    let r = settings_rows(&cfg);
    assert_eq!(r.len(), 18);
    assert_eq!(r[0], ("Theme".to_string(), "Classic      (cream/brown)".to_string()));
    assert_eq!(r[5].1, "ON");
    assert_eq!(r[7].1, "OFF");
    assert_eq!(r[12].1, "2  (balanced)");
    assert_eq!(r[14].1, "5  (default)");
    assert_eq!(r[15].1, "8 (default)");
    assert_eq!(r[17].1, "(not set)");
    let mut c2 = Config::default();
    c2.highlight_brightness = 7;
    c2.cell_w = 9;
    assert_eq!(settings_rows(&c2)[14].1, "7");
    assert_eq!(settings_rows(&c2)[15].1, "9");
}

#[test]
fn settings_keys_cycle_and_clamp() {
    let mut cfg = Config::default();
    let mut cur = 0usize;
    assert_eq!(settings_key(&mut cfg, &mut cur, Key::Left), SettingsAction::Nothing);
    assert_eq!(cfg.theme, Theme::Ocean);
    settings_key(&mut cfg, &mut cur, Key::Right);
    assert_eq!(cfg.theme, Theme::Classic);
    settings_key(&mut cfg, &mut cur, Key::Up);
    assert_eq!(cur, 0);
    cur = 12;
    assert_eq!(settings_key(&mut cfg, &mut cur, Key::Right), SettingsAction::RestartAnalysis);
    assert_eq!(cfg.analysis_depth, 3);
    settings_key(&mut cfg, &mut cur, Key::Right);
    assert_eq!(cfg.analysis_depth, 1);
    settings_key(&mut cfg, &mut cur, Key::Left);
    assert_eq!(cfg.analysis_depth, 3);
    cur = 15;
    cfg.cell_w = 20;
    settings_key(&mut cfg, &mut cur, Key::Char('l'));
    assert_eq!(cfg.cell_w, 20);
    cfg.cell_w = 4;
    settings_key(&mut cfg, &mut cur, Key::Char('h'));
    assert_eq!(cfg.cell_w, 4);
    cur = 17;
    settings_key(&mut cfg, &mut cur, Key::Down);
    assert_eq!(cur, 17);
    assert_eq!(settings_key(&mut cfg, &mut cur, Key::Char('w')), SettingsAction::Save);
    assert_eq!(settings_key(&mut cfg, &mut cur, Key::Esc), SettingsAction::Back);
    cfg.show_coords = false;
    settings_key(&mut cfg, &mut cur, Key::Char('r'));
    assert!(cfg.show_coords);
    assert_eq!(cfg.cell_w, 8);
    assert_eq!(cur, 17);
}

#[test]
fn settings_window_follows_cursor() {
    assert_eq!(settings_scroll(0, 18, 6), 0);
    assert_eq!(settings_scroll(8, 18, 6), 3);
    assert_eq!(settings_scroll(17, 18, 6), 12);
    assert_eq!(settings_scroll(5, 18, 30), 0);
}
