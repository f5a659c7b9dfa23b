use reflex_arcade::state::GameState;

#[test]
fn a_fresh_round_starts_fully_stocked() {
    let s = GameState::new();
    assert_eq!(s.life, 3);
    assert_eq!(s.pts, 0);
    assert_eq!(s.streak, 0);
    assert_eq!(s.button_size, 5000);
    assert_eq!(s.timeout_ms, 3000);
    assert_eq!(s.max_buttons, 1);
    assert_eq!(s.buttons_on_screen, 0);
}

#[test]
fn drop_life_from_one_reaches_zero_and_resets_the_streak() {
    let mut s = GameState {
        life: 1,
        pts: 9,
        streak: 4,
        button_size: 5000,
        timeout_ms: 3000,
        max_buttons: 3,
        buttons_on_screen: 0,
    };
    s.drop_life();
    assert_eq!(s.life, 0);
    assert_eq!(s.streak, 0);
    assert_eq!(s.button_size, 6500);
    assert_eq!(s.timeout_ms, 4000);
    assert_eq!(s.max_buttons, 1);
}

#[test]
fn drop_life_at_zero_is_a_noop() {
    let mut s = GameState::new();
    s.drop_life();
    s.drop_life();
    s.drop_life();
    assert_eq!(s.life, 0);
    let frozen = s;
    s.drop_life();
    assert_eq!(s, frozen);
}

#[test]
fn drop_life_grows_the_button_and_the_timeout() {
    let mut s = GameState::new();
    s.drop_life();
    assert_eq!(s.life, 2);
    assert_eq!(s.button_size, 6500);
    assert_eq!(s.timeout_ms, 4000);
}

#[test]
fn the_cap_falls_two_steps_but_never_below_one() {
    let mut s = GameState::new();
    s.max_buttons = 4;
    s.drop_life();
    assert_eq!(s.max_buttons, 2);
    s.drop_life();
    assert_eq!(s.max_buttons, 1);
    s.drop_life();
    assert_eq!(s.max_buttons, 1);
}

#[test]
fn ten_hits_raise_the_cap_exactly_once_on_the_fourth() {
    let mut s = GameState::new();
    let mut raises = 0;
    for hit in 1..=10u64 {
        let cap_before = s.max_buttons;
        s.add_pts_with(0);
        if s.max_buttons > cap_before {
            raises += 1;
            assert_eq!(hit, 4);
        }
    }
    assert_eq!(raises, 1);
    assert_eq!(s.max_buttons, 2);
    assert_eq!(s.streak, 10);
    assert_eq!(s.pts, 55);
    assert_eq!(s.life, 3);
}

#[test]
fn a_hit_shrinks_the_button_and_cuts_the_timeout() {
    let mut s = GameState::new();
    s.add_pts_with(40);
    assert_eq!(s.streak, 1);
    assert_eq!(s.pts, 1);
    assert_eq!(s.button_size, 4750);
    assert_eq!(s.timeout_ms, 2960);
}

#[test]
fn size_and_timeout_never_fall_below_their_floors() {
    let mut s = GameState::new();
    s.button_size = 600;
    s.timeout_ms = 1000;
    s.add_pts_with(99);
    assert_eq!(s.button_size, 600);
    assert_eq!(s.timeout_ms, 1000);
}

#[test]
fn the_random_cut_stays_inside_its_window() {
    let mut s = GameState::new();
    s.add_pts();
    assert!(s.timeout_ms <= 3000);
    assert!(s.timeout_ms > 2900);
    assert_eq!(s.button_size, 4750);
    assert_eq!(s.life, 3);
}
