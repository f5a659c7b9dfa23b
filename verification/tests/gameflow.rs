use reflex_arcade::flow::FlowAction;
use reflex_arcade::flow::FlowEvent;
use reflex_arcade::flow::GameFlow;
use reflex_arcade::flow::LaneRaceIds;
use reflex_arcade::flow::LaneStart;
use reflex_arcade::flow::Phase;
use reflex_arcade::flow::RaceOutcome;
use reflex_arcade::flow::Repeat;
use reflex_arcade::flow::arm_lane_race;
use reflex_arcade::flow::cancel_lane_race;
use reflex_arcade::flow::lane_begin;
use reflex_arcade::flow::lane_finish;
use reflex_arcade::flow::spawn_button;
use reflex_arcade::signals::SignalEvent;
use reflex_arcade::signals::SignalsRegistry;
use reflex_arcade::signals::PRESSED;
use reflex_arcade::state::GameState;
use reflex_arcade::watch::WatcherTable;

const LIFE_PATH: u64 = 0;

#[test]
fn a_round_begins_with_one_active_lane_and_one_button() {
    let mut flow = GameFlow::new();
    assert_eq!(flow.phase, Phase::StartPopup);
    assert_eq!(flow.step(FlowEvent::StartPressed), FlowAction::BeginRound);
    assert_eq!(flow.phase, Phase::RoundActive);
    assert_eq!(flow.state, GameState::new());

    // with the cap at 1, lane 0 spawns at once and lanes 1..5 idle
    assert_eq!(lane_begin(0, &flow.state), LaneStart::SpawnButton { delay_ms: 0 });
    for idx in 1..5u64 {
        assert_eq!(lane_begin(idx, &flow.state), LaneStart::Idle { wait_ms: 1000 });
    }

    let baseline = spawn_button(&mut flow.state);
    assert_eq!(baseline, 3);
    assert_eq!(flow.state.buttons_on_screen, 1);

    // missing that button costs a life and softens the difficulty
    let (verdict, flash) = lane_finish(&mut flow.state, RaceOutcome::TimedOut);
    assert_eq!(verdict, Repeat::Continue);
    assert!(flash);
    assert_eq!(flow.state.life, 2);
    assert_eq!(flow.state.buttons_on_screen, 0);
    assert!(flow.state.button_size > 5000);
    assert!(flow.state.timeout_ms > 3000);
}

#[test]
fn exhausted_lives_reach_the_restart_popup_with_the_final_score() {
    let mut flow = GameFlow::new();
    flow.step(FlowEvent::StartPressed);

    // two hits, then three misses
    for _ in 0..2 {
        spawn_button(&mut flow.state);
        let (verdict, flash) = lane_finish(&mut flow.state, RaceOutcome::Hit);
        assert_eq!(verdict, Repeat::Continue);
        assert!(!flash);
    }
    assert_eq!(flow.state.pts, 3);
    for miss in 1..=3u64 {
        spawn_button(&mut flow.state);
        let (verdict, _) = lane_finish(&mut flow.state, RaceOutcome::TimedOut);
        if miss < 3 {
            assert_eq!(verdict, Repeat::Continue);
        } else {
            assert_eq!(verdict, Repeat::Break);
        }
    }
    assert_eq!(flow.state.life, 0);

    assert_eq!(flow.step(FlowEvent::RoundOver), FlowAction::ShowRestartPopup);
    assert_eq!(flow.phase, Phase::RestartPopup);
    // the popup label binds the final accumulated score
    assert_eq!(flow.state.pts, 3);

    // restarting begins a fresh round
    assert_eq!(flow.step(FlowEvent::RestartPressed), FlowAction::BeginRound);
    assert_eq!(flow.phase, Phase::RoundActive);
    assert_eq!(flow.state.life, 3);
    assert_eq!(flow.state.pts, 0);

    // declining instead exits the process
    assert_eq!(flow.step(FlowEvent::RoundOver), FlowAction::ShowRestartPopup);
    assert_eq!(flow.step(FlowEvent::ExitPressed), FlowAction::ExitApp);
    assert_eq!(flow.phase, Phase::Exited);
}

#[test]
fn events_outside_their_phase_are_ignored() {
    let mut flow = GameFlow::new();
    assert_eq!(flow.step(FlowEvent::RoundOver), FlowAction::Ignore);
    assert_eq!(flow.step(FlowEvent::ExitPressed), FlowAction::Ignore);
    assert_eq!(flow.phase, Phase::StartPopup);
}

#[test]
fn a_gameover_or_foreign_life_loss_ends_the_iteration_unpenalized() {
    let mut s = GameState::new();
    spawn_button(&mut s);
    let before = s;
    let (verdict, flash) = lane_finish(&mut s, RaceOutcome::LifeLost);
    assert_eq!(verdict, Repeat::Continue);
    assert!(!flash);
    assert_eq!(s.life, before.life);
    assert_eq!(s.pts, before.pts);

    spawn_button(&mut s);
    let (verdict, flash) = lane_finish(&mut s, RaceOutcome::GameOver);
    assert_eq!(verdict, Repeat::Break);
    assert!(!flash);
    assert_eq!(s.life, before.life);
}

#[test]
fn an_armed_lane_race_resolves_on_a_press() {
    let mut registry = SignalsRegistry::new();
    let mut watchers = WatcherTable::new();
    let ids = LaneRaceIds { hit: 1, gameover: 2, lifelost: 3 };
    arm_lane_race(&mut registry, &mut watchers, ids, 77, LIFE_PATH, 3);
    assert_eq!(registry.len(), 1);
    assert_eq!(watchers.len(), 2);

    let fired = registry.drain_promises_for(&SignalEvent { sources: vec![77], value: PRESSED });
    assert_eq!(fired, vec![1]);

    // the losing branches get their cancel, idempotently
    cancel_lane_race(&mut registry, &mut watchers, ids);
    assert_eq!(registry.len(), 0);
    assert_eq!(watchers.len(), 0);
    cancel_lane_race(&mut registry, &mut watchers, ids);
    assert_eq!(watchers.len(), 0);
    assert_eq!(watchers.tick(LIFE_PATH, 0), Vec::<u64>::new());
}

#[test]
fn an_armed_lane_race_sees_a_foreign_life_loss() {
    let mut registry = SignalsRegistry::new();
    let mut watchers = WatcherTable::new();
    let ids = LaneRaceIds { hit: 1, gameover: 2, lifelost: 3 };
    arm_lane_race(&mut registry, &mut watchers, ids, 77, LIFE_PATH, 3);

    // baseline observation: three lives, nothing fires
    assert_eq!(watchers.tick(LIFE_PATH, 3), Vec::<u64>::new());
    // another lane loses a life: only the baseline watch fires
    assert_eq!(watchers.tick(LIFE_PATH, 2), vec![3]);
    // lives exhausted: the game-over watch fires
    assert_eq!(watchers.tick(LIFE_PATH, 0), vec![2]);
    assert_eq!(watchers.len(), 0);
}

#[test]
fn a_busy_screen_delays_the_next_button_within_the_timeout() {
    let mut s = GameState::new();
    spawn_button(&mut s);
    match lane_begin(0, &s) {
        LaneStart::SpawnButton { delay_ms } => assert!(delay_ms < s.timeout_ms),
        LaneStart::Idle { .. } => panic!("an active lane must spawn"),
    }
}

#[test]
fn a_button_that_fits_is_placed_inside_the_field() {
    let rect = reflex_arcade::flow::place_button(5000);
    assert_eq!(rect.width, 5000);
    assert!(rect.height >= 5500 && rect.height < 10500);
    assert!(rect.left + rect.width <= 10000);
    if rect.height <= 10000 {
        assert!(rect.top + rect.height <= 10000);
    }
}

#[test]
fn a_lane_hands_its_button_back_once() {
    let mut lane = reflex_arcade::flow::ButtonLoop::new(2);
    assert_eq!(lane.btn, None);
    lane.btn = Some(42);
    assert_eq!(lane.btn(), 42);
    assert_eq!(lane.btn, None);
}
