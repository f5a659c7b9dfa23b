//! The game-flow orchestrator, as an explicit state machine.
//!
//! The surrounding engine owns the scheduler, the UI tree and the input
//! events; the decisions live here. The top-level flow runs
//! start popup → round → restart popup → round or exit. Within a round, up
//! to five button lanes race: each lane either idles (its index is beyond
//! the current concurrency cap), or spawns a button after a delay and then
//! races four conditions — the button pressed, lives exhausted, a life lost
//! by any lane, or the countdown elapsed.

use vstd::prelude::*;

use crate::random::random_below;
use crate::signals::Filter;
use crate::signals::PRESSED;
use crate::signals::Registration;
use crate::signals::SignalsRegistry;
use crate::signals::without_id;
use crate::state::GameState;
use crate::state::MAX_TIMEOUT_JITTER_MS;
use crate::watch::ValueWatcher;
use crate::watch::WatcherTable;
use crate::watch::w_without_id;

verus! {

/// How many button lanes a round launches; lanes beyond the current
/// concurrency cap merely idle.
pub const LANE_COUNT: u64 = 5;

/// How long an idle lane sleeps before rechecking the cap, in milliseconds.
pub const IDLE_WAIT_MS: u64 = 1000;

/// Where the top-level flow stands.
#[derive(Clone, Copy, Debug, PartialEq, Eq, Structural)]
pub enum Phase {
    /// The start popup is up, waiting for the start button.
    StartPopup,
    /// A round is running: the lanes are racing.
    RoundActive,
    /// The restart popup is up, showing the final score.
    RestartPopup,
    /// The player declined a restart; the process may exit.
    Exited,
}

/// What the engine reports to the flow.
#[derive(Clone, Copy, Debug, PartialEq, Eq, Structural)]
pub enum FlowEvent {
    /// The start button was pressed.
    StartPressed,
    /// The lane race of the round settled.
    RoundOver,
    /// The restart button was pressed.
    RestartPressed,
    /// The exit button was pressed.
    ExitPressed,
}

/// What the engine must do next.
#[derive(Clone, Copy, Debug, PartialEq, Eq, Structural)]
pub enum FlowAction {
    /// Hide the popups and launch the lanes over a fresh state.
    BeginRound,
    /// Show the restart popup with the final score bound into its label.
    ShowRestartPopup,
    /// Terminate the process.
    ExitApp,
    /// The event does not apply to the current phase; do nothing.
    Ignore,
}

/// The top-level flow: the phase and the shared game state.
#[derive(Clone, Copy, Debug, PartialEq, Eq, Structural)]
pub struct GameFlow {
    pub phase: Phase,
    pub state: GameState,
}

impl GameFlow {
    pub open spec fn wf(self) -> bool {
        self.state.wf()
    }

    /// The transition relation: a round always begins over a freshly reset
    /// state; the restart popup leads back into a round or out of the
    /// process; anything else is ignored.
    pub open spec fn spec_step(self, ev: FlowEvent) -> (GameFlow, FlowAction) {
        match (self.phase, ev) {
            (Phase::StartPopup, FlowEvent::StartPressed) => (
                GameFlow { phase: Phase::RoundActive, state: GameState::spec_new() },
                FlowAction::BeginRound,
            ),
            (Phase::RoundActive, FlowEvent::RoundOver) => (
                GameFlow { phase: Phase::RestartPopup, ..self },
                FlowAction::ShowRestartPopup,
            ),
            (Phase::RestartPopup, FlowEvent::RestartPressed) => (
                GameFlow { phase: Phase::RoundActive, state: GameState::spec_new() },
                FlowAction::BeginRound,
            ),
            (Phase::RestartPopup, FlowEvent::ExitPressed) => (
                GameFlow { phase: Phase::Exited, ..self },
                FlowAction::ExitApp,
            ),
            _ => (self, FlowAction::Ignore),
        }
    }

    /// A fresh flow: the start popup is up over a fresh state.
    pub fn new() -> (r: GameFlow)
        ensures
            r == (GameFlow { phase: Phase::StartPopup, state: GameState::spec_new() }),
            r.wf(),
    {
        GameFlow { phase: Phase::StartPopup, state: GameState::new() }
    }

    /// Advances the flow by one event.
    pub fn step(&mut self, ev: FlowEvent) -> (action: FlowAction)
        ensures
            (*final(self), action) == old(self).spec_step(ev),
            old(self).wf() ==> final(self).wf(),
    {
        match (self.phase, ev) {
            (Phase::StartPopup, FlowEvent::StartPressed) => {
                self.state = GameState::new();
                self.phase = Phase::RoundActive;
                FlowAction::BeginRound
            },
            (Phase::RoundActive, FlowEvent::RoundOver) => {
                self.phase = Phase::RestartPopup;
                FlowAction::ShowRestartPopup
            },
            (Phase::RestartPopup, FlowEvent::RestartPressed) => {
                self.state = GameState::new();
                self.phase = Phase::RoundActive;
                FlowAction::BeginRound
            },
            (Phase::RestartPopup, FlowEvent::ExitPressed) => {
                self.phase = Phase::Exited;
                FlowAction::ExitApp
            },
            _ => FlowAction::Ignore,
        }
    }
}

/// Ephemeral per-lane loop state: the lane's index and, while a button is
/// up, the handle of its visual.
#[derive(Clone, Copy, Debug, PartialEq, Eq, Structural)]
pub struct ButtonLoop {
    /// Which of the lanes this is.
    pub idx: u64,
    /// The handle of the button this lane currently shows, if any.
    pub btn: Option<u64>,
}

impl ButtonLoop {
    pub fn new(id: u64) -> (r: ButtonLoop)
        ensures
            r == (ButtonLoop { idx: id, btn: None }),
    {
        ButtonLoop { idx: id, btn: None }
    }

    /// Takes the current button handle out; the lane must be showing one.
    pub fn btn(&mut self) -> (r: u64)
        requires
            old(self).btn is Some,
        ensures
            r == old(self).btn->0,
            *final(self) == (ButtonLoop { btn: None, ..*old(self) }),
    {
        let b = self.btn;
        self.btn = None;
        b.unwrap()
    }
}

/// How a lane iteration opens.
#[derive(Clone, Copy, Debug, PartialEq, Eq, Structural)]
pub enum LaneStart {
    /// The lane's index is beyond the concurrency cap: sleep and retry.
    Idle { wait_ms: u64 },
    /// Spawn a button after this delay.
    SpawnButton { delay_ms: u64 },
}

/// How a lane's four-way race settled.
#[derive(Clone, Copy, Debug, PartialEq, Eq, Structural)]
pub enum RaceOutcome {
    /// The lane's own button was pressed in time.
    Hit,
    /// Lives reached zero somewhere; the round is over.
    GameOver,
    /// Another lane lost a life; restart this lane without penalty.
    LifeLost,
    /// The countdown elapsed unpressed.
    TimedOut,
}

/// Whether a lane's loop goes on.
#[derive(Clone, Copy, Debug, PartialEq, Eq, Structural)]
pub enum Repeat {
    Continue,
    Break,
}

/// Opens a lane iteration: a lane beyond the cap idles for a fixed second;
/// an active lane spawns at once while no button is on screen — so the
/// first button of a round appears with no delay — and otherwise after a
/// random delay below the current timeout.
pub fn lane_begin(idx: u64, state: &GameState) -> (r: LaneStart)
    requires
        state.wf(),
    ensures
        idx >= state.max_buttons ==> r == (LaneStart::Idle { wait_ms: IDLE_WAIT_MS }),
        idx < state.max_buttons && state.buttons_on_screen == 0 ==> r == (LaneStart::SpawnButton {
            delay_ms: 0,
        }),
        idx < state.max_buttons && state.buttons_on_screen > 0 ==> (r matches
            LaneStart::SpawnButton { delay_ms } && delay_ms < state.timeout_ms),
{
    if idx >= state.max_buttons {
        LaneStart::Idle { wait_ms: IDLE_WAIT_MS }
    } else if state.buttons_on_screen == 0 {
        LaneStart::SpawnButton { delay_ms: 0 }
    } else {
        LaneStart::SpawnButton { delay_ms: random_below(state.timeout_ms) }
    }
}

/// Books a freshly spawned button into the shared state and captures the
/// lane's lives baseline.
pub fn spawn_button(state: &mut GameState) -> (baseline: u64)
    requires
        old(state).buttons_on_screen < u64::MAX,
    ensures
        *final(state) == (GameState {
            buttons_on_screen: (old(state).buttons_on_screen + 1) as u64,
            ..*old(state)
        }),
        baseline == old(state).life,
        old(state).wf() ==> final(state).wf(),
{
    state.buttons_on_screen = state.buttons_on_screen + 1;
    state.life
}

/// The promise ids of the three registered branches of a lane's race; the
/// fourth branch, the countdown, belongs to the scheduler.
#[derive(Clone, Copy, Debug, PartialEq, Eq, Structural)]
pub struct LaneRaceIds {
    /// Resolves when the lane's button is pressed.
    pub hit: u64,
    /// Resolves when lives reach zero.
    pub gameover: u64,
    /// Resolves when lives change from the lane's baseline.
    pub lifelost: u64,
}

/// Arms a lane's race: a press awaiter on the lane's button, a watch for
/// lives reaching zero, and a watch for lives leaving the lane's baseline.
pub fn arm_lane_race(
    registry: &mut SignalsRegistry,
    watchers: &mut WatcherTable,
    ids: LaneRaceIds,
    button: u64,
    life_path: u64,
    baseline: u64,
)
    requires
        ids.gameover != ids.lifelost,
    ensures
        final(registry)@ == without_id(old(registry)@, ids.hit).push(
            Registration { promise: ids.hit, source: button, filter: Filter::EqualTo(PRESSED) },
        ),
        final(watchers)@ == w_without_id(w_without_id(old(watchers)@, ids.gameover), ids.lifelost)
            .push(
            ValueWatcher {
                promise: ids.gameover,
                path: life_path,
                filter: Filter::EqualTo(0),
                last: None,
            },
        ).push(
            ValueWatcher {
                promise: ids.lifelost,
                path: life_path,
                filter: Filter::NotEqualTo(baseline),
                last: None,
            },
        ),
        old(registry).wf() ==> final(registry).wf(),
        old(watchers).wf() ==> final(watchers).wf(),
{
    crate::signals::pressed(registry, ids.hit, button);
    watchers.watch(ids.gameover, life_path, Filter::EqualTo(0));
    proof {
        crate::watch::lemma_w_without_id(
            w_without_id(old(watchers)@, ids.gameover).push(
                ValueWatcher {
                    promise: ids.gameover,
                    path: life_path,
                    filter: Filter::EqualTo(0),
                    last: None,
                },
            ),
            ids.lifelost,
        );
    }
    watchers.watch(ids.lifelost, life_path, Filter::NotEqualTo(baseline));
    proof {
        lemma_watch_order(old(watchers)@, ids, life_path, baseline);
    }
}

/// Removing the second id first or last gives the same table, when the entry
/// pushed in between does not carry it.
proof fn lemma_watch_order(s: Seq<ValueWatcher>, ids: LaneRaceIds, life_path: u64, baseline: u64)
    requires
        ids.gameover != ids.lifelost,
    ensures
        w_without_id(
            w_without_id(s, ids.gameover).push(
                ValueWatcher {
                    promise: ids.gameover,
                    path: life_path,
                    filter: Filter::EqualTo(0),
                    last: None,
                },
            ),
            ids.lifelost,
        ) == w_without_id(w_without_id(s, ids.gameover), ids.lifelost).push(
            ValueWatcher {
                promise: ids.gameover,
                path: life_path,
                filter: Filter::EqualTo(0),
                last: None,
            },
        ),
{
    let base = w_without_id(s, ids.gameover);
    let entry = ValueWatcher {
        promise: ids.gameover,
        path: life_path,
        filter: Filter::EqualTo(0),
        last: None,
    };
    assert(base.push(entry).drop_last() =~= base);
    assert(base.push(entry).last() == entry);
}

/// Cancels every registered branch of a lane's race: safe whether or not
/// each branch is still registered.
pub fn cancel_lane_race(registry: &mut SignalsRegistry, watchers: &mut WatcherTable, ids: LaneRaceIds)
    ensures
        final(registry)@ == without_id(old(registry)@, ids.hit),
        final(watchers)@ == w_without_id(w_without_id(old(watchers)@, ids.gameover), ids.lifelost),
        old(registry).wf() ==> final(registry).wf(),
        old(watchers).wf() ==> final(watchers).wf(),
{
    registry.discard_promise(ids.hit);
    watchers.cancel_watch(ids.gameover);
    watchers.cancel_watch(ids.lifelost);
}

/// Where a freshly spawned button sits, in hundredths of a layout percent
/// of the playing field.
#[derive(Clone, Copy, Debug, PartialEq, Eq, Structural)]
pub struct ButtonRect {
    pub width: u64,
    pub height: u64,
    pub left: u64,
    pub top: u64,
}

/// Draws the geometry of a new button: the width is the current size, the
/// height adds a fixed 5.00 plus a random stretch below one more width, and
/// the position is drawn so that a button that fits the field stays inside
/// it (a side that already fills the field sits at its edge).
pub fn place_button(size: u64) -> (r: ButtonRect)
    requires
        size >= 1,
        size <= 1000000,
    ensures
        r.width == size,
        size + 500 <= r.height < size + 500 + size,
        r.width <= 10000 ==> r.left + r.width <= 10000,
        r.height <= 10000 ==> r.top + r.height <= 10000,
{
    let stretch = random_below(100);
    assert(size * stretch <= 1000000 * 99) by (nonlinear_arith)
        requires
            size <= 1000000,
            stretch <= 99,
    ;
    assert(size * stretch / 100 < size) by (nonlinear_arith)
        requires
            1 <= size,
            stretch < 100,
    ;
    let height = size + 500 + size * stretch / 100;
    let left = if size < 10000 {
        random_below(10000 - size)
    } else {
        0
    };
    let top = if height < 10000 {
        random_below(10000 - height)
    } else {
        0
    };
    ButtonRect { width: size, height, left, top }
}

/// Closes a lane iteration after its race settled: the button leaves the
/// screen; a game over breaks the lane's loop, a life lost elsewhere
/// restarts it without penalty, a timeout costs a life (and flashes the
/// failure effect), a hit scores; the lane breaks once lives are exhausted.
pub fn lane_finish(state: &mut GameState, outcome: RaceOutcome) -> (r: (Repeat, bool))
    requires
        old(state).wf(),
        old(state).buttons_on_screen >= 1,
        old(state).button_size + 1500 <= u64::MAX,
        old(state).timeout_ms + 1000 <= u64::MAX,
        old(state).add_pts_fits(),
    ensures
        final(state).wf(),
        ({
            let s1 = GameState {
                buttons_on_screen: (old(state).buttons_on_screen - 1) as u64,
                ..*old(state)
            };
            match outcome {
                RaceOutcome::GameOver => *final(state) == s1 && r == (Repeat::Break, false),
                RaceOutcome::LifeLost => *final(state) == s1 && r == (Repeat::Continue, false),
                RaceOutcome::TimedOut => *final(state) == s1.spec_drop_life() && r.1 == true
                    && r.0 == (if final(state).life == 0 {
                    Repeat::Break
                } else {
                    Repeat::Continue
                }),
                RaceOutcome::Hit => (exists|j: u64|
                    j < MAX_TIMEOUT_JITTER_MS && *final(state) == s1.spec_add_pts(j))
                    && final(state).life == s1.life && r.1 == false && r.0 == (
                if s1.life == 0 {
                    Repeat::Break
                } else {
                    Repeat::Continue
                }),
            }
        }),
{
    state.buttons_on_screen = state.buttons_on_screen - 1;
    match outcome {
        RaceOutcome::GameOver => (Repeat::Break, false),
        RaceOutcome::LifeLost => (Repeat::Continue, false),
        RaceOutcome::TimedOut => {
            state.drop_life();
            if state.life == 0 {
                (Repeat::Break, true)
            } else {
                (Repeat::Continue, true)
            }
        },
        RaceOutcome::Hit => {
            state.add_pts();
            if state.life == 0 {
                (Repeat::Break, false)
            } else {
                (Repeat::Continue, false)
            }
        },
    }
}

} // verus!
