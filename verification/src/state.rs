//! The shared game state and its two mutators.
//!
//! Quantities that the surrounding engine renders as fractional values are
//! held here as scaled integers: button sizes in hundredths of a layout
//! percent, timeouts in milliseconds. The difficulty rules are exact over
//! these units: a hit shrinks the button to 95% of its size (floor 6.00)
//! and shortens the timeout by a random amount under 100 ms (floor 1000 ms);
//! a lost life grows the button by 15.00, lengthens the timeout by 1000 ms
//! and drops the concurrency cap by two steps (floor 1).

use vstd::prelude::*;

verus! {

/// Smallest button size, in hundredths: 6.00.
pub const MIN_BUTTON_SIZE: u64 = 600;
/// Starting button size, in hundredths: 50.00.
pub const START_BUTTON_SIZE: u64 = 5000;
/// Smallest timeout, in milliseconds.
pub const MIN_TIMEOUT_MS: u64 = 1000;
/// Starting timeout, in milliseconds.
pub const START_TIMEOUT_MS: u64 = 3000;
/// Lives at the start of a round.
pub const START_LIVES: u64 = 3;
/// Upper bound (exclusive) on the random timeout reduction per hit, in ms.
pub const MAX_TIMEOUT_JITTER_MS: u64 = 100;

/// The single shared game record: mutated only by the orchestrator,
/// observed by UI bindings and value watchers at tick boundaries.
#[derive(Clone, Copy, Debug, PartialEq, Eq, Structural)]
pub struct GameState {
    /// Remaining lives; the round is lost when this reaches 0.
    pub life: u64,
    /// Accumulated score.
    pub pts: u64,
    /// Consecutive hits since the last lost life.
    pub streak: u64,
    /// Side of the next button, in hundredths of a layout percent.
    pub button_size: u64,
    /// Countdown budget of the next button, in milliseconds.
    pub timeout_ms: u64,
    /// How many button lanes may run concurrently.
    pub max_buttons: u64,
    /// How many buttons are currently visible.
    pub buttons_on_screen: u64,
}

impl GameState {
    /// The record's invariant: sizes and timeouts never fall below their
    /// floors, and at least one lane is always allowed.
    pub open spec fn wf(self) -> bool {
        &&& self.button_size >= MIN_BUTTON_SIZE
        &&& self.timeout_ms >= MIN_TIMEOUT_MS
        &&& self.max_buttons >= 1
    }

    /// The state every round starts from.
    pub open spec fn spec_new() -> GameState {
        GameState {
            life: START_LIVES,
            pts: 0,
            streak: 0,
            button_size: START_BUTTON_SIZE,
            timeout_ms: START_TIMEOUT_MS,
            max_buttons: 1,
            buttons_on_screen: 0,
        }
    }

    pub fn new() -> (r: GameState)
        ensures
            r == GameState::spec_new(),
            r.wf(),
    {
        GameState {
            life: START_LIVES,
            pts: 0,
            streak: 0,
            button_size: START_BUTTON_SIZE,
            timeout_ms: START_TIMEOUT_MS,
            max_buttons: 1,
            buttons_on_screen: 0,
        }
    }

    /// What losing a life does: at 0 lives nothing; otherwise one life goes,
    /// the streak resets, the button grows, the timeout lengthens, and the
    /// concurrency cap falls by two steps, clamped to 1.
    pub open spec fn spec_drop_life(self) -> GameState {
        if self.life == 0 {
            self
        } else {
            GameState {
                life: (self.life - 1) as u64,
                streak: 0,
                button_size: (self.button_size + 1500) as u64,
                timeout_ms: (self.timeout_ms + 1000) as u64,
                max_buttons: if self.max_buttons >= 3 {
                    (self.max_buttons - 2) as u64
                } else {
                    1
                },
                ..self
            }
        }
    }

    pub fn drop_life(&mut self)
        requires
            old(self).wf(),
            old(self).button_size + 1500 <= u64::MAX,
            old(self).timeout_ms + 1000 <= u64::MAX,
        ensures
            *final(self) == old(self).spec_drop_life(),
            final(self).wf(),
            final(self).life == if old(self).life == 0 { 0u64 } else { (old(self).life - 1) as u64 },
    {
        if self.life == 0 {
            return;
        }
        self.life = self.life - 1;
        self.streak = 0;
        self.button_size = self.button_size + 1500;
        self.timeout_ms = self.timeout_ms + 1000;
        self.max_buttons = if self.max_buttons >= 3 {
            self.max_buttons - 2
        } else {
            1
        };
    }

    /// What a hit does, given the random timeout reduction `jitter` (in ms):
    /// the streak grows; once it exceeds `max_buttons^2 * 3` one more lane is
    /// allowed; the streak is added to the score; the button shrinks to 95%
    /// of its size, floored; the timeout shrinks by `jitter`, floored.
    pub open spec fn spec_add_pts(self, jitter: u64) -> GameState {
        let streak = (self.streak + 1) as u64;
        let max_buttons = if streak > self.max_buttons * self.max_buttons * 3 {
            (self.max_buttons + 1) as u64
        } else {
            self.max_buttons
        };
        let shrunk = self.button_size * 95 / 100;
        let button_size = if shrunk >= MIN_BUTTON_SIZE { shrunk as u64 } else { MIN_BUTTON_SIZE };
        let cut = self.timeout_ms - jitter;
        let timeout_ms = if cut >= MIN_TIMEOUT_MS { cut as u64 } else { MIN_TIMEOUT_MS };
        GameState {
            streak,
            max_buttons,
            pts: (self.pts + streak) as u64,
            button_size,
            timeout_ms,
            ..self
        }
    }

    /// Bounds under which `spec_add_pts` stays inside machine integers.
    pub open spec fn add_pts_fits(self) -> bool {
        &&& self.streak < u64::MAX
        &&& self.pts + self.streak + 1 <= u64::MAX
        &&& self.max_buttons <= 100000
        &&& self.button_size <= u64::MAX / 95
    }

    /// Applies a hit with a caller-supplied timeout reduction.
    pub fn add_pts_with(&mut self, jitter: u64)
        requires
            old(self).wf(),
            old(self).add_pts_fits(),
            jitter < MAX_TIMEOUT_JITTER_MS,
        ensures
            *final(self) == old(self).spec_add_pts(jitter),
            final(self).wf(),
            final(self).life == old(self).life,
    {
        self.streak = self.streak + 1;
        assert(self.max_buttons * self.max_buttons <= 100000 * 100000) by (nonlinear_arith)
            requires
                self.max_buttons <= 100000,
        ;
        if self.streak > self.max_buttons * self.max_buttons * 3 {
            self.max_buttons = self.max_buttons + 1;
        }
        self.pts = self.pts + self.streak;
        let shrunk = self.button_size * 95 / 100;
        self.button_size = if shrunk >= MIN_BUTTON_SIZE { shrunk } else { MIN_BUTTON_SIZE };
        let cut = self.timeout_ms - jitter;
        self.timeout_ms = if cut >= MIN_TIMEOUT_MS { cut } else { MIN_TIMEOUT_MS };
    }

    /// Applies a hit, drawing the timeout reduction at random: whatever the
    /// draw, the streak, score and concurrency cap move exactly as
    /// `spec_add_pts` says, lives are untouched, and the timeout shrinks by
    /// less than the jitter bound, never below its floor.
    pub fn add_pts(&mut self)
        requires
            old(self).wf(),
            old(self).add_pts_fits(),
        ensures
            exists|j: u64| j < MAX_TIMEOUT_JITTER_MS && *final(self) == old(self).spec_add_pts(j),
            final(self).wf(),
            final(self).life == old(self).life,
            final(self).streak == old(self).streak + 1,
            final(self).pts == old(self).pts + old(self).streak + 1,
            final(self).timeout_ms <= old(self).timeout_ms,
            final(self).timeout_ms + MAX_TIMEOUT_JITTER_MS > old(self).timeout_ms,
    {
        let jitter = crate::random::random_below(MAX_TIMEOUT_JITTER_MS);
        self.add_pts_with(jitter);
        proof {
            assert(*self == old(self).spec_add_pts(jitter) && jitter < MAX_TIMEOUT_JITTER_MS);
        }
    }
}

/// The state after a run of consecutive hits from `s`, one hit per entry of
/// `jitters` (each entry the random timeout reduction of that hit).
pub open spec fn iter_add_pts(s: GameState, jitters: Seq<u64>) -> GameState
    decreases jitters.len(),
{
    if jitters.len() == 0 {
        s
    } else {
        iter_add_pts(s, jitters.drop_last()).spec_add_pts(jitters.last())
    }
}

/// Up to ten hits in a row from a fresh round raise the concurrency cap
/// exactly once: with the cap at 1 the threshold is `1 * 1 * 3`, so the
/// fourth hit is the first whose streak exceeds it and raises the cap to 2;
/// from then on the threshold is 12, which a streak of at most 10 never
/// exceeds, so the cap stays at 2 through the tenth hit. Lives are never
/// touched by a hit, and the streak counts the hits.
pub proof fn lemma_streak_raises_cap_once(jitters: Seq<u64>)
    requires
        jitters.len() <= 10,
    ensures
        iter_add_pts(GameState::spec_new(), jitters).streak == jitters.len(),
        iter_add_pts(GameState::spec_new(), jitters).max_buttons == if jitters.len() <= 3 {
            1int
        } else {
            2int
        },
        iter_add_pts(GameState::spec_new(), jitters).life == START_LIVES,
    decreases jitters.len(),
{
    if jitters.len() > 0 {
        lemma_streak_raises_cap_once(jitters.drop_last());
    }
}

} // verus!
