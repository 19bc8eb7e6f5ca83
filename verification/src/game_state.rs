//! The top-level phase of the game and the transitions between phases.

use vstd::prelude::*;

verus! {

/// The phase the game is in. Exactly one phase is active at a time, and the
/// per-tick systems look at it to decide whether they run.
#[derive(Clone, Copy, Debug, PartialEq, Eq, Hash, Structural)]
pub enum GameState {
    MainMenu,
    Loading,
    Playing,
    UpgradeSelection,
    GameOver,
}

/// What can move the game from one phase to another.
#[derive(Clone, Copy, Debug, PartialEq, Eq, Structural)]
pub enum PhaseTrigger {
    /// "Play" was chosen in the main menu.
    PlayPressed,
    /// Everything the run needs has been loaded and the player has been spawned.
    AssetsReady,
    /// The player reached the next level.
    LeveledUp,
    /// An upgrade was chosen and applied.
    UpgradeChosen,
    /// The player's health reached zero.
    PlayerDied,
    /// Restart was requested on the end screen.
    RestartPressed,
}

/// A transition that a system has asked for and that takes effect between ticks.
/// Asking again before then replaces the earlier request.
#[derive(Clone, Copy, Debug, PartialEq, Eq, Structural)]
pub struct NextState {
    pub pending: Option<GameState>,
}

impl GameState {
    /// The phase that follows `self` on `trigger`; a trigger that does not
    /// belong to the phase leaves it unchanged.
    pub open spec fn after(self, trigger: PhaseTrigger) -> GameState {
        match (self, trigger) {
            (GameState::MainMenu, PhaseTrigger::PlayPressed) => GameState::Loading,
            (GameState::Loading, PhaseTrigger::AssetsReady) => GameState::Playing,
            (GameState::Playing, PhaseTrigger::LeveledUp) => GameState::UpgradeSelection,
            (GameState::Playing, PhaseTrigger::PlayerDied) => GameState::GameOver,
            (GameState::UpgradeSelection, PhaseTrigger::UpgradeChosen) => GameState::Playing,
            (GameState::GameOver, PhaseTrigger::RestartPressed) => GameState::Loading,
            _ => self,
        }
    }

    /// `to` can be reached from `self` in one step.
    pub open spec fn leads_to(self, to: GameState) -> bool {
        match (self, to) {
            (GameState::MainMenu, GameState::Loading) => true,
            (GameState::Loading, GameState::Playing) => true,
            (GameState::Playing, GameState::UpgradeSelection) => true,
            (GameState::Playing, GameState::GameOver) => true,
            (GameState::UpgradeSelection, GameState::Playing) => true,
            (GameState::GameOver, GameState::Loading) => true,
            _ => false,
        }
    }

    /// The phase after `trigger`.
    pub fn on(self, trigger: PhaseTrigger) -> (next: GameState)
        ensures
            next == self.after(trigger),
    {
        match (self, trigger) {
            (GameState::MainMenu, PhaseTrigger::PlayPressed) => GameState::Loading,
            (GameState::Loading, PhaseTrigger::AssetsReady) => GameState::Playing,
            (GameState::Playing, PhaseTrigger::LeveledUp) => GameState::UpgradeSelection,
            (GameState::Playing, PhaseTrigger::PlayerDied) => GameState::GameOver,
            (GameState::UpgradeSelection, PhaseTrigger::UpgradeChosen) => GameState::Playing,
            (GameState::GameOver, PhaseTrigger::RestartPressed) => GameState::Loading,
            _ => self,
        }
    }

    /// Whether `to` can be reached from this phase in one step.
    pub fn can_enter(self, to: GameState) -> (ok: bool)
        ensures
            ok == self.leads_to(to),
    {
        match (self, to) {
            (GameState::MainMenu, GameState::Loading) => true,
            (GameState::Loading, GameState::Playing) => true,
            (GameState::Playing, GameState::UpgradeSelection) => true,
            (GameState::Playing, GameState::GameOver) => true,
            (GameState::UpgradeSelection, GameState::Playing) => true,
            (GameState::GameOver, GameState::Loading) => true,
            _ => false,
        }
    }

    /// Whether spawning, movement, weapons and combat run in this phase.
    pub fn runs_simulation(self) -> (runs: bool)
        ensures
            runs == (self == GameState::Playing),
    {
        match self {
            GameState::Playing => true,
            _ => false,
        }
    }

    /// Whether the upgrade choice is being offered in this phase.
    pub fn awaits_upgrade(self) -> (waits: bool)
        ensures
            waits == (self == GameState::UpgradeSelection),
    {
        match self {
            GameState::UpgradeSelection => true,
            _ => false,
        }
    }

    /// Whether the main menu is shown in this phase.
    pub fn shows_menu(self) -> (shows: bool)
        ensures
            shows == (self == GameState::MainMenu),
    {
        match self {
            GameState::MainMenu => true,
            _ => false,
        }
    }

    /// Whether the run is being prepared in this phase.
    pub fn prepares_run(self) -> (prepares: bool)
        ensures
            prepares == (self == GameState::Loading),
    {
        match self {
            GameState::Loading => true,
            _ => false,
        }
    }

    /// Whether a restart is waited for in this phase.
    pub fn awaits_restart(self) -> (waits: bool)
        ensures
            waits == (self == GameState::GameOver),
    {
        match self {
            GameState::GameOver => true,
            _ => false,
        }
    }

    /// Whether entering this phase removes every entity of the run and zeroes the score.
    pub fn clears_run_on_entry(self) -> (clears: bool)
        ensures
            clears == (self == GameState::Loading || self == GameState::GameOver),
    {
        match self {
            GameState::Loading | GameState::GameOver => true,
            _ => false,
        }
    }

    /// Carries out the pending request, if it names a phase that can be
    /// entered from here, and clears it either way.
    pub fn apply(self, next: &mut NextState) -> (now: GameState)
        ensures
            final(next).pending is None,
            now == match old(next).pending {
                Some(to) => if self.leads_to(to) {
                    to
                } else {
                    self
                },
                None => self,
            },
    {
        let now = match next.pending {
            Some(to) => if self.can_enter(to) {
                to
            } else {
                self
            },
            None => self,
        };
        next.pending = None;
        now
    }
}

impl Default for GameState {
    fn default() -> (s: Self)
        ensures
            s == GameState::MainMenu,
    {
        GameState::MainMenu
    }
}

impl NextState {
    /// No transition requested.
    pub fn new() -> (n: NextState)
        ensures
            n.pending is None,
    {
        NextState { pending: None }
    }

    /// Requests a transition to `state`.
    pub fn set(&mut self, state: GameState)
        ensures
            final(self).pending == Some(state),
    {
        self.pending = Some(state);
    }
}

/// Every trigger either leaves the phase alone or takes one of the allowed steps.
pub proof fn lemma_triggers_take_allowed_steps(state: GameState, trigger: PhaseTrigger)
    ensures
        state.after(trigger) == state || state.leads_to(state.after(trigger)),
{
}

/// Every allowed step is taken by some trigger, so the triggers and the
/// allowed steps describe the same machine.
pub proof fn lemma_allowed_steps_have_triggers(from: GameState, to: GameState)
    requires
        from.leads_to(to),
    ensures
        exists|trigger: PhaseTrigger| from.after(trigger) == to,
{
    let trigger = match (from, to) {
        (GameState::MainMenu, _) => PhaseTrigger::PlayPressed,
        (GameState::Loading, _) => PhaseTrigger::AssetsReady,
        (GameState::Playing, GameState::UpgradeSelection) => PhaseTrigger::LeveledUp,
        (GameState::Playing, _) => PhaseTrigger::PlayerDied,
        (GameState::UpgradeSelection, _) => PhaseTrigger::UpgradeChosen,
        (GameState::GameOver, _) => PhaseTrigger::RestartPressed,
    };
    assert(from.after(trigger) == to);
}

/// No phase leads to itself and the main menu is never entered again.
pub proof fn lemma_phase_graph(from: GameState, to: GameState)
    ensures
        !from.leads_to(from),
        !from.leads_to(GameState::MainMenu),
        from.leads_to(to) && to == GameState::GameOver ==> from == GameState::Playing,
        from.leads_to(to) && to == GameState::UpgradeSelection ==> from == GameState::Playing,
{
}

/// The phases do not overlap: in each phase exactly one of the five groups
/// of systems is active.
pub proof fn lemma_one_group_runs(state: GameState)
    ensures
        ({
            let menu: int = if state == GameState::MainMenu { 1 } else { 0 };
            let loading: int = if state == GameState::Loading { 1 } else { 0 };
            let playing: int = if state == GameState::Playing { 1 } else { 0 };
            let upgrade: int = if state == GameState::UpgradeSelection { 1 } else { 0 };
            let over: int = if state == GameState::GameOver { 1 } else { 0 };
            menu + loading + playing + upgrade + over == 1
        }),
{
}

} // verus!
