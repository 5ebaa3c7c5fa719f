use vstd::prelude::*;

verus! {

/// The screens of the application; exactly one is active at a time.
#[derive(Clone, Copy, Debug, PartialEq, Eq, Hash, Structural)]
pub enum AppState {
    MainMenu,
    InGame,
    GameOver,
    BetweenLevels,
}

/// The transitions the application is wired for: play from any menu, lose,
/// win or leave a game, and go back to the main menu from the end screens.
/// Entering a game again from an end screen regenerates the level.
pub open spec fn transition_allowed(from: AppState, to: AppState) -> bool {
    match (from, to) {
        (AppState::MainMenu, AppState::InGame) => true,
        (AppState::InGame, AppState::GameOver) => true,
        (AppState::InGame, AppState::BetweenLevels) => true,
        (AppState::InGame, AppState::MainMenu) => true,
        (AppState::GameOver, AppState::MainMenu) => true,
        (AppState::GameOver, AppState::InGame) => true,
        (AppState::BetweenLevels, AppState::MainMenu) => true,
        (AppState::BetweenLevels, AppState::InGame) => true,
        _ => false,
    }
}

/// Whether the application is wired to go from `from` to `to`.
pub fn is_transition_allowed(from: AppState, to: AppState) -> (r: bool)
    ensures
        r == transition_allowed(from, to),
{
    match (from, to) {
        (AppState::MainMenu, AppState::InGame) => true,
        (AppState::InGame, AppState::GameOver) => true,
        (AppState::InGame, AppState::BetweenLevels) => true,
        (AppState::InGame, AppState::MainMenu) => true,
        (AppState::GameOver, AppState::MainMenu) => true,
        (AppState::GameOver, AppState::InGame) => true,
        (AppState::BetweenLevels, AppState::MainMenu) => true,
        (AppState::BetweenLevels, AppState::InGame) => true,
        _ => false,
    }
}

/// The active state and the transition asked for during the current tick,
/// which takes effect at the end of the tick. Only the first request of a
/// tick is kept.
#[derive(Clone, Copy, Debug, PartialEq, Eq, Structural)]
pub struct StateMachine {
    pub current: AppState,
    pub queued: Option<AppState>,
}

/// The queued state after asking for `to`: taken when nothing is queued
/// yet and the transition is wired, otherwise the request is a no-op.
pub open spec fn after_request(m: StateMachine, to: AppState) -> StateMachine {
    if m.queued is None && transition_allowed(m.current, to) {
        StateMachine { current: m.current, queued: Some(to) }
    } else {
        m
    }
}

impl StateMachine {
    /// The machine at start-up: on the main menu, nothing queued.
    pub fn new() -> (r: StateMachine)
        ensures
            r.current == AppState::MainMenu,
            r.queued is None,
    {
        StateMachine { current: AppState::MainMenu, queued: None }
    }

    /// Asks for a transition to `to` at the end of the tick.
    pub fn request(&mut self, to: AppState)
        ensures
            *final(self) == after_request(*old(self), to),
    {
        if self.queued.is_none() && is_transition_allowed(self.current, to) {
            self.queued = Some(to);
        }
    }

    /// Takes the queued transition, if any, and returns the state that was
    /// left and the state that was entered.
    pub fn apply(&mut self) -> (r: Option<(AppState, AppState)>)
        ensures
            old(self).queued matches Some(to) ==> r == Some((old(self).current, to))
                && final(self).current == to,
            old(self).queued is None ==> r is None && final(self).current == old(self).current,
            final(self).queued is None,
    {
        match self.queued {
            Some(to) => {
                let from = self.current;
                self.current = to;
                self.queued = None;
                Some((from, to))
            },
            None => None,
        }
    }
}

/// The buttons of the menus.
#[derive(Clone, Copy, Debug, PartialEq, Eq, Structural)]
pub enum MenuButton {
    Play,
    BackToMainMenu,
    Quit,
}

/// What clicking a menu button asks of the application.
#[derive(Clone, Copy, Debug, PartialEq, Eq, Structural)]
pub enum MenuAction {
    Switch(AppState),
    Exit,
}

/// The action of a clicked button: play enters a game, back returns to the
/// main menu, quit leaves the application.
pub open spec fn action_of(button: MenuButton) -> MenuAction {
    match button {
        MenuButton::Play => MenuAction::Switch(AppState::InGame),
        MenuButton::BackToMainMenu => MenuAction::Switch(AppState::MainMenu),
        MenuButton::Quit => MenuAction::Exit,
    }
}

/// Handles a click on `button`: a switch is asked of the state machine,
/// and `true` is returned where the application is to exit.
pub fn button_press_system(machine: &mut StateMachine, button: MenuButton) -> (exit: bool)
    ensures
        exit == (action_of(button) == MenuAction::Exit),
        action_of(button) matches MenuAction::Switch(to) ==> *final(machine) == after_request(
            *old(machine),
            to,
        ),
        action_of(button) == MenuAction::Exit ==> *final(machine) == *old(machine),
{
    match button {
        MenuButton::Play => {
            machine.request(AppState::InGame);
            false
        },
        MenuButton::BackToMainMenu => {
            machine.request(AppState::MainMenu);
            false
        },
        MenuButton::Quit => true,
    }
}

/// Leaves a game for the main menu when escape was just pressed.
pub fn back_to_main_menu_controls(machine: &mut StateMachine, escape_just_pressed: bool)
    ensures
        escape_just_pressed && old(machine).current == AppState::InGame ==> *final(machine)
            == after_request(*old(machine), AppState::MainMenu),
        !(escape_just_pressed && old(machine).current == AppState::InGame) ==> *final(machine)
            == *old(machine),
{
    if machine.current == AppState::InGame && escape_just_pressed {
        machine.request(AppState::MainMenu);
    }
}

/// A transition is taken at most once per tick: once a request is queued,
/// asking again, for the same or another state, changes nothing.
pub proof fn lemma_request_taken_once(m: StateMachine, first: AppState, again: AppState)
    requires
        after_request(m, first).queued is Some,
    ensures
        after_request(after_request(m, first), again) == after_request(m, first),
{
}

} // verus!
