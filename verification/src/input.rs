//! The logical actions and what is known of each of them in one frame.

use vstd::prelude::*;

verus! {

/// A logical action that the user can trigger.
#[derive(Clone, Copy, Debug, PartialEq, Eq, Hash, Structural)]
pub enum Action {
    SpawnParticle,
    PositiveEmitter,
    NegativeEmitter,
    Deleter,
    SlowDeleter,
    Attractor,
    Repulsor,
    PositiveEater,
    NegativeEater,
    Pusher,
    DespawnModifier,
    DespawnAllModifier,
    RaiseParticleLimit,
    LowerParticleLimit,
    ToggleInertia,
    ToggleWrap,
    SuspendRepulsion,
}

/// How many actions there are.
pub const ACTION_COUNT: usize = 17;

impl Action {
    /// The place of the action in the list of all actions.
    pub open spec fn index_spec(self) -> int {
        match self {
            Action::SpawnParticle => 0,
            Action::PositiveEmitter => 1,
            Action::NegativeEmitter => 2,
            Action::Deleter => 3,
            Action::SlowDeleter => 4,
            Action::Attractor => 5,
            Action::Repulsor => 6,
            Action::PositiveEater => 7,
            Action::NegativeEater => 8,
            Action::Pusher => 9,
            Action::DespawnModifier => 10,
            Action::DespawnAllModifier => 11,
            Action::RaiseParticleLimit => 12,
            Action::LowerParticleLimit => 13,
            Action::ToggleInertia => 14,
            Action::ToggleWrap => 15,
            Action::SuspendRepulsion => 16,
        }
    }

    /// The place of the action in the list of all actions.
    pub fn index(&self) -> (index: usize)
        ensures
            index == self.index_spec(),
            index < ACTION_COUNT,
    {
        match self {
            Action::SpawnParticle => 0,
            Action::PositiveEmitter => 1,
            Action::NegativeEmitter => 2,
            Action::Deleter => 3,
            Action::SlowDeleter => 4,
            Action::Attractor => 5,
            Action::Repulsor => 6,
            Action::PositiveEater => 7,
            Action::NegativeEater => 8,
            Action::Pusher => 9,
            Action::DespawnModifier => 10,
            Action::DespawnAllModifier => 11,
            Action::RaiseParticleLimit => 12,
            Action::LowerParticleLimit => 13,
            Action::ToggleInertia => 14,
            Action::ToggleWrap => 15,
            Action::SuspendRepulsion => 16,
        }
    }
}

/// What a button does in one frame.
#[derive(Clone, Copy, Debug, PartialEq, Eq, Structural)]
pub enum ButtonState {
    /// Up, and was up the frame before.
    Released,
    /// Down, and was up the frame before.
    JustPressed,
    /// Down, and was down the frame before.
    Held,
    /// Up, and was down the frame before.
    JustReleased,
}

impl ButtonState {
    /// Whether the button is down.
    pub open spec fn pressed_spec(self) -> bool {
        self == ButtonState::JustPressed || self == ButtonState::Held
    }

    /// Whether the button is down.
    #[verifier::when_used_as_spec(pressed_spec)]
    pub fn pressed(self) -> (down: bool)
        ensures
            down == self.pressed_spec(),
    {
        match self {
            ButtonState::JustPressed => true,
            ButtonState::Held => true,
            _ => false,
        }
    }

    /// Whether the button was down the frame before.
    pub open spec fn was_down_spec(self) -> bool {
        self == ButtonState::Held || self == ButtonState::JustReleased
    }

    /// Whether the button was down the frame before.
    #[verifier::when_used_as_spec(was_down_spec)]
    pub fn was_down(self) -> (down: bool)
        ensures
            down == self.was_down_spec(),
    {
        match self {
            ButtonState::Held => true,
            ButtonState::JustReleased => true,
            _ => false,
        }
    }

    /// The state of a button that is down or not, and was down or not the frame before.
    pub open spec fn from_flags_spec(down: bool, was_down: bool) -> ButtonState {
        if down {
            if was_down {
                ButtonState::Held
            } else {
                ButtonState::JustPressed
            }
        } else {
            if was_down {
                ButtonState::JustReleased
            } else {
                ButtonState::Released
            }
        }
    }

    /// The state of a button that is down or not, and was down or not the frame before.
    #[verifier::when_used_as_spec(from_flags_spec)]
    pub fn from_flags(down: bool, was_down: bool) -> (state: ButtonState)
        ensures
            state == ButtonState::from_flags_spec(down, was_down),
            state.pressed_spec() == down,
            state.was_down_spec() == was_down,
    {
        if down {
            if was_down {
                ButtonState::Held
            } else {
                ButtonState::JustPressed
            }
        } else {
            if was_down {
                ButtonState::JustReleased
            } else {
                ButtonState::Released
            }
        }
    }

    /// The state of a button of which an input device says whether it is down, whether
    /// it went down in this frame and whether it went up in this frame: it was down the
    /// frame before if it is down and did not just go down, or if it just went up.
    pub fn from_input(pressed: bool, just_pressed: bool, just_released: bool) -> (state: ButtonState)
        ensures
            state == ButtonState::from_flags_spec(
                pressed,
                (pressed && !just_pressed) || just_released,
            ),
    {
        ButtonState::from_flags(pressed, (pressed && !just_pressed) || just_released)
    }

    /// The state of an action that two buttons are bound to: down while either is down,
    /// and down the frame before if either was.
    pub fn either(self, other: ButtonState) -> (state: ButtonState)
        ensures
            state == ButtonState::from_flags_spec(
                self.pressed_spec() || other.pressed_spec(),
                self.was_down_spec() || other.was_down_spec(),
            ),
    {
        ButtonState::from_flags(self.pressed() || other.pressed(), self.was_down() || other.was_down())
    }
}

/// The state of every action in one frame.
pub struct ActionState {
    states: [ButtonState; 17],
}

impl ActionState {
    /// The state of `action`.
    pub closed spec fn state_spec(self, action: Action) -> ButtonState {
        self.states@[action.index_spec()]
    }

    /// Whether `action` is down.
    pub open spec fn pressed_spec(self, action: Action) -> bool {
        self.state_spec(action).pressed_spec()
    }

    /// Whether `action` went down in this frame.
    pub open spec fn just_pressed_spec(self, action: Action) -> bool {
        self.state_spec(action) == ButtonState::JustPressed
    }

    /// Whether `action` went up in this frame.
    pub open spec fn just_released_spec(self, action: Action) -> bool {
        self.state_spec(action) == ButtonState::JustReleased
    }

    /// Every action released.
    pub fn new() -> (actions: ActionState)
        ensures
            forall|action: Action| actions.state_spec(action) == ButtonState::Released,
    {
        ActionState { states: [ButtonState::Released; 17] }
    }

    /// Records what `action` does in this frame.
    pub fn set(&mut self, action: Action, state: ButtonState)
        ensures
            final(self).state_spec(action) == state,
            forall|other: Action|
                other != action ==> final(self).state_spec(other) == old(self).state_spec(other),
    {
        let index: usize = action.index();
        self.states[index] = state;
    }

    /// The state of `action`.
    pub fn state(&self, action: &Action) -> (state: ButtonState)
        ensures
            state == self.state_spec(*action),
    {
        self.states[action.index()]
    }

    /// Whether `action` is down.
    pub fn pressed(&self, action: &Action) -> (down: bool)
        ensures
            down == self.pressed_spec(*action),
    {
        self.state(action).pressed()
    }

    /// Whether `action` went down in this frame.
    pub fn just_pressed(&self, action: &Action) -> (down: bool)
        ensures
            down == self.just_pressed_spec(*action),
    {
        match self.state(action) {
            ButtonState::JustPressed => true,
            _ => false,
        }
    }

    /// Whether `action` went up in this frame.
    pub fn just_released(&self, action: &Action) -> (up: bool)
        ensures
            up == self.just_released_spec(*action),
    {
        match self.state(action) {
            ButtonState::JustReleased => true,
            _ => false,
        }
    }
}

} // verus!
