use particle_sandbox::input::ButtonState::{Held, JustPressed, JustReleased, Released};
use particle_sandbox::input::{Action, ActionState, ButtonState, ACTION_COUNT};

const ALL: [Action; 17] = [
    Action::SpawnParticle,
    Action::PositiveEmitter,
    Action::NegativeEmitter,
    Action::Deleter,
    Action::SlowDeleter,
    Action::Attractor,
    Action::Repulsor,
    Action::PositiveEater,
    Action::NegativeEater,
    Action::Pusher,
    Action::DespawnModifier,
    Action::DespawnAllModifier,
    Action::RaiseParticleLimit,
    Action::LowerParticleLimit,
    Action::ToggleInertia,
    Action::ToggleWrap,
    Action::SuspendRepulsion,
];

#[test]
fn every_action_has_its_own_place() {
    assert_eq!(ACTION_COUNT, ALL.len());
    for (place, action) in ALL.iter().enumerate() {
        assert_eq!(action.index(), place);
    }
}

#[test]
fn a_new_state_has_everything_released() {
    let actions = ActionState::new();
    for action in ALL.iter() {
        assert_eq!(actions.state(action), ButtonState::Released);
        assert!(!actions.pressed(action));
        assert!(!actions.just_pressed(action));
        assert!(!actions.just_released(action));
    }
}

#[test]
fn setting_one_action_leaves_the_others() {
    for changed in ALL.iter() {
        let mut actions = ActionState::new();
        actions.set(*changed, ButtonState::Held);
        for action in ALL.iter() {
            let expected = if action == changed { ButtonState::Held } else { ButtonState::Released };
            assert_eq!(actions.state(action), expected);
        }
    }
}

#[test]
fn button_states_answer_the_three_questions() {
    let mut actions = ActionState::new();
    let action = Action::Pusher;
    actions.set(action, ButtonState::JustPressed);
    assert!(actions.pressed(&action) && actions.just_pressed(&action) && !actions.just_released(&action));
    actions.set(action, ButtonState::Held);
    assert!(actions.pressed(&action) && !actions.just_pressed(&action) && !actions.just_released(&action));
    actions.set(action, ButtonState::JustReleased);
    assert!(!actions.pressed(&action) && !actions.just_pressed(&action) && actions.just_released(&action));
    actions.set(action, ButtonState::Released);
    assert!(!actions.pressed(&action) && !actions.just_pressed(&action) && !actions.just_released(&action));
    assert!(ButtonState::JustPressed.pressed() && ButtonState::Held.pressed());
    assert!(!ButtonState::JustReleased.pressed() && !ButtonState::Released.pressed());
}

#[test]
fn flags_make_the_four_states() {
    assert_eq!(ButtonState::from_flags(false, false), ButtonState::Released);
    assert_eq!(ButtonState::from_flags(true, false), ButtonState::JustPressed);
    assert_eq!(ButtonState::from_flags(true, true), ButtonState::Held);
    assert_eq!(ButtonState::from_flags(false, true), ButtonState::JustReleased);
    assert_eq!(ButtonState::from_input(false, false, false), ButtonState::Released);
    assert_eq!(ButtonState::from_input(true, true, false), ButtonState::JustPressed);
    assert_eq!(ButtonState::from_input(true, false, false), ButtonState::Held);
    assert_eq!(ButtonState::from_input(false, false, true), ButtonState::JustReleased);
    assert_eq!(ButtonState::from_input(true, true, true), ButtonState::Held);
    for state in [
        ButtonState::Released,
        ButtonState::JustPressed,
        ButtonState::Held,
        ButtonState::JustReleased,
    ] {
        assert_eq!(ButtonState::from_flags(state.pressed(), state.was_down()), state);
    }
}

#[test]
fn two_bindings_act_as_one_button() {
    let table = [
        (Released, Released, Released),
        (Released, JustPressed, JustPressed),
        (Released, Held, Held),
        (Released, JustReleased, JustReleased),
        (JustPressed, JustPressed, JustPressed),
        (JustPressed, Held, Held),
        (JustPressed, JustReleased, Held),
        (Held, Held, Held),
        (Held, JustReleased, Held),
        (JustReleased, JustReleased, JustReleased),
    ];
    for (one, other, both) in table {
        assert_eq!(one.either(other), both);
        assert_eq!(other.either(one), both);
    }
}
