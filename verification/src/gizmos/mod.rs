//! The effectors that the user places on the plane, and how they are placed and removed.

use vstd::prelude::*;
use crate::draw_properties::{gizmo_draw_properties, gizmo_draw_properties_spec};
use crate::filter::{lemma_filter_none, lemma_filter_step};
use crate::gizmos::attractor::Attractor;
use crate::gizmos::deleter::{Deleter, SlowDeleter};
use crate::gizmos::eater::{Dormant, Eater};
use crate::gizmos::emitter::Emitter;
use crate::gizmos::pusher::Pusher;
use crate::heading::Heading;
use crate::input::{Action, ActionState, ButtonState};
use crate::movement::Movement;
use crate::topology::{
    find_entity_by_cursor, lemma_nearest_is_first_minimum, nearest_within_radius_spec,
    WindowDimensions, CLICK_RADIUS,
};
use crate::vector::Vec2;

pub mod attractor;
pub mod deleter;
pub mod eater;
pub mod emitter;
pub mod pusher;

verus! {

/// The kinds of gizmo that can be placed.
#[derive(Clone, Copy, Debug, PartialEq, Eq, Structural)]
pub enum GizmoType {
    Emitter,
    Deleter,
    SlowDeleter,
    Attractor,
    Repulsor,
    Pusher,
    Eater,
}

/// How a gizmo comes onto the plane.
#[derive(Clone, Copy, Debug, PartialEq, Eq, Structural)]
pub enum PlacementStyle {
    /// Placed by the press of its action.
    Instant,
    /// Spawned by the press, turned towards the cursor while the action is held, and
    /// placed by the release.
    WithRotation,
}

/// What a gizmo holds besides its place: the state that its kind works with.
#[derive(Clone, Copy, Debug, PartialEq, Eq, Structural)]
pub enum GizmoComponent {
    Emitter(Emitter),
    Deleter(Deleter),
    SlowDeleter(SlowDeleter),
    Attractor(Attractor),
    Repulsor(Attractor),
    Pusher(Pusher),
    Eater(Eater),
}

impl GizmoComponent {
    /// The kind of gizmo that holds this.
    pub open spec fn gizmo_type_spec(self) -> GizmoType {
        match self {
            GizmoComponent::Emitter(_) => GizmoType::Emitter,
            GizmoComponent::Deleter(_) => GizmoType::Deleter,
            GizmoComponent::SlowDeleter(_) => GizmoType::SlowDeleter,
            GizmoComponent::Attractor(_) => GizmoType::Attractor,
            GizmoComponent::Repulsor(_) => GizmoType::Repulsor,
            GizmoComponent::Pusher(_) => GizmoType::Pusher,
            GizmoComponent::Eater(_) => GizmoType::Eater,
        }
    }

    /// The kind of gizmo that holds this.
    #[verifier::when_used_as_spec(gizmo_type_spec)]
    pub fn gizmo_type(self) -> (gizmo_type: GizmoType)
        ensures
            gizmo_type == self.gizmo_type_spec(),
    {
        match self {
            GizmoComponent::Emitter(_) => GizmoType::Emitter,
            GizmoComponent::Deleter(_) => GizmoType::Deleter,
            GizmoComponent::SlowDeleter(_) => GizmoType::SlowDeleter,
            GizmoComponent::Attractor(_) => GizmoType::Attractor,
            GizmoComponent::Repulsor(_) => GizmoType::Repulsor,
            GizmoComponent::Pusher(_) => GizmoType::Pusher,
            GizmoComponent::Eater(_) => GizmoType::Eater,
        }
    }
}

/// A gizmo on the plane.
#[derive(Clone, Copy, Debug, PartialEq, Eq, Structural)]
pub struct PlacedGizmo {
    /// The state of the gizmo, which says of what kind it is.
    pub component: GizmoComponent,
    pub position: Vec2,
    /// Which way the gizmo is turned.
    pub rotation: Heading,
    /// The sign of a polar gizmo; `false` for the others.
    pub positive: bool,
    /// Set from the press that spawns a gizmo with a rotation until the release that
    /// commits it.
    pub being_placed: bool,
    /// The movement of a gizmo that moves.
    pub movement: Option<Movement>,
    /// The rest of a gizmo that rests.
    pub dormant: Option<Dormant>,
    /// How large the gizmo is drawn, in steps.
    pub scale: u64,
}

impl GizmoType {
    /// What a new gizmo of the kind holds.
    pub open spec fn component_spec(self) -> GizmoComponent {
        match self {
            GizmoType::Emitter => GizmoComponent::Emitter(
                Emitter {
                    interval: crate::gizmos::emitter::EMITTER_INTERVAL,
                    time_since_emitting: 0,
                },
            ),
            GizmoType::Deleter => GizmoComponent::Deleter(
                Deleter { radius: crate::gizmos::deleter::DELETER_RADIUS },
            ),
            GizmoType::SlowDeleter => GizmoComponent::SlowDeleter(
                SlowDeleter {
                    radius: crate::gizmos::deleter::DELETER_RADIUS,
                    rate: crate::gizmos::deleter::SLOW_DELETER_RATE,
                    charge: 0,
                },
            ),
            GizmoType::Attractor => GizmoComponent::Attractor(
                Attractor {
                    force: crate::gizmos::attractor::ATTRACTOR_FORCE,
                    fall_off: crate::gizmos::attractor::ATTRACTOR_FALL_OFF,
                    proximity_cap: crate::gizmos::attractor::ATTRACTOR_PROXIMITY_CAP,
                },
            ),
            GizmoType::Repulsor => GizmoComponent::Repulsor(
                Attractor {
                    force: crate::gizmos::attractor::REPULSOR_FORCE,
                    fall_off: crate::gizmos::attractor::REPULSOR_FALL_OFF,
                    proximity_cap: crate::gizmos::attractor::REPULSOR_PROXIMITY_CAP,
                },
            ),
            GizmoType::Pusher => GizmoComponent::Pusher(Pusher),
            GizmoType::Eater => GizmoComponent::Eater(
                Eater { eaten: 0, target: crate::gizmos::eater::EATER_TARGET },
            ),
        }
    }

    /// What a new gizmo of the kind holds.
    pub fn component(self) -> (component: GizmoComponent)
        ensures
            component == self.component_spec(),
            component.gizmo_type_spec() == self,
    {
        match self {
            GizmoType::Emitter => GizmoComponent::Emitter(Emitter::default()),
            GizmoType::Deleter => GizmoComponent::Deleter(Deleter::default()),
            GizmoType::SlowDeleter => GizmoComponent::SlowDeleter(SlowDeleter::default()),
            GizmoType::Attractor => GizmoComponent::Attractor(Attractor::default()),
            GizmoType::Repulsor => GizmoComponent::Repulsor(Attractor::repulsor()),
            GizmoType::Pusher => GizmoComponent::Pusher(Pusher),
            GizmoType::Eater => GizmoComponent::Eater(Eater::default()),
        }
    }

    /// Whether gizmos of the kind move.
    pub open spec fn has_movement_spec(self) -> bool {
        self == GizmoType::Eater
    }

    /// Whether gizmos of the kind move.
    #[verifier::when_used_as_spec(has_movement_spec)]
    pub fn has_movement(self) -> (moves: bool)
        ensures
            moves == self.has_movement_spec(),
    {
        match self {
            GizmoType::Eater => true,
            _ => false,
        }
    }

    /// How gizmos of the kind come onto the plane.
    pub open spec fn placement_style_spec(self) -> PlacementStyle {
        if self == GizmoType::Pusher {
            PlacementStyle::WithRotation
        } else {
            PlacementStyle::Instant
        }
    }

    /// How gizmos of the kind come onto the plane.
    #[verifier::when_used_as_spec(placement_style_spec)]
    pub fn placement_style(self) -> (style: PlacementStyle)
        ensures
            style == self.placement_style_spec(),
    {
        match self {
            GizmoType::Pusher => PlacementStyle::WithRotation,
            _ => PlacementStyle::Instant,
        }
    }

    /// Whether the kind comes in a positive and a negative variant.
    pub open spec fn is_polar_spec(self) -> bool {
        self == GizmoType::Emitter || self == GizmoType::Eater
    }

    /// Whether the kind comes in a positive and a negative variant.
    #[verifier::when_used_as_spec(is_polar_spec)]
    pub fn is_polar(self) -> (polar: bool)
        ensures
            polar == self.is_polar_spec(),
    {
        match self {
            GizmoType::Emitter => true,
            GizmoType::Eater => true,
            _ => false,
        }
    }

    /// The action that places and removes the variant of the kind.
    pub open spec fn action_spec(self, positive: bool) -> Action {
        match self {
            GizmoType::Emitter => if positive {
                Action::PositiveEmitter
            } else {
                Action::NegativeEmitter
            },
            GizmoType::Deleter => Action::Deleter,
            GizmoType::SlowDeleter => Action::SlowDeleter,
            GizmoType::Attractor => Action::Attractor,
            GizmoType::Repulsor => Action::Repulsor,
            GizmoType::Pusher => Action::Pusher,
            GizmoType::Eater => if positive {
                Action::PositiveEater
            } else {
                Action::NegativeEater
            },
        }
    }

    /// The action that places and removes the variant of the kind.
    #[verifier::when_used_as_spec(action_spec)]
    pub fn action(self, positive: bool) -> (action: Action)
        ensures
            action == self.action_spec(positive),
    {
        match self {
            GizmoType::Emitter => if positive {
                Action::PositiveEmitter
            } else {
                Action::NegativeEmitter
            },
            GizmoType::Deleter => Action::Deleter,
            GizmoType::SlowDeleter => Action::SlowDeleter,
            GizmoType::Attractor => Action::Attractor,
            GizmoType::Repulsor => Action::Repulsor,
            GizmoType::Pusher => Action::Pusher,
            GizmoType::Eater => if positive {
                Action::PositiveEater
            } else {
                Action::NegativeEater
            },
        }
    }
}

/// Every variant of every kind of gizmo, in the order in which a frame goes through
/// them: a polar kind with its negative variant first.
pub open spec fn gizmo_variants_spec() -> Seq<(GizmoType, bool)> {
    seq![
        (GizmoType::Emitter, false),
        (GizmoType::Emitter, true),
        (GizmoType::Deleter, false),
        (GizmoType::SlowDeleter, false),
        (GizmoType::Attractor, false),
        (GizmoType::Repulsor, false),
        (GizmoType::Pusher, false),
        (GizmoType::Eater, false),
        (GizmoType::Eater, true),
    ]
}

/// Every kind is among the variants as a negative or neutral one, and as a positive one
/// exactly if it is polar.
pub proof fn lemma_variants_cover_every_kind(gizmo_type: GizmoType)
    ensures
        gizmo_variants_spec().contains((gizmo_type, false)),
        gizmo_variants_spec().contains((gizmo_type, true)) <==> gizmo_type.is_polar_spec(),
{
    let variants = gizmo_variants_spec();
    assert(variants[0] == (GizmoType::Emitter, false));
    assert(variants[1] == (GizmoType::Emitter, true));
    assert(variants[2] == (GizmoType::Deleter, false));
    assert(variants[3] == (GizmoType::SlowDeleter, false));
    assert(variants[4] == (GizmoType::Attractor, false));
    assert(variants[5] == (GizmoType::Repulsor, false));
    assert(variants[6] == (GizmoType::Pusher, false));
    assert(variants[7] == (GizmoType::Eater, false));
    assert(variants[8] == (GizmoType::Eater, true));
    if !gizmo_type.is_polar_spec() && variants.contains((gizmo_type, true)) {
        let at = choose|at: int| 0 <= at < variants.len() && variants[at] == (gizmo_type, true);
        assert(at == 1 || at == 8);
    }
}

/// Every variant of every kind of gizmo.
pub fn gizmo_variants() -> (variants: Vec<(GizmoType, bool)>)
    ensures
        variants@ == gizmo_variants_spec(),
{
    let mut variants: Vec<(GizmoType, bool)> = Vec::new();
    variants.push((GizmoType::Emitter, false));
    variants.push((GizmoType::Emitter, true));
    variants.push((GizmoType::Deleter, false));
    variants.push((GizmoType::SlowDeleter, false));
    variants.push((GizmoType::Attractor, false));
    variants.push((GizmoType::Repulsor, false));
    variants.push((GizmoType::Pusher, false));
    variants.push((GizmoType::Eater, false));
    variants.push((GizmoType::Eater, true));
    assert(variants@ =~= gizmo_variants_spec());
    variants
}

/// A gizmo as it is spawned.
pub open spec fn spawned_gizmo_spec(
    position: Vec2,
    gizmo_type: GizmoType,
    positive: bool,
    is_placer: bool,
) -> PlacedGizmo {
    PlacedGizmo {
        component: gizmo_type.component_spec(),
        position,
        rotation: Heading::default_spec(),
        positive,
        being_placed: is_placer,
        movement: if gizmo_type.has_movement_spec() {
            Some(Movement(Vec2::zero_spec()))
        } else {
            None
        },
        dormant: None,
        scale: gizmo_draw_properties_spec(gizmo_type, positive).size,
    }
}

/// Spawns a gizmo of the given kind and sign at `position`; as one that is still being
/// placed if `is_placer`.
pub fn spawn_gizmo(
    gizmos: &mut Vec<PlacedGizmo>,
    position: Vec2,
    gizmo_type: GizmoType,
    positive: bool,
    is_placer: bool,
)
    ensures
        final(gizmos)@ == old(gizmos)@.push(
            spawned_gizmo_spec(position, gizmo_type, positive, is_placer),
        ),
{
    gizmos.push(
        PlacedGizmo {
            component: gizmo_type.component(),
            position,
            rotation: Heading::default(),
            positive,
            being_placed: is_placer,
            movement: if gizmo_type.has_movement() {
                Some(Movement::default())
            } else {
                None
            },
            dormant: None,
            scale: gizmo_draw_properties(gizmo_type, positive).size,
        },
    );
}

/// Whether the gizmo is a placed one of the given kind and sign.
pub open spec fn is_match_spec(gizmo: PlacedGizmo, gizmo_type: GizmoType, positive: bool) -> bool {
    !gizmo.being_placed && gizmo.component.gizmo_type_spec() == gizmo_type && gizmo.positive
        == positive
}

/// Those of the first `upto` gizmos that are placed ones of the given kind and sign, each
/// with its place, in their order.
pub open spec fn matching_spec(
    gizmos: Seq<PlacedGizmo>,
    gizmo_type: GizmoType,
    positive: bool,
    upto: int,
) -> Seq<(usize, Vec2)>
    decreases upto,
{
    if upto <= 0 {
        Seq::empty()
    } else {
        let before = matching_spec(gizmos, gizmo_type, positive, upto - 1);
        if is_match_spec(gizmos[upto - 1], gizmo_type, positive) {
            before.push(((upto - 1) as usize, gizmos[upto - 1].position))
        } else {
            before
        }
    }
}

/// The placed gizmo of the given kind and sign that a click at `coordinates` picks: the
/// nearest within the click radius.
pub open spec fn picked_spec(
    gizmos: Seq<PlacedGizmo>,
    coordinates: Vec2,
    extent: Vec2,
    gizmo_type: GizmoType,
    positive: bool,
) -> Option<usize> {
    nearest_within_radius_spec(
        extent,
        coordinates,
        CLICK_RADIUS,
        matching_spec(gizmos, gizmo_type, positive, gizmos.len() as int),
    )
}

/// The gizmos without the one that a click at `coordinates` picks.
pub open spec fn after_despawn_spec(
    gizmos: Seq<PlacedGizmo>,
    coordinates: Vec2,
    extent: Vec2,
    gizmo_type: GizmoType,
    positive: bool,
) -> Seq<PlacedGizmo> {
    match picked_spec(gizmos, coordinates, extent, gizmo_type, positive) {
        Some(picked) => gizmos.remove(picked as int),
        None => gizmos,
    }
}

/// The placed gizmos of the given kind and sign, each with its place.
fn matching(gizmos: &Vec<PlacedGizmo>, gizmo_type: GizmoType, positive: bool) -> (found: Vec<
    (usize, Vec2),
>)
    ensures
        found@ == matching_spec(gizmos@, gizmo_type, positive, gizmos@.len() as int),
        forall|at: int| 0 <= at < found@.len() ==> (#[trigger] found@[at]).0 < gizmos@.len(),
{
    let mut found: Vec<(usize, Vec2)> = Vec::new();
    let mut index: usize = 0;
    while index < gizmos.len()
        invariant
            index <= gizmos@.len(),
            found@ == matching_spec(gizmos@, gizmo_type, positive, index as int),
            forall|at: int| 0 <= at < found@.len() ==> (#[trigger] found@[at]).0 < gizmos@.len(),
        decreases gizmos@.len() - index,
    {
        let gizmo: PlacedGizmo = gizmos[index];
        if !gizmo.being_placed && gizmo.component.gizmo_type() == gizmo_type && gizmo.positive
            == positive {
            found.push((index, gizmo.position));
        }
        index += 1;
    }
    found
}

/// Removes the placed gizmo of the given kind and sign that is nearest to `coordinates`,
/// if one is within the click radius.
pub fn despawn_gizmo(
    gizmos: &mut Vec<PlacedGizmo>,
    coordinates: Vec2,
    window_dimensions: Vec2,
    gizmo_type: GizmoType,
    positive: bool,
)
    ensures
        final(gizmos)@ == after_despawn_spec(
            old(gizmos)@,
            coordinates,
            window_dimensions,
            gizmo_type,
            positive,
        ),
{
    let found: Vec<(usize, Vec2)> = matching(gizmos, gizmo_type, positive);
    proof {
        lemma_nearest_is_first_minimum(window_dimensions, coordinates, CLICK_RADIUS, found@);
    }
    match find_entity_by_cursor(coordinates, window_dimensions, &found) {
        Some(picked) => {
            gizmos.remove(picked);
        },
        None => {},
    }
}

/// The gizmos without the placed ones of the given kind and sign.
pub open spec fn after_despawn_all_spec(
    gizmos: Seq<PlacedGizmo>,
    gizmo_type: GizmoType,
    positive: bool,
) -> Seq<PlacedGizmo> {
    gizmos.filter(|gizmo: PlacedGizmo| !is_match_spec(gizmo, gizmo_type, positive))
}

/// Removes every placed gizmo of the given kind and sign.
pub fn despawn_all_gizmos(gizmos: &mut Vec<PlacedGizmo>, gizmo_type: GizmoType, positive: bool)
    ensures
        final(gizmos)@ == after_despawn_all_spec(old(gizmos)@, gizmo_type, positive),
{
    let ghost before = gizmos@;
    let ghost keep = |gizmo: PlacedGizmo| !is_match_spec(gizmo, gizmo_type, positive);
    let mut kept: Vec<PlacedGizmo> = Vec::new();
    let mut index: usize = 0;
    proof {
        lemma_filter_none(before, keep);
    }
    while index < gizmos.len()
        invariant
            index <= gizmos@.len(),
            gizmos@ == before,
            keep == (|gizmo: PlacedGizmo| !is_match_spec(gizmo, gizmo_type, positive)),
            kept@ == before.take(index as int).filter(keep),
        decreases gizmos@.len() - index,
    {
        proof {
            lemma_filter_step(before, keep, index as int);
        }
        let gizmo: PlacedGizmo = gizmos[index];
        if gizmo.being_placed || gizmo.component.gizmo_type() != gizmo_type || gizmo.positive
            != positive {
            kept.push(gizmo);
        }
        index += 1;
    }
    assert(before.take(before.len() as int) == before);
    *gizmos = kept;
}

/// Whether the gizmo is one of the given kind that is still being placed.
pub open spec fn is_placer_spec(gizmo: PlacedGizmo, gizmo_type: GizmoType) -> bool {
    gizmo.being_placed && gizmo.component.gizmo_type_spec() == gizmo_type
}

/// The gizmo turned towards the cursor, if it is one of the given kind that is still
/// being placed; placed with that, if `commit`.
pub open spec fn turned_spec(
    gizmo: PlacedGizmo,
    gizmo_type: GizmoType,
    cursor_pos: Vec2,
    commit: bool,
) -> PlacedGizmo {
    if is_placer_spec(gizmo, gizmo_type) {
        PlacedGizmo {
            rotation: Heading::toward_spec(gizmo.position, cursor_pos),
            being_placed: !commit,
            ..gizmo
        }
    } else {
        gizmo
    }
}

/// The gizmos after a frame in which the action of a kind that is placed with a rotation
/// did not go down: those of the kind that are being placed are turned towards the
/// cursor while the action is held, turned and placed when it is released, and
/// discarded in any other state.
pub open spec fn after_placement_spec(
    gizmos: Seq<PlacedGizmo>,
    cursor_pos: Vec2,
    gizmo_type: GizmoType,
    state: ButtonState,
) -> Seq<PlacedGizmo> {
    match state {
        ButtonState::Held => gizmos.map_values(
            |gizmo: PlacedGizmo| turned_spec(gizmo, gizmo_type, cursor_pos, false),
        ),
        ButtonState::JustReleased => gizmos.map_values(
            |gizmo: PlacedGizmo| turned_spec(gizmo, gizmo_type, cursor_pos, true),
        ),
        _ => gizmos.filter(|gizmo: PlacedGizmo| !is_placer_spec(gizmo, gizmo_type)),
    }
}

/// Turns the gizmos of the given kind that are being placed towards the cursor, and
/// places them if `commit`.
fn turn_placers(
    gizmos: &mut Vec<PlacedGizmo>,
    cursor_pos: Vec2,
    gizmo_type: GizmoType,
    commit: bool,
)
    ensures
        final(gizmos)@ == old(gizmos)@.map_values(
            |gizmo: PlacedGizmo| turned_spec(gizmo, gizmo_type, cursor_pos, commit),
        ),
{
    let ghost before = gizmos@;
    let mut index: usize = 0;
    while index < gizmos.len()
        invariant
            index <= gizmos@.len(),
            gizmos@.len() == before.len(),
            forall|done: int|
                0 <= done < index ==> #[trigger] gizmos@[done] == turned_spec(
                    before[done],
                    gizmo_type,
                    cursor_pos,
                    commit,
                ),
            forall|ahead: int| index <= ahead < before.len() ==> #[trigger] gizmos@[ahead] == before[ahead],
        decreases gizmos@.len() - index,
    {
        let gizmo: PlacedGizmo = gizmos[index];
        if gizmo.being_placed && gizmo.component.gizmo_type() == gizmo_type {
            gizmos[index] = PlacedGizmo {
                rotation: Heading::toward(gizmo.position, cursor_pos),
                being_placed: !commit,
                ..gizmo
            };
        }
        index += 1;
    }
    assert(gizmos@ =~= before.map_values(
        |gizmo: PlacedGizmo| turned_spec(gizmo, gizmo_type, cursor_pos, commit),
    ));
}

/// Discards the gizmos of the given kind that are being placed.
fn discard_placers(gizmos: &mut Vec<PlacedGizmo>, gizmo_type: GizmoType)
    ensures
        final(gizmos)@ == old(gizmos)@.filter(
            |gizmo: PlacedGizmo| !is_placer_spec(gizmo, gizmo_type),
        ),
{
    let ghost before = gizmos@;
    let ghost keep = |gizmo: PlacedGizmo| !is_placer_spec(gizmo, gizmo_type);
    let mut kept: Vec<PlacedGizmo> = Vec::new();
    let mut index: usize = 0;
    proof {
        lemma_filter_none(before, keep);
    }
    while index < gizmos.len()
        invariant
            index <= gizmos@.len(),
            gizmos@ == before,
            keep == (|gizmo: PlacedGizmo| !is_placer_spec(gizmo, gizmo_type)),
            kept@ == before.take(index as int).filter(keep),
        decreases gizmos@.len() - index,
    {
        proof {
            lemma_filter_step(before, keep, index as int);
        }
        let gizmo: PlacedGizmo = gizmos[index];
        if !(gizmo.being_placed && gizmo.component.gizmo_type() == gizmo_type) {
            kept.push(gizmo);
        }
        index += 1;
    }
    assert(before.take(before.len() as int) == before);
    *gizmos = kept;
}

/// Carries on with the placement of the gizmos of a kind that is placed with a
/// rotation, in a frame in which the action of the kind is in `state`.
pub fn continue_placement(
    gizmos: &mut Vec<PlacedGizmo>,
    cursor_pos: Vec2,
    gizmo_type: GizmoType,
    state: ButtonState,
)
    ensures
        final(gizmos)@ == after_placement_spec(old(gizmos)@, cursor_pos, gizmo_type, state),
{
    match state {
        ButtonState::Held => {
            turn_placers(gizmos, cursor_pos, gizmo_type, false);
        },
        ButtonState::JustReleased => {
            turn_placers(gizmos, cursor_pos, gizmo_type, true);
        },
        _ => {
            discard_placers(gizmos, gizmo_type);
        },
    }
}

/// The gizmos after the pusher's part of a frame.
pub open spec fn after_place_pusher_spec(
    gizmos: Seq<PlacedGizmo>,
    action_state: ActionState,
    cursor_pos: Option<Vec2>,
) -> Seq<PlacedGizmo> {
    match cursor_pos {
        Some(cursor) => if action_state.just_pressed_spec(Action::Pusher) {
            gizmos.push(spawned_gizmo_spec(cursor, GizmoType::Pusher, false, true))
        } else {
            after_placement_spec(
                gizmos,
                cursor,
                GizmoType::Pusher,
                action_state.state_spec(Action::Pusher),
            )
        },
        None => gizmos,
    }
}

/// Places pushers in two phases.
///
/// The press spawns a pusher at the cursor that is still being placed. While the action
/// is held, the pushers being placed turn towards the cursor; the release turns them
/// once more and places them. In any other state of the action they are discarded.
/// Without a cursor the frame changes nothing.
pub fn place_pusher(
    gizmos: &mut Vec<PlacedGizmo>,
    action_state: &ActionState,
    cursor_pos: Option<Vec2>,
)
    ensures
        final(gizmos)@ == after_place_pusher_spec(old(gizmos)@, *action_state, cursor_pos),
{
    match cursor_pos {
        Some(cursor) => {
            if action_state.just_pressed(&Action::Pusher) {
                spawn_gizmo(gizmos, cursor, GizmoType::Pusher, false, true);
            } else {
                continue_placement(
                    gizmos,
                    cursor,
                    GizmoType::Pusher,
                    action_state.state(&Action::Pusher),
                );
            }
        },
        None => {},
    }
}

/// The gizmos after one variant of one kind has had its part of a frame.
///
/// In the frame in which the action of the variant goes down: with the modifier for
/// removing all held, the placed gizmos of the variant are removed; else, with the
/// modifier for removing held, the one nearest to the cursor is removed, if it is within
/// the click radius; else a gizmo of the variant is spawned at the cursor. In any other
/// frame, a kind that is placed with a rotation carries on with its placement.
pub open spec fn after_variant_spec(
    gizmos: Seq<PlacedGizmo>,
    extent: Vec2,
    action_state: ActionState,
    cursor_pos: Vec2,
    gizmo_type: GizmoType,
    positive: bool,
) -> Seq<PlacedGizmo> {
    let action = gizmo_type.action_spec(positive);
    if action_state.just_pressed_spec(action) {
        if action_state.pressed_spec(Action::DespawnAllModifier) {
            after_despawn_all_spec(gizmos, gizmo_type, positive)
        } else if action_state.pressed_spec(Action::DespawnModifier) {
            after_despawn_spec(gizmos, cursor_pos, extent, gizmo_type, positive)
        } else {
            gizmos.push(
                spawned_gizmo_spec(
                    cursor_pos,
                    gizmo_type,
                    positive,
                    gizmo_type.placement_style_spec() == PlacementStyle::WithRotation,
                ),
            )
        }
    } else if gizmo_type.placement_style_spec() == PlacementStyle::WithRotation {
        after_placement_spec(gizmos, cursor_pos, gizmo_type, action_state.state_spec(action))
    } else {
        gizmos
    }
}

/// The gizmos after the first `upto` variants have had their part of a frame.
pub open spec fn after_variants_spec(
    gizmos: Seq<PlacedGizmo>,
    extent: Vec2,
    action_state: ActionState,
    cursor_pos: Vec2,
    upto: int,
) -> Seq<PlacedGizmo>
    decreases upto,
{
    if upto <= 0 {
        gizmos
    } else {
        after_variant_spec(
            after_variants_spec(gizmos, extent, action_state, cursor_pos, upto - 1),
            extent,
            action_state,
            cursor_pos,
            gizmo_variants_spec()[upto - 1].0,
            gizmo_variants_spec()[upto - 1].1,
        )
    }
}

/// The gizmos after a frame of placing and removing.
pub open spec fn after_spawn_or_despawn_spec(
    gizmos: Seq<PlacedGizmo>,
    extent: Vec2,
    action_state: ActionState,
    cursor_pos: Option<Vec2>,
) -> Seq<PlacedGizmo> {
    match cursor_pos {
        Some(cursor) => after_variants_spec(
            gizmos,
            extent,
            action_state,
            cursor,
            gizmo_variants_spec().len() as int,
        ),
        None => gizmos,
    }
}

/// Places and removes gizmos as the user asks in this frame.
///
/// Every variant of every kind has its part, in the order of [`gizmo_variants`]. Without
/// a cursor the frame changes nothing.
pub fn spawn_or_despawn_gizmos(
    gizmos: &mut Vec<PlacedGizmo>,
    window_dimensions: &WindowDimensions,
    action_state: &ActionState,
    cursor_pos: Option<Vec2>,
)
    ensures
        final(gizmos)@ == after_spawn_or_despawn_spec(
            old(gizmos)@,
            window_dimensions.extent(),
            *action_state,
            cursor_pos,
        ),
{
    let cursor: Vec2 = match cursor_pos {
        Some(cursor) => cursor,
        None => {
            return ;
        },
    };
    let extent: Vec2 = window_dimensions.get();
    let ghost before = gizmos@;
    let variants: Vec<(GizmoType, bool)> = gizmo_variants();
    let mut index: usize = 0;
    while index < variants.len()
        invariant
            index <= variants@.len(),
            variants@ == gizmo_variants_spec(),
            gizmos@ == after_variants_spec(before, extent, *action_state, cursor, index as int),
        decreases variants@.len() - index,
    {
        let gizmo_type: GizmoType = variants[index].0;
        let positive: bool = variants[index].1;
        let action: Action = gizmo_type.action(positive);
        let is_placer: bool = match gizmo_type.placement_style() {
            PlacementStyle::WithRotation => true,
            PlacementStyle::Instant => false,
        };
        if action_state.just_pressed(&action) {
            if action_state.pressed(&Action::DespawnAllModifier) {
                despawn_all_gizmos(gizmos, gizmo_type, positive);
            } else if action_state.pressed(&Action::DespawnModifier) {
                despawn_gizmo(gizmos, cursor, extent, gizmo_type, positive);
            } else {
                spawn_gizmo(gizmos, cursor, gizmo_type, positive, is_placer);
            }
        } else if is_placer {
            continue_placement(gizmos, cursor, gizmo_type, action_state.state(&action));
        }
        index += 1;
    }
}

} // verus!
