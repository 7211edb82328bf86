//! How things are drawn: the catalogue of kinds, and what the renderer is told of each
//! thing. Nothing is drawn here.

use vstd::prelude::*;
use crate::gizmos::{GizmoType, PlacedGizmo};
use crate::heading::Heading;
use crate::particle::Particle;
use crate::vector::{Vec2, UNIT_LENGTH};

verus! {

/// The images that things are drawn with.
#[derive(Clone, Copy, Debug, PartialEq, Eq, Hash, Structural)]
pub enum Texture {
    Particle,
    Deleter,
    Pusher,
}

/// A colour: red, green and blue in hundredths of full strength.
#[derive(Clone, Copy, Debug, PartialEq, Eq, Structural)]
pub struct Color {
    pub red: u8,
    pub green: u8,
    pub blue: u8,
}

/// How one kind of thing is drawn.
#[derive(Clone, Copy, Debug, PartialEq, Eq, Structural)]
pub struct DrawProperties {
    /// Higher means more towards the front; in tenths.
    pub draw_priority: i64,
    /// The scale, in steps.
    pub size: u64,
    pub color: Color,
    /// The image; without one the thing is drawn as a plain square.
    pub texture: Option<Texture>,
}

/// How a particle of the given charge is drawn.
pub open spec fn particle_draw_properties_spec(positive: bool) -> DrawProperties {
    DrawProperties {
        draw_priority: 50,
        size: UNIT_LENGTH,
        color: if positive {
            Color { red: 100, green: 50, blue: 50 }
        } else {
            Color { red: 50, green: 50, blue: 100 }
        },
        texture: Some(Texture::Particle),
    }
}

/// How a particle of the given charge is drawn.
#[verifier::when_used_as_spec(particle_draw_properties_spec)]
pub fn particle_draw_properties(positive: bool) -> (properties: DrawProperties)
    ensures
        properties == particle_draw_properties_spec(positive),
{
    DrawProperties {
        draw_priority: 50,
        size: UNIT_LENGTH,
        color: if positive {
            Color { red: 100, green: 50, blue: 50 }
        } else {
            Color { red: 50, green: 50, blue: 100 }
        },
        texture: Some(Texture::Particle),
    }
}

/// How a gizmo of the given kind and sign is drawn.
pub open spec fn gizmo_draw_properties_spec(gizmo_type: GizmoType, positive: bool) -> DrawProperties {
    match gizmo_type {
        GizmoType::Emitter => DrawProperties {
            draw_priority: 10,
            size: (15 * UNIT_LENGTH) as u64,
            color: if positive {
                Color { red: 100, green: 0, blue: 0 }
            } else {
                Color { red: 0, green: 0, blue: 100 }
            },
            texture: None,
        },
        GizmoType::Deleter => DrawProperties {
            draw_priority: 20,
            size: UNIT_LENGTH,
            color: Color { red: 100, green: 100, blue: 100 },
            texture: Some(Texture::Deleter),
        },
        GizmoType::SlowDeleter => DrawProperties {
            draw_priority: 22,
            size: UNIT_LENGTH,
            color: Color { red: 80, green: 80, blue: 80 },
            texture: Some(Texture::Deleter),
        },
        GizmoType::Attractor => DrawProperties {
            draw_priority: 15,
            size: (15 * UNIT_LENGTH) as u64,
            color: Color { red: 50, green: 0, blue: 50 },
            texture: None,
        },
        GizmoType::Repulsor => DrawProperties {
            draw_priority: 14,
            size: (16 * UNIT_LENGTH) as u64,
            color: Color { red: 50, green: 100, blue: 50 },
            texture: None,
        },
        GizmoType::Pusher => DrawProperties {
            draw_priority: 50,
            size: UNIT_LENGTH,
            color: Color { red: 100, green: 100, blue: 100 },
            texture: Some(Texture::Pusher),
        },
        GizmoType::Eater => DrawProperties {
            draw_priority: 40,
            size: (10 * UNIT_LENGTH) as u64,
            color: if positive {
                Color { red: 100, green: 75, blue: 75 }
            } else {
                Color { red: 75, green: 75, blue: 100 }
            },
            texture: None,
        },
    }
}

/// How a gizmo of the given kind and sign is drawn.
#[verifier::when_used_as_spec(gizmo_draw_properties_spec)]
pub fn gizmo_draw_properties(gizmo_type: GizmoType, positive: bool) -> (properties: DrawProperties)
    ensures
        properties == gizmo_draw_properties_spec(gizmo_type, positive),
{
    match gizmo_type {
        GizmoType::Emitter => DrawProperties {
            draw_priority: 10,
            size: 15 * UNIT_LENGTH,
            color: if positive {
                Color { red: 100, green: 0, blue: 0 }
            } else {
                Color { red: 0, green: 0, blue: 100 }
            },
            texture: None,
        },
        GizmoType::Deleter => DrawProperties {
            draw_priority: 20,
            size: UNIT_LENGTH,
            color: Color { red: 100, green: 100, blue: 100 },
            texture: Some(Texture::Deleter),
        },
        GizmoType::SlowDeleter => DrawProperties {
            draw_priority: 22,
            size: UNIT_LENGTH,
            color: Color { red: 80, green: 80, blue: 80 },
            texture: Some(Texture::Deleter),
        },
        GizmoType::Attractor => DrawProperties {
            draw_priority: 15,
            size: 15 * UNIT_LENGTH,
            color: Color { red: 50, green: 0, blue: 50 },
            texture: None,
        },
        GizmoType::Repulsor => DrawProperties {
            draw_priority: 14,
            size: 16 * UNIT_LENGTH,
            color: Color { red: 50, green: 100, blue: 50 },
            texture: None,
        },
        GizmoType::Pusher => DrawProperties {
            draw_priority: 50,
            size: UNIT_LENGTH,
            color: Color { red: 100, green: 100, blue: 100 },
            texture: Some(Texture::Pusher),
        },
        GizmoType::Eater => DrawProperties {
            draw_priority: 40,
            size: 10 * UNIT_LENGTH,
            color: if positive {
                Color { red: 100, green: 75, blue: 75 }
            } else {
                Color { red: 75, green: 75, blue: 100 }
            },
            texture: None,
        },
    }
}

/// What the renderer is told of one thing: where it is, how it is turned, how large it
/// is, in steps, and how its kind is drawn.
#[derive(Clone, Copy, Debug, PartialEq, Eq, Structural)]
pub struct DrawCommand {
    pub position: Vec2,
    pub rotation: Heading,
    pub scale: u64,
    pub properties: DrawProperties,
}

/// How a particle is drawn: where it is, not turned, at the size of its kind.
pub open spec fn draw_particle_spec(particle: Particle) -> DrawCommand {
    DrawCommand {
        position: particle.position,
        rotation: Heading::default_spec(),
        scale: particle_draw_properties_spec(particle.positive).size,
        properties: particle_draw_properties_spec(particle.positive),
    }
}

/// How a particle is drawn.
pub fn draw_particle(particle: &Particle) -> (command: DrawCommand)
    ensures
        command == draw_particle_spec(*particle),
{
    let properties: DrawProperties = particle_draw_properties(particle.positive);
    DrawCommand {
        position: particle.position,
        rotation: Heading::default(),
        scale: properties.size,
        properties,
    }
}

/// How a gizmo is drawn: where it is, turned as it is, at the scale that it has.
pub open spec fn draw_gizmo_spec(gizmo: PlacedGizmo) -> DrawCommand {
    DrawCommand {
        position: gizmo.position,
        rotation: gizmo.rotation,
        scale: gizmo.scale,
        properties: gizmo_draw_properties_spec(gizmo.component.gizmo_type_spec(), gizmo.positive),
    }
}

/// How a gizmo is drawn.
pub fn draw_gizmo(gizmo: &PlacedGizmo) -> (command: DrawCommand)
    ensures
        command == draw_gizmo_spec(*gizmo),
{
    DrawCommand {
        position: gizmo.position,
        rotation: gizmo.rotation,
        scale: gizmo.scale,
        properties: gizmo_draw_properties(gizmo.component.gizmo_type(), gizmo.positive),
    }
}

} // verus!
