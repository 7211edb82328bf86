use particle_sandbox::draw_properties::{
    draw_gizmo, draw_particle, gizmo_draw_properties, particle_draw_properties, Color,
    DrawCommand, DrawProperties, Texture,
};
use particle_sandbox::gizmos::eater::Eater;
use particle_sandbox::gizmos::{spawn_gizmo, GizmoComponent, GizmoType};
use particle_sandbox::heading::Heading;
use particle_sandbox::movement::{Movement, MovementBatch2};
use particle_sandbox::particle::{Batch, Cancelled, Particle};
use particle_sandbox::vector::{Vec2, UNIT, UNIT_LENGTH};

#[test]
fn catalogue_says_how_things_are_drawn() {
    assert_eq!(
        particle_draw_properties(true),
        DrawProperties {
            draw_priority: 50,
            size: UNIT_LENGTH,
            color: Color { red: 100, green: 50, blue: 50 },
            texture: Some(Texture::Particle),
        }
    );
    assert_eq!(particle_draw_properties(false).color, Color { red: 50, green: 50, blue: 100 });
    let table = [
        (GizmoType::Emitter, true, 10, 15, (100, 0, 0), None),
        (GizmoType::Emitter, false, 10, 15, (0, 0, 100), None),
        (GizmoType::Deleter, false, 20, 1, (100, 100, 100), Some(Texture::Deleter)),
        (GizmoType::SlowDeleter, false, 22, 1, (80, 80, 80), Some(Texture::Deleter)),
        (GizmoType::Attractor, false, 15, 15, (50, 0, 50), None),
        (GizmoType::Repulsor, false, 14, 16, (50, 100, 50), None),
        (GizmoType::Pusher, false, 50, 1, (100, 100, 100), Some(Texture::Pusher)),
        (GizmoType::Eater, true, 40, 10, (100, 75, 75), None),
        (GizmoType::Eater, false, 40, 10, (75, 75, 100), None),
    ];
    for (kind, positive, priority, size, (red, green, blue), texture) in table {
        assert_eq!(
            gizmo_draw_properties(kind, positive),
            DrawProperties {
                draw_priority: priority,
                size: size * UNIT_LENGTH,
                color: Color { red, green, blue },
                texture,
            }
        );
    }
    assert_eq!(UNIT as u64, UNIT_LENGTH);
}

#[test]
fn renderer_is_told_where_and_how_to_draw() {
    let particle = Particle {
        position: Vec2::new(3, 4),
        positive: false,
        movement: Movement(Vec2::new(9, 9)),
        movement_batch2: MovementBatch2(Vec2::zero()),
        cancelled: Cancelled(false),
        batch: Batch::Two,
    };
    assert_eq!(
        draw_particle(&particle),
        DrawCommand {
            position: Vec2::new(3, 4),
            rotation: Heading::default(),
            scale: UNIT_LENGTH,
            properties: particle_draw_properties(false),
        }
    );
    let mut gizmos = Vec::new();
    spawn_gizmo(&mut gizmos, Vec2::new(7, 8), GizmoType::Eater, true, false);
    spawn_gizmo(&mut gizmos, Vec2::new(5, 6), GizmoType::Pusher, false, false);
    gizmos[0].component = GizmoComponent::Eater(Eater { eaten: 5, target: 10 });
    gizmos[0].scale = 15 * UNIT_LENGTH;
    gizmos[1].rotation = Heading::toward(Vec2::zero(), Vec2::new(0, -3));
    assert_eq!(
        draw_gizmo(&gizmos[0]),
        DrawCommand {
            position: Vec2::new(7, 8),
            rotation: Heading::default(),
            scale: 15 * UNIT_LENGTH,
            properties: gizmo_draw_properties(GizmoType::Eater, true),
        }
    );
    let pusher = draw_gizmo(&gizmos[1]);
    assert_eq!(pusher.rotation.get(), Vec2::new(0, -UNIT));
    assert_eq!(pusher.scale, UNIT_LENGTH);
    assert_eq!(pusher.properties.texture, Some(Texture::Pusher));
}
