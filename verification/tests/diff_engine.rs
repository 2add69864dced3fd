use lightborne::beam::{play_light_beam, tick_light_sources, LightBeamIntersection, LightBeamSource};
use lightborne::color::LightColor;
use lightborne::geom::{Dir8, Vec2i};
use lightborne::scene::{Collider, Scene};
use lightborne::segments::{simulate_light_source, simulate_light_sources, PrevLightBeamPlayback};

fn wall(entity: u64, min: (i64, i64), max: (i64, i64)) -> Collider {
    Collider {
        entity,
        min: Vec2i { x: min.0, y: min.1 },
        max: Vec2i { x: max.0, y: max.1 },
        layers: 0x1,
    }
}

fn single_wall_scene() -> Scene {
    let mut scene = Scene::new();
    scene.push(wall(1, (10, -5), (12, 5)));
    scene
}

fn fresh_source(budget: i64) -> LightBeamSource {
    LightBeamSource {
        start_pos: Vec2i { x: 0, y: 0 },
        start_dir: Dir8::East,
        time_traveled: budget,
        color: LightColor::White,
    }
}

#[test]
fn first_contact_emits_hit_sound_and_spark() {
    let scene = single_wall_scene();
    let mut source = fresh_source(100);
    let mut prev = PrevLightBeamPlayback::new();
    let white = Vec::new();

    let playback = play_light_beam(&scene, &source);
    let out = simulate_light_source(&mut source, &mut prev, &playback, &white);

    assert_eq!(out.events.len(), 1);
    assert_eq!(out.events[0].entity, 1);
    assert!(out.events[0].hit);
    assert_eq!(out.sounds.len(), 1);
    assert_eq!(out.sounds[0].slot, 0);
    assert!(!out.sounds[0].reflect);
    assert_eq!(out.sparks.len(), 1);
    assert_eq!(out.sparks[0].pos, Vec2i { x: 10, y: 0 });
    // The travel budget is clamped to the new contact's time.
    assert_eq!(source.time_traveled, 10);
    // The cache records the contact at its slot.
    assert_eq!(prev.intersections.len(), 1);
    assert_eq!(prev.intersections[0].map(|i| i.entity), Some(1));
    // The rendered path is cut to the boundary point of the transition.
    assert_eq!(out.points, vec![Vec2i { x: 0, y: 0 }, Vec2i { x: 10, y: 0 }]);
}

#[test]
fn stable_world_second_tick_is_silent() {
    let scene = single_wall_scene();
    let mut source = fresh_source(100);
    let mut prev = PrevLightBeamPlayback::new();
    let white = Vec::new();

    let playback = play_light_beam(&scene, &source);
    simulate_light_source(&mut source, &mut prev, &playback, &white);

    // The world does not change; the beam keeps travelling.
    let mut sources = vec![source];
    tick_light_sources(&mut sources);
    source = sources[0];
    assert_eq!(source.time_traveled, 18);

    let playback = play_light_beam(&scene, &source);
    let out = simulate_light_source(&mut source, &mut prev, &playback, &white);
    assert_eq!(out.events.len(), 0);
    assert_eq!(out.sounds.len(), 0);
    assert_eq!(out.sparks.len(), 0);
    // No transition: the budget keeps its ticked value.
    assert_eq!(source.time_traveled, 18);
    // The full reflected path is rendered.
    assert_eq!(
        out.points,
        vec![
            Vec2i { x: 0, y: 0 },
            Vec2i { x: 10, y: 0 },
            Vec2i { x: 2, y: 0 },
        ]
    );
}

#[test]
fn vanished_contact_emits_unhit_and_rolls_back() {
    let empty_scene = Scene::new();
    let mut source = fresh_source(40);
    let mut prev = PrevLightBeamPlayback {
        intersections: vec![Some(LightBeamIntersection {
            entity: 7,
            point: Vec2i { x: 10, y: 0 },
            time: 10,
        })],
    };
    let white = Vec::new();

    let playback = play_light_beam(&empty_scene, &source);
    let out = simulate_light_source(&mut source, &mut prev, &playback, &white);

    assert_eq!(out.events.len(), 1);
    assert_eq!(out.events[0].entity, 7);
    assert!(!out.events[0].hit);
    assert_eq!(out.sounds.len(), 0);
    assert_eq!(out.sparks.len(), 0);
    // The budget rolls back to the vanished contact's time so the beam does
    // not overshoot the surface it is leaving.
    assert_eq!(source.time_traveled, 10);
    assert_eq!(prev.intersections, vec![None]);
    // The rendered boundary point is the vanished contact's point.
    assert_eq!(out.points, vec![Vec2i { x: 0, y: 0 }, Vec2i { x: 10, y: 0 }]);
}

#[test]
fn removed_contact_unhits_everything_downstream() {
    let empty_scene = Scene::new();
    let mut source = fresh_source(40);
    let mut prev = PrevLightBeamPlayback {
        intersections: vec![
            Some(LightBeamIntersection { entity: 7, point: Vec2i { x: 10, y: 0 }, time: 10 }),
            None,
            Some(LightBeamIntersection { entity: 8, point: Vec2i { x: 20, y: 0 }, time: 20 }),
        ],
    };
    let white = Vec::new();

    let playback = play_light_beam(&empty_scene, &source);
    let out = simulate_light_source(&mut source, &mut prev, &playback, &white);

    // The removed head contact invalidates everything cached beyond it.
    assert_eq!(out.events.len(), 2);
    assert_eq!((out.events[0].entity, out.events[0].hit), (7, false));
    assert_eq!((out.events[1].entity, out.events[1].hit), (8, false));
    assert_eq!(prev.intersections, vec![None]);
}

#[test]
fn contact_against_white_segment_requests_reflect_sound() {
    let mut scene = Scene::new();
    // The struck collider is a white beam segment (layer WhiteRay = 0x4).
    scene.push(Collider {
        entity: 9,
        min: Vec2i { x: 5, y: -5 },
        max: Vec2i { x: 6, y: 5 },
        layers: 0x4,
    });
    let mut source = LightBeamSource { color: LightColor::Green, ..fresh_source(50) };
    let mut prev = PrevLightBeamPlayback::new();
    let white = vec![9u64];

    let playback = play_light_beam(&scene, &source);
    let out = simulate_light_source(&mut source, &mut prev, &playback, &white);
    assert_eq!(out.sounds.len(), 1);
    assert!(out.sounds[0].reflect);
}

#[test]
fn simulate_all_sources_aligns_outputs() {
    let scene = single_wall_scene();
    let mut sources = vec![fresh_source(100), fresh_source(5)];
    let mut caches = vec![PrevLightBeamPlayback::new(), PrevLightBeamPlayback::new()];
    let white = Vec::new();

    let outs = simulate_light_sources(&scene, &mut sources, &mut caches, &white);
    assert_eq!(outs.len(), 2);
    // The first beam reaches the wall, the second is still short of it.
    assert_eq!(outs[0].events.len(), 1);
    assert_eq!(outs[1].events.len(), 0);
    assert_eq!(sources[0].time_traveled, 10);
    assert_eq!(sources[1].time_traveled, 5);
}
