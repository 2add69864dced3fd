use lightborne::beam::{play_light_beam, LightBeamSource};
use lightborne::color::LightColor;
use lightborne::geom::{Dir8, Vec2i};
use lightborne::scene::{Collider, Scene};

fn wall(entity: u64, min: (i64, i64), max: (i64, i64)) -> Collider {
    Collider {
        entity,
        min: Vec2i { x: min.0, y: min.1 },
        max: Vec2i { x: max.0, y: max.1 },
        layers: 0x1, // Terrain
    }
}

fn single_wall_scene() -> Scene {
    let mut scene = Scene::new();
    // A wall occupying x in [10, 12]; its left face at x = 10 has normal -x.
    scene.push(wall(1, (10, -5), (12, 5)));
    scene
}

#[test]
fn white_beam_hits_wall_at_ten() {
    let scene = single_wall_scene();
    let source = LightBeamSource {
        start_pos: Vec2i { x: 0, y: 0 },
        start_dir: Dir8::East,
        time_traveled: 100,
        color: LightColor::White,
    };
    let playback = play_light_beam(&scene, &source);
    assert_eq!(playback.intersections.len(), 1);
    assert_eq!(playback.intersections[0].entity, 1);
    assert_eq!(playback.intersections[0].point, Vec2i { x: 10, y: 0 });
    assert_eq!(playback.intersections[0].time, 10);
    // Reflected continuation runs west until the budget is used up.
    assert_eq!(playback.end_point, Some(Vec2i { x: -80, y: 0 }));
    assert_eq!(playback.elapsed_time, 100);
}

#[test]
fn short_budget_stops_before_wall() {
    let scene = single_wall_scene();
    let source = LightBeamSource {
        start_pos: Vec2i { x: 0, y: 0 },
        start_dir: Dir8::East,
        time_traveled: 5,
        color: LightColor::White,
    };
    let playback = play_light_beam(&scene, &source);
    assert_eq!(playback.intersections.len(), 0);
    assert_eq!(playback.end_point, Some(Vec2i { x: 5, y: 0 }));
    assert_eq!(playback.elapsed_time, 5);
}

#[test]
fn trace_is_deterministic() {
    let scene = single_wall_scene();
    let source = LightBeamSource {
        start_pos: Vec2i { x: 0, y: 0 },
        start_dir: Dir8::East,
        time_traveled: 100,
        color: LightColor::White,
    };
    let a = play_light_beam(&scene, &source);
    let b = play_light_beam(&scene, &source);
    assert_eq!(a.intersections, b.intersections);
    assert_eq!(a.end_point, b.end_point);
    assert_eq!(a.elapsed_time, b.elapsed_time);
}

#[test]
fn diagonal_beam_reflects_off_vertical_face() {
    let mut scene = Scene::new();
    scene.push(wall(1, (4, -10), (6, 10)));
    let source = LightBeamSource {
        start_pos: Vec2i { x: 0, y: 0 },
        start_dir: Dir8::NorthEast,
        time_traveled: 10,
        color: LightColor::Green,
    };
    let playback = play_light_beam(&scene, &source);
    assert_eq!(playback.intersections.len(), 1);
    assert_eq!(playback.intersections[0].point, Vec2i { x: 4, y: 4 });
    assert_eq!(playback.intersections[0].time, 4);
    // Reflection flips only the horizontal component: northeast -> northwest.
    assert_eq!(playback.end_point, Some(Vec2i { x: -2, y: 10 }));
}

#[test]
fn green_beam_uses_all_three_segments_with_increasing_times() {
    let mut scene = Scene::new();
    scene.push(wall(1, (10, -100), (11, 100)));
    scene.push(wall(2, (-11, -100), (-10, 100)));
    scene.push(wall(3, (30, -200), (31, 200)));
    let source = LightBeamSource {
        start_pos: Vec2i { x: 0, y: 0 },
        start_dir: Dir8::NorthEast,
        time_traveled: 1000,
        color: LightColor::Green,
    };
    let playback = play_light_beam(&scene, &source);
    // Green allows two bounces: three path segments, then the trace stops
    // with no free end point.
    assert_eq!(playback.intersections.len(), 3);
    assert_eq!(playback.intersections[0].point, Vec2i { x: 10, y: 10 });
    assert_eq!(playback.intersections[0].time, 10);
    assert_eq!(playback.intersections[1].point, Vec2i { x: -10, y: 30 });
    assert_eq!(playback.intersections[1].time, 30);
    assert_eq!(playback.intersections[2].point, Vec2i { x: 30, y: 70 });
    assert_eq!(playback.intersections[2].time, 70);
    assert_eq!(playback.end_point, None);
    // Cumulative times are strictly increasing along the path.
    for w in playback.intersections.windows(2) {
        assert!(w[0].time < w[1].time);
    }
}

#[test]
fn bounce_cap_respects_color_allowance() {
    let mut scene = Scene::new();
    scene.push(wall(1, (10, -100), (11, 100)));
    scene.push(wall(2, (-11, -100), (-10, 100)));
    scene.push(wall(3, (30, -200), (31, 200)));
    for (color, max_len) in [
        (LightColor::Green, 3),
        (LightColor::Purple, 5),
        (LightColor::Blue, 2),
        (LightColor::White, 2),
    ] {
        let source = LightBeamSource {
            start_pos: Vec2i { x: 0, y: 0 },
            start_dir: Dir8::NorthEast,
            time_traveled: 1000,
            color,
        };
        let playback = play_light_beam(&scene, &source);
        assert!(playback.intersections.len() <= max_len);
        assert!(playback.intersections.len() <= 15);
    }
}

#[test]
fn white_mask_ignores_white_ray_layer() {
    let mut scene = Scene::new();
    // A white beam segment collider (layer WhiteRay = 0x4) in the way.
    scene.push(Collider {
        entity: 9,
        min: Vec2i { x: 3, y: -5 },
        max: Vec2i { x: 4, y: 5 },
        layers: 0x4,
    });
    scene.push(wall(1, (10, -5), (12, 5)));
    let white = LightBeamSource {
        start_pos: Vec2i { x: 0, y: 0 },
        start_dir: Dir8::East,
        time_traveled: 100,
        color: LightColor::White,
    };
    let playback = play_light_beam(&scene, &white);
    // White rays pass through other white segments and strike the terrain.
    assert_eq!(playback.intersections[0].entity, 1);

    let green = LightBeamSource { color: LightColor::Green, ..white };
    let playback = play_light_beam(&scene, &green);
    // Default-colored rays collide with white segments.
    assert_eq!(playback.intersections[0].entity, 9);
    assert_eq!(playback.intersections[0].time, 3);
}

#[test]
fn iter_points_lists_start_contacts_and_end() {
    let scene = single_wall_scene();
    let source = LightBeamSource {
        start_pos: Vec2i { x: 0, y: 0 },
        start_dir: Dir8::East,
        time_traveled: 100,
        color: LightColor::White,
    };
    let playback = play_light_beam(&scene, &source);
    let pts = playback.iter_points(&source);
    assert_eq!(
        pts,
        vec![
            Vec2i { x: 0, y: 0 },
            Vec2i { x: 10, y: 0 },
            Vec2i { x: -80, y: 0 },
        ]
    );
}

#[test]
fn growing_budget_extends_the_path() {
    let mut scene = Scene::new();
    scene.push(wall(1, (10, -100), (11, 100)));
    scene.push(wall(2, (-11, -100), (-10, 100)));
    scene.push(wall(3, (30, -200), (31, 200)));
    let source = |budget: i64| LightBeamSource {
        start_pos: Vec2i { x: 0, y: 0 },
        start_dir: Dir8::NorthEast,
        time_traveled: budget,
        color: LightColor::Green,
    };
    let mut prev_len = 0;
    let mut prev_intersections: Vec<_> = Vec::new();
    for budget in [5i64, 15, 35, 75, 1000] {
        let playback = play_light_beam(&scene, &source(budget));
        assert!(playback.intersections.len() >= prev_len);
        // Contacts already found with the smaller budget are unchanged.
        assert_eq!(&playback.intersections[..prev_len], &prev_intersections[..]);
        prev_len = playback.intersections.len();
        prev_intersections = playback.intersections.clone();
    }
    assert_eq!(prev_len, 3);
}

#[test]
fn embedded_start_reflects_back_without_tunneling() {
    let mut scene = Scene::new();
    scene.push(wall(1, (-5, -5), (5, 5)));
    // The source sits strictly inside the wall: the cast reports a
    // zero-distance hit and the beam is sent straight back.
    let source = LightBeamSource {
        start_pos: Vec2i { x: 0, y: 0 },
        start_dir: Dir8::East,
        time_traveled: 50,
        color: LightColor::White,
    };
    let playback = play_light_beam(&scene, &source);
    assert!(!playback.intersections.is_empty());
    assert_eq!(playback.intersections[0].point, Vec2i { x: 0, y: 0 });
    assert_eq!(playback.intersections[0].time, 0);
}
