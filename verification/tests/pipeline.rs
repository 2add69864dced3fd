//! One whole puzzle interaction, pass by pass in tick order: trace, diff,
//! route contact events, accumulate sensor exposure, dispatch the crystal
//! toggle, reset.

use lightborne::beam::{play_light_beam, LightBeamSource};
use lightborne::color::LightColor;
use lightborne::crystal::{
    crystal_from_cell, init_crystal_cache_groups, init_crystal_cache_tiles, on_crystal_changed,
    reset_crystals, CrystalCache, CrystalColor, CrystalGroup, CrystalIdent,
};
use lightborne::geom::{Dir8, Vec2i};
use lightborne::scene::{Collider, Scene};
use lightborne::segments::{simulate_light_source, LightSegmentCache, PrevLightBeamPlayback};
use lightborne::sensor::{apply_hit_events, update_light_sensors, LightSensor};

#[test]
fn beam_charges_sensor_and_toggles_crystals() {
    let level = 1u64;
    let pink = CrystalIdent { color: CrystalColor::Pink, id: 0 };

    // A sensor collider (layer LightSensor = 0x2) eight units east of the
    // player, and a pink crystal wired to it.
    let mut scene = Scene::new();
    scene.push(Collider {
        entity: 100,
        min: Vec2i { x: 8, y: -4 },
        max: Vec2i { x: 16, y: 4 },
        layers: 0x2,
    });
    let mut crystals = vec![crystal_from_cell(level, 3, 0, 10)];
    let mut groups: Vec<CrystalGroup> = Vec::new();
    let mut cache = CrystalCache::new();
    init_crystal_cache_tiles(&mut cache, level, &crystals);
    init_crystal_cache_groups(&mut cache, level, &groups);
    let mut sensors = vec![LightSensor::new(100, pink, 1000)];

    let mut source = LightBeamSource {
        start_pos: Vec2i { x: 0, y: 0 },
        start_dir: Dir8::East,
        time_traveled: 100,
        color: LightColor::White,
    };
    let mut prev = PrevLightBeamPlayback::new();
    let mut segment_cache = LightSegmentCache::new();
    let white = Vec::new();

    let mut toggles = 0;
    for _tick in 0..70 {
        // Trace and diff.
        let playback = play_light_beam(&scene, &source);
        let out = simulate_light_source(&mut source, &mut prev, &playback, &white);
        // Present the path through the pooled segments.
        segment_cache.spawn_needed_segments(1, source.color, out.points.len());
        segment_cache.visually_sync_segments(1, &out.points);
        // Route the contact events and accumulate exposure.
        apply_hit_events(&mut sensors, &out.events);
        for ev in update_light_sensors(&mut sensors) {
            toggles += 1;
            on_crystal_changed(&cache, level, ev, &mut crystals, &mut groups);
        }
    }

    // The sensor was hit on the first tick, saturated after 64 lit ticks,
    // and fired exactly once; the crystal flipped away from its spawn state.
    assert_eq!(toggles, 1);
    assert!(sensors[0].is_active);
    assert!(!crystals[0].active);

    // Level reset restores everything.
    reset_crystals(&mut crystals, &mut groups);
    assert!(crystals[0].active);
    assert_eq!(crystals[0].active, crystals[0].init_active);
}
