use lightborne::beam::LightBeamSource;
use lightborne::color::LightColor;
use lightborne::geom::{Dir8, Vec2i};
use lightborne::segments::{cleanup_light_sources, LightSegmentCache, PrevLightBeamPlayback};

fn pt(x: i64, y: i64) -> Vec2i {
    Vec2i { x, y }
}

#[test]
fn pool_is_created_hidden_and_sized_to_the_path() {
    let mut cache = LightSegmentCache::new();
    cache.spawn_needed_segments(5, LightColor::Green, 4);
    assert_eq!(cache.pools.len(), 1);
    assert_eq!(cache.pools[0].source, 5);
    assert_eq!(cache.pools[0].color, LightColor::Green);
    assert_eq!(cache.pools[0].segments.len(), 3);
    for s in &cache.pools[0].segments {
        assert!(!s.visible);
    }
}

#[test]
fn pool_grows_but_never_shrinks() {
    let mut cache = LightSegmentCache::new();
    cache.spawn_needed_segments(5, LightColor::Green, 4);
    cache.spawn_needed_segments(5, LightColor::Green, 7);
    assert_eq!(cache.pools[0].segments.len(), 6);
    // A shorter path leaves the pool as it is.
    cache.spawn_needed_segments(5, LightColor::Green, 2);
    assert_eq!(cache.pools[0].segments.len(), 6);
    // Still a single pool for the source.
    assert_eq!(cache.pools.len(), 1);
}

#[test]
fn pool_growth_is_capped_at_the_segment_limit() {
    let mut cache = LightSegmentCache::new();
    cache.spawn_needed_segments(5, LightColor::White, 40);
    assert_eq!(cache.pools[0].segments.len(), 15);
}

#[test]
fn sync_positions_spans_and_hides_the_rest() {
    let mut cache = LightSegmentCache::new();
    cache.spawn_needed_segments(5, LightColor::Green, 6);
    let points = vec![pt(0, 0), pt(10, 0), pt(10, 5)];
    cache.visually_sync_segments(5, &points);
    let segs = &cache.pools[0].segments;
    assert_eq!(segs.len(), 5);
    assert!(segs[0].visible);
    assert_eq!((segs[0].start, segs[0].end), (pt(0, 0), pt(10, 0)));
    assert!(segs[1].visible);
    assert_eq!((segs[1].start, segs[1].end), (pt(10, 0), pt(10, 5)));
    // Segments beyond the current path length are hidden, not despawned.
    assert!(!segs[2].visible);
    assert!(!segs[3].visible);
    assert!(!segs[4].visible);
}

#[test]
fn degenerate_span_is_hidden() {
    let mut cache = LightSegmentCache::new();
    cache.spawn_needed_segments(5, LightColor::Green, 3);
    let points = vec![pt(0, 0), pt(0, 0)];
    cache.visually_sync_segments(5, &points);
    assert!(!cache.pools[0].segments[0].visible);
}

#[test]
fn cleanup_despawns_beams_and_hides_all_segments() {
    let mut cache = LightSegmentCache::new();
    cache.spawn_needed_segments(5, LightColor::Green, 4);
    cache.visually_sync_segments(5, &vec![pt(0, 0), pt(10, 0)]);
    cache.spawn_needed_segments(6, LightColor::White, 3);
    let mut sources = vec![LightBeamSource {
        start_pos: pt(0, 0),
        start_dir: Dir8::East,
        time_traveled: 50,
        color: LightColor::Green,
    }];
    let mut prevs = vec![PrevLightBeamPlayback::new()];
    cleanup_light_sources(&mut sources, &mut prevs, &mut cache);
    assert!(sources.is_empty());
    assert!(prevs.is_empty());
    // The pools survive a level reset; their segments are parked hidden.
    assert_eq!(cache.pools.len(), 2);
    for pool in &cache.pools {
        for s in &pool.segments {
            assert!(!s.visible);
            assert_eq!(s.start, pt(0, 0));
            assert_eq!(s.end, pt(0, 0));
        }
    }
}
