//! The beam diff engine: compares this tick's freshly traced playback
//! against the cached previous path, emits hit/unhit events exactly once per
//! transition, rolls the beam's travel budget back when a contact disappears,
//! and produces the truncated point list the renderer draws.

use vstd::prelude::*;

use crate::beam::{
    spec_points,
    LightBeamIntersection,
    LightBeamPlayback,
    LightBeamSource,
    LIGHT_MAX_SEGMENTS,
};
use crate::color::LightColor;
use crate::geom::{Vec2i, COORD_LIMIT};
use crate::scene::contains_entity;

verus! {

/// Raised and cleared contact notification: `hit` is true when `entity` is
/// newly struck by a beam of `color`, false when the contact has ended.
#[derive(Clone, Copy, Debug, PartialEq, Eq, Structural)]
pub struct HitByLight {
    pub entity: u64,
    pub color: LightColor,
    pub hit: bool,
}

/// Particle burst request at a newly formed bounce point.
#[derive(Clone, Copy, Debug, PartialEq, Eq, Structural)]
pub struct SparkExplosionEvent {
    pub pos: Vec2i,
    pub color: LightColor,
}

/// Bounce sound request: `slot` is the bounce index the sound variant is
/// picked by, `reflect` whether the struck entity is itself a white beam
/// segment (those get the reflect variant).
#[derive(Clone, Copy, Debug, PartialEq, Eq, Structural)]
pub struct BounceSound {
    pub slot: usize,
    pub reflect: bool,
}

/// Per-beam persistent cache of the previous tick's playback, index-aligned
/// with the bounce slots; `None` at a slot means no intersection was
/// recorded there last tick.
#[derive(Debug)]
pub struct PrevLightBeamPlayback {
    pub intersections: Vec<Option<LightBeamIntersection>>,
}

impl View for PrevLightBeamPlayback {
    type V = Seq<Option<LightBeamIntersection>>;

    open spec fn view(&self) -> Seq<Option<LightBeamIntersection>> {
        self.intersections@
    }
}

impl PrevLightBeamPlayback {
    /// Every cached time lies within the coordinate bound, so rolling the
    /// beam back to it keeps the source well-formed.
    pub open spec fn wf(self) -> bool {
        forall|j: int|
            0 <= j < self@.len() ==> ((#[trigger] self@[j]) matches Some(x) ==> 0 <= x.time
                <= COORD_LIMIT)
    }

    pub fn new() -> (c: PrevLightBeamPlayback)
        ensures
            c@ =~= Seq::<Option<LightBeamIntersection>>::empty(),
            c.wf(),
    {
        PrevLightBeamPlayback { intersections: Vec::new() }
    }
}

/// The larger of two values.
pub open spec fn max2(a: int, b: int) -> int {
    if a >= b {
        a
    } else {
        b
    }
}

/// Entity cached at slot `j`, if any.
pub open spec fn cache_entity(cache: Seq<Option<LightBeamIntersection>>, j: int) -> Option<u64> {
    if 0 <= j < cache.len() {
        match cache[j] {
            Option::Some(x) => Option::Some(x.entity),
            Option::None => Option::None,
        }
    } else {
        Option::None
    }
}

/// Entity struck at slot `j` of this tick's playback, if any.
pub open spec fn fresh_entity(new: Seq<LightBeamIntersection>, j: int) -> Option<u64> {
    if 0 <= j < new.len() {
        Option::Some(new[j].entity)
    } else {
        Option::None
    }
}

/// Unhit events for every contact still cached at or beyond slot `from`.
pub open spec fn tail_unhits(
    cache: Seq<Option<LightBeamIntersection>>,
    from: int,
    color: LightColor,
) -> Seq<HitByLight>
    decreases cache.len() - from,
{
    if from < 0 || from >= cache.len() {
        Seq::empty()
    } else {
        (match cache[from] {
            Option::Some(x) => seq![HitByLight { entity: x.entity, color, hit: false }],
            Option::None => Seq::empty(),
        }) + tail_unhits(cache, from + 1, color)
    }
}

/// Writes `v` at index `idx`, extending the sequence by one when `idx` is
/// just past its end.
pub open spec fn set_or_push(pts: Seq<Vec2i>, idx: int, v: Vec2i) -> Seq<Vec2i> {
    if 0 <= idx < pts.len() {
        pts.update(idx, v)
    } else if idx == pts.len() {
        pts.push(v)
    } else {
        pts
    }
}

/// Everything one diff pass produces.
#[verifier::ext_equal]
pub struct SpecDiff {
    pub cache: Seq<Option<LightBeamIntersection>>,
    pub events: Seq<HitByLight>,
    pub sparks: Seq<SparkExplosionEvent>,
    pub sounds: Seq<BounceSound>,
    pub points: Seq<Vec2i>,
    pub time_traveled: int,
}

/// The diff pass from slot `i` on. Slots where the cached and the fresh
/// contact strike the same entity are stable: the cache is refreshed (the
/// surface may have moved) and the pass continues. The pass stops silently
/// once both sides are absent. Otherwise slot `i` is a transition and the
/// pass stops there: the rendered points are cut to `i + 2` entries; a
/// vanished contact emits its unhit event plus unhit events for everything
/// cached beyond it, rolls the travel budget back to its time, and clears
/// the slot; a fresh contact that is new or strictly closer than the
/// vanished one emits its hit event, clamps the budget to its time and fills
/// the slot; a contact at a slot that was empty last tick additionally
/// requests one bounce sound and one spark burst. The cache is always cut
/// off after the transition slot: a removed intersection invalidates
/// everything downstream of it.
pub open spec fn spec_diff_from(
    cache: Seq<Option<LightBeamIntersection>>,
    new: Seq<LightBeamIntersection>,
    pts: Seq<Vec2i>,
    time: int,
    white: Seq<u64>,
    color: LightColor,
    i: nat,
) -> SpecDiff
    decreases max2(cache.len() as int, new.len() as int) - i,
{
    let prev = if i < cache.len() {
        cache[i as int]
    } else {
        Option::None
    };
    let newx = if i < new.len() {
        Option::Some(new[i as int])
    } else {
        Option::None
    };
    if prev is None && newx is None {
        SpecDiff {
            cache,
            events: Seq::empty(),
            sparks: Seq::empty(),
            sounds: Seq::empty(),
            points: pts,
            time_traveled: time,
        }
    } else if prev matches Option::Some(p) && newx matches Option::Some(n) && p.entity
        == n.entity {
        spec_diff_from(cache.update(i as int, newx), new, pts, time, white, color, i + 1)
    } else {
        let remove = prev is Some;
        let add = newx is Some && (prev is None || prev->0.time > newx->0.time);
        let cut = if i + 2 <= pts.len() {
            (i + 2) as int
        } else {
            pts.len() as int
        };
        let pts1 = pts.take(cut);
        let pts2 = if remove {
            set_or_push(pts1, i + 1 as int, prev->0.point)
        } else {
            pts1
        };
        let pts3 = if add {
            set_or_push(pts2, i + 1 as int, newx->0.point)
        } else {
            pts2
        };
        let unhits = if remove {
            seq![HitByLight { entity: prev->0.entity, color, hit: false }] + tail_unhits(
                cache,
                i + 1 as int,
                color,
            )
        } else {
            Seq::empty()
        };
        let hits = if add {
            seq![HitByLight { entity: newx->0.entity, color, hit: true }]
        } else {
            Seq::empty()
        };
        let sparks = if prev is None {
            seq![SparkExplosionEvent { pos: newx->0.point, color }]
        } else {
            Seq::empty()
        };
        let sounds = if prev is None {
            seq![BounceSound { slot: i as usize, reflect: white.contains(newx->0.entity) }]
        } else {
            Seq::empty()
        };
        let time2 = if add {
            newx->0.time as int
        } else if remove {
            prev->0.time as int
        } else {
            time
        };
        let keep = if i <= cache.len() {
            i as int
        } else {
            cache.len() as int
        };
        let slot = if add {
            newx
        } else {
            Option::None
        };
        SpecDiff {
            cache: cache.take(keep).push(slot),
            events: unhits + hits,
            sparks,
            sounds,
            points: pts3,
            time_traveled: time2,
        }
    }
}

/// The whole diff pass for one beam.
pub open spec fn spec_diff(
    cache: Seq<Option<LightBeamIntersection>>,
    new: Seq<LightBeamIntersection>,
    pts: Seq<Vec2i>,
    time: int,
    white: Seq<u64>,
    color: LightColor,
) -> SpecDiff {
    spec_diff_from(cache, new, pts, time, white, color, 0)
}

/// Everything one tick of the diff engine hands back to its caller besides
/// the updated cache and beam source.
#[derive(Debug)]
pub struct BeamDiffOutput {
    pub events: Vec<HitByLight>,
    pub sparks: Vec<SparkExplosionEvent>,
    pub sounds: Vec<BounceSound>,
    pub points: Vec<Vec2i>,
}

/// Reconciles this tick's freshly traced `playback` with the beam's cached
/// previous path: updates the cache and the source's travel budget, and
/// returns the hit/unhit events, effect requests and rendered point list,
/// all exactly as [`spec_diff`] describes. `white_segments` lists the
/// entities that are white beam segments, for the bounce sound variant.
#[verifier::rlimit(100)]
pub fn simulate_light_source(
    source: &mut LightBeamSource,
    prev_playback: &mut PrevLightBeamPlayback,
    playback: &LightBeamPlayback,
    white_segments: &Vec<u64>,
) -> (out: BeamDiffOutput)
    requires
        old(source).wf(),
        old(prev_playback).wf(),
        playback@.intersections.len() <= crate::beam::LIGHT_MAX_SEGMENTS,
        forall|j: int|
            0 <= j < playback@.intersections.len() ==> 0 <= (#[trigger] playback@.intersections[j]).time
                <= COORD_LIMIT,
    ensures
        ({
            let d = spec_diff(
                old(prev_playback)@,
                playback@.intersections,
                spec_points(*old(source), playback@),
                old(source).time_traveled as int,
                white_segments@,
                old(source).color,
            );
            &&& final(prev_playback)@ == d.cache
            &&& out.events@ == d.events
            &&& out.sparks@ == d.sparks
            &&& out.sounds@ == d.sounds
            &&& out.points@ == d.points
            &&& *final(source) == (LightBeamSource {
                time_traveled: d.time_traveled as i64,
                ..*old(source)
            })
        }),
        final(source).wf(),
        final(prev_playback).wf(),
{
    let ghost cache0 = prev_playback@;
    let ghost new0 = playback@.intersections;
    let ghost time0 = source.time_traveled as int;
    let ghost white0 = white_segments@;
    let ghost color0 = source.color;

    let mut pts = playback.iter_points(source);
    let ghost pts0 = pts@;
    let mut events: Vec<HitByLight> = Vec::new();
    let mut sparks: Vec<SparkExplosionEvent> = Vec::new();
    let mut sounds: Vec<BounceSound> = Vec::new();
    let new_len = playback.intersections.len();
    let mut i: usize = 0;

    loop
        invariant_except_break
            source.wf(),
            prev_playback.wf(),
            *source == *old(source),
            forall|j: int|
                0 <= j < playback@.intersections.len() ==> 0 <= (#[trigger] playback@.intersections[j]).time
                    <= COORD_LIMIT,
            cache0 == old(prev_playback)@,
            new0 == playback@.intersections,
            new_len == new0.len(),
            time0 == source.time_traveled as int,
            white0 == white_segments@,
            color0 == source.color,
            pts@ == pts0,
            pts0.len() >= 1 + new_len,
            new_len <= crate::beam::LIGHT_MAX_SEGMENTS,
            i <= prev_playback@.len(),
            i <= new_len,
            events@.len() == 0,
            sparks@.len() == 0,
            sounds@.len() == 0,
            spec_diff_from(cache0, new0, pts0, time0, white0, color0, 0) == spec_diff_from(
                prev_playback@,
                new0,
                pts0,
                time0,
                white0,
                color0,
                i as nat,
            ),
        ensures
            spec_diff_from(cache0, new0, pts0, time0, white0, color0, 0) == (SpecDiff {
                cache: prev_playback@,
                events: events@,
                sparks: sparks@,
                sounds: sounds@,
                points: pts@,
                time_traveled: source.time_traveled as int,
            }),
            *source == (LightBeamSource { time_traveled: source.time_traveled, ..*old(source) }),
            0 <= source.time_traveled <= COORD_LIMIT,
            prev_playback.wf(),
        decreases max2(prev_playback@.len() as int, new_len as int) - i,
    {
        let prev_opt: Option<LightBeamIntersection> = if i < prev_playback.intersections.len() {
            prev_playback.intersections[i]
        } else {
            None
        };
        let new_opt: Option<LightBeamIntersection> = if i < new_len {
            Some(playback.intersections[i])
        } else {
            None
        };

        if prev_opt.is_none() && new_opt.is_none() {
            break ;
        }

        let same = match (prev_opt, new_opt) {
            (Some(p), Some(n)) => p.entity == n.entity,
            _ => false,
        };

        if same {
            let ghost before = prev_playback@;
            let n = match new_opt {
                Some(n) => n,
                None => vstd::pervasive::unreached(),
            };
            prev_playback.intersections.set(i, Some(n));
            i = i + 1;
            proof {
                assert(prev_playback@ == before.update(i - 1, Some(n)));
            }
        } else {
            // A transition: reconcile this slot, cut everything beyond it,
            // and stop.
            let ghost cache_t = prev_playback@;
            let remove = prev_opt.is_some();
            let add = match (prev_opt, new_opt) {
                (None, Some(_)) => true,
                (Some(p), Some(n)) => p.time > n.time,
                _ => false,
            };

            pts.truncate(i + 2);
            proof {
                let cut = if i + 2 <= pts0.len() {
                    (i + 2) as int
                } else {
                    pts0.len() as int
                };
                assert(pts@ =~= pts0.take(cut));
            }

            if let Some(p) = prev_opt {
                if pts.len() == i + 1 {
                    pts.push(p.point);
                } else {
                    pts.set(i + 1, p.point);
                }
                events.push(HitByLight { entity: p.entity, color: source.color, hit: false });
                let ghost u0 = HitByLight { entity: p.entity, color: color0, hit: false };
                let mut j = i + 1;
                while j < prev_playback.intersections.len()
                    invariant
                        i + 1 <= j <= prev_playback@.len(),
                        color0 == source.color,
                        prev_playback@ == cache_t,
                        seq![u0] + tail_unhits(cache_t, i + 1 as int, color0) =~= events@
                            + tail_unhits(cache_t, j as int, color0),
                    decreases prev_playback@.len() - j,
                {
                    if let Some(x) = prev_playback.intersections[j] {
                        events.push(
                            HitByLight { entity: x.entity, color: source.color, hit: false },
                        );
                    }
                    proof {
                        assert(seq![u0] + tail_unhits(cache_t, i + 1 as int, color0) =~= events@
                            + tail_unhits(cache_t, j + 1 as int, color0));
                    }
                    j = j + 1;
                }
                proof {
                    assert(events@ =~= seq![u0] + tail_unhits(cache_t, i + 1 as int, color0));
                }
                source.time_traveled = p.time;
            }

            if add {
                let n = match new_opt {
                    Some(n) => n,
                    None => vstd::pervasive::unreached(),
                };
                if pts.len() == i + 1 {
                    pts.push(n.point);
                } else {
                    pts.set(i + 1, n.point);
                }
                events.push(HitByLight { entity: n.entity, color: source.color, hit: true });
                source.time_traveled = n.time;
            }

            if prev_opt.is_none() {
                let n = match new_opt {
                    Some(n) => n,
                    None => vstd::pervasive::unreached(),
                };
                sounds.push(
                    BounceSound { slot: i, reflect: contains_entity(white_segments, n.entity) },
                );
                sparks.push(SparkExplosionEvent { pos: n.point, color: source.color });
            }

            let slot: Option<LightBeamIntersection> = if add {
                new_opt
            } else {
                None
            };
            if i < prev_playback.intersections.len() {
                prev_playback.intersections.set(i, slot);
                prev_playback.intersections.truncate(i + 1);
            } else {
                prev_playback.intersections.push(slot);
            }

            proof {
                let d = spec_diff_from(cache_t, new0, pts0, time0, white0, color0, i as nat);
                assert(prev_playback@ =~= cache_t.take(i as int).push(slot));
                assert(prev_playback@ == d.cache);
                assert(events@ =~= d.events);
                assert(sparks@ =~= d.sparks);
                assert(sounds@ =~= d.sounds);
                assert(pts@ =~= d.points);
                assert(source.time_traveled as int == d.time_traveled);
            }
            break ;
        }
    }

    proof {
        assert(spec_points(*old(source), playback@).len() == 1 + playback@.intersections.len()
            + match playback@.end_point {
            Option::Some(_) => 1int,
            Option::None => 0int,
        });
    }

    BeamDiffOutput { events, sparks, sounds, points: pts }
}

/// One beam's whole simulation tick: the freshly traced playback diffed
/// against its cache — the updated source, the updated cache, and the diff's
/// outputs.
pub open spec fn spec_simulate_source(
    cs: Seq<crate::scene::Collider>,
    source: LightBeamSource,
    cache: Seq<Option<LightBeamIntersection>>,
    white: Seq<u64>,
) -> (LightBeamSource, SpecDiff) {
    let playback = crate::beam::spec_play_light_beam(cs, source);
    let d = spec_diff(
        cache,
        playback.intersections,
        spec_points(source, playback),
        source.time_traveled as int,
        white,
        source.color,
    );
    (LightBeamSource { time_traveled: d.time_traveled as i64, ..source }, d)
}

/// One simulation tick for every beam source: traces each source's path
/// through the scene, diffs it against the source's cache, and returns each
/// beam's events, effect requests and rendered points, index-aligned with
/// the sources.
pub fn simulate_light_sources(
    scene: &crate::scene::Scene,
    sources: &mut Vec<LightBeamSource>,
    caches: &mut Vec<PrevLightBeamPlayback>,
    white_segments: &Vec<u64>,
) -> (outs: Vec<BeamDiffOutput>)
    requires
        scene.wf(),
        old(sources)@.len() == old(caches)@.len(),
        forall|j: int| 0 <= j < old(sources)@.len() ==> (#[trigger] old(sources)@[j]).wf(),
        forall|j: int| 0 <= j < old(caches)@.len() ==> (#[trigger] old(caches)@[j]).wf(),
    ensures
        final(sources)@.len() == old(sources)@.len(),
        final(caches)@.len() == old(caches)@.len(),
        outs@.len() == old(sources)@.len(),
        forall|j: int|
            #![trigger old(sources)@[j]]
            0 <= j < old(sources)@.len() ==> {
                let r = spec_simulate_source(
                    scene.colliders@,
                    old(sources)@[j],
                    old(caches)@[j]@,
                    white_segments@,
                );
                &&& final(sources)@[j] == r.0
                &&& final(caches)@[j]@ == r.1.cache
                &&& outs@[j].events@ == r.1.events
                &&& outs@[j].sparks@ == r.1.sparks
                &&& outs@[j].sounds@ == r.1.sounds
                &&& outs@[j].points@ == r.1.points
            },
        forall|j: int| 0 <= j < final(sources)@.len() ==> (#[trigger] final(sources)@[j]).wf(),
        forall|j: int| 0 <= j < final(caches)@.len() ==> (#[trigger] final(caches)@[j]).wf(),
{
    let mut outs: Vec<BeamDiffOutput> = Vec::new();
    let mut j: usize = 0;
    while j < sources.len()
        invariant
            scene.wf(),
            sources@.len() == old(sources)@.len(),
            caches@.len() == old(caches)@.len(),
            sources@.len() == caches@.len(),
            j <= sources@.len(),
            outs@.len() == j,
            forall|q: int| 0 <= q < old(sources)@.len() ==> (#[trigger] old(sources)@[q]).wf(),
            forall|q: int| 0 <= q < old(caches)@.len() ==> (#[trigger] old(caches)@[q]).wf(),
            forall|q: int| j <= q < sources@.len() ==> sources@[q] == old(sources)@[q],
            forall|q: int| j <= q < caches@.len() ==> caches@[q]@ == old(caches)@[q]@,
            forall|q: int| j <= q < caches@.len() ==> (#[trigger] caches@[q]).wf(),
            forall|q: int|
                #![trigger old(sources)@[q]]
                0 <= q < j ==> {
                    let r = spec_simulate_source(
                        scene.colliders@,
                        old(sources)@[q],
                        old(caches)@[q]@,
                        white_segments@,
                    );
                    &&& sources@[q] == r.0
                    &&& caches@[q]@ == r.1.cache
                    &&& outs@[q].events@ == r.1.events
                    &&& outs@[q].sparks@ == r.1.sparks
                    &&& outs@[q].sounds@ == r.1.sounds
                    &&& outs@[q].points@ == r.1.points
                },
            forall|q: int| 0 <= q < j ==> (#[trigger] sources@[q]).wf(),
            forall|q: int| 0 <= q < j ==> (#[trigger] caches@[q]).wf(),
        decreases sources@.len() - j,
    {
        let mut source = sources[j];
        let mut cache = caches.remove(j);
        let playback = crate::beam::play_light_beam(scene, &source);
        proof {
            assert(playback.intersections@.len() <= source.color.segment_budget());
        }
        let out = simulate_light_source(&mut source, &mut cache, &playback, white_segments);
        sources.set(j, source);
        caches.insert(j, cache);
        outs.push(out);
        j = j + 1;
    }
    outs
}

/// Law: under a stable world the diff is silent. If the struck entity at
/// every slot is identical between the cached path and this tick's playback,
/// the diff pass emits no events, no sounds and no sparks, keeps the point
/// list, and leaves the travel budget unchanged.
pub proof fn lemma_diff_idempotent_from(
    cache: Seq<Option<LightBeamIntersection>>,
    new: Seq<LightBeamIntersection>,
    pts: Seq<Vec2i>,
    time: int,
    white: Seq<u64>,
    color: LightColor,
    i: nat,
)
    requires
        forall|j: int| #![auto] cache_entity(cache, j) == fresh_entity(new, j),
    ensures
        ({
            let d = spec_diff_from(cache, new, pts, time, white, color, i);
            &&& d.events == Seq::<HitByLight>::empty()
            &&& d.sparks == Seq::<SparkExplosionEvent>::empty()
            &&& d.sounds == Seq::<BounceSound>::empty()
            &&& d.points == pts
            &&& d.time_traveled == time
        }),
    decreases max2(cache.len() as int, new.len() as int) - i,
{
    let prev = if i < cache.len() {
        cache[i as int]
    } else {
        Option::<LightBeamIntersection>::None
    };
    let newx = if i < new.len() {
        Option::Some(new[i as int])
    } else {
        Option::<LightBeamIntersection>::None
    };
    assert(cache_entity(cache, i as int) == fresh_entity(new, i as int));
    if prev is None && newx is None {
    } else {
        let cache2 = cache.update(i as int, newx);
        assert forall|j: int| #![auto] cache_entity(cache2, j) == fresh_entity(new, j) by {
            assert(cache_entity(cache, j) == fresh_entity(new, j));
        }
        lemma_diff_idempotent_from(cache2, new, pts, time, white, color, i + 1);
    }
}

/// Law: diff idempotence under a stable world, stated for the whole pass.
pub proof fn lemma_diff_idempotent(
    cache: Seq<Option<LightBeamIntersection>>,
    new: Seq<LightBeamIntersection>,
    pts: Seq<Vec2i>,
    time: int,
    white: Seq<u64>,
    color: LightColor,
)
    requires
        forall|j: int| #![auto] cache_entity(cache, j) == fresh_entity(new, j),
    ensures
        spec_diff(cache, new, pts, time, white, color).events == Seq::<HitByLight>::empty(),
        spec_diff(cache, new, pts, time, white, color).sparks == Seq::<
            SparkExplosionEvent,
        >::empty(),
        spec_diff(cache, new, pts, time, white, color).sounds == Seq::<BounceSound>::empty(),
        spec_diff(cache, new, pts, time, white, color).points == pts,
        spec_diff(cache, new, pts, time, white, color).time_traveled == time,
{
    lemma_diff_idempotent_from(cache, new, pts, time, white, color, 0);
}

/// One pooled renderable segment: the span it currently draws and whether it
/// is shown. Hidden segments keep their pool slot instead of being despawned.
#[derive(Clone, Copy, Debug, PartialEq, Eq, Structural)]
pub struct LightSegment {
    pub start: Vec2i,
    pub end: Vec2i,
    pub visible: bool,
}

impl LightSegment {
    /// A hidden segment parked at the origin with zero length.
    pub open spec fn spec_hidden() -> LightSegment {
        LightSegment { start: Vec2i { x: 0, y: 0 }, end: Vec2i { x: 0, y: 0 }, visible: false }
    }

    pub fn hidden() -> (s: LightSegment)
        ensures
            s == LightSegment::spec_hidden(),
    {
        LightSegment { start: Vec2i { x: 0, y: 0 }, end: Vec2i { x: 0, y: 0 }, visible: false }
    }
}

/// The pool of renderable segments of one beam source.
#[derive(Debug)]
pub struct SegmentPool {
    pub source: u64,
    pub color: LightColor,
    pub segments: Vec<LightSegment>,
}

/// Maps each beam source to its pool of reusable segments, so the renderer
/// never respawns them frame by frame.
#[derive(Debug)]
pub struct LightSegmentCache {
    pub pools: Vec<SegmentPool>,
}

/// `p_new` is `p_old` grown (never shrunk) to at least `target` segments,
/// every added segment hidden and every existing one untouched.
pub open spec fn grown_pool(p_old: SegmentPool, p_new: SegmentPool, target: int) -> bool {
    &&& p_new.source == p_old.source
    &&& p_new.color == p_old.color
    &&& p_new.segments@.len() == max2(p_old.segments@.len() as int, target)
    &&& forall|m: int|
        0 <= m < p_old.segments@.len() ==> p_new.segments@[m] == p_old.segments@[m]
    &&& forall|m: int|
        p_old.segments@.len() <= m < p_new.segments@.len() ==> p_new.segments@[m]
            == LightSegment::spec_hidden()
}

/// What pooled segment `i` must show for the polyline `pts`: the span from
/// `pts[i]` to `pts[i + 1]` when that span exists and is not degenerate,
/// hidden otherwise.
pub open spec fn spec_synced_segment(pts: Seq<Vec2i>, i: int) -> LightSegment {
    if 0 <= i && i + 1 < pts.len() && pts[i] != pts[i + 1] {
        LightSegment { start: pts[i], end: pts[i + 1], visible: true }
    } else {
        LightSegment::spec_hidden()
    }
}

impl LightSegmentCache {
    /// No two pools belong to the same beam source.
    pub open spec fn wf(self) -> bool {
        forall|i: int, j: int|
            0 <= i < j < self.pools@.len() ==> (#[trigger] self.pools@[i]).source != (
            #[trigger] self.pools@[j]).source
    }

    pub fn new() -> (c: LightSegmentCache)
        ensures
            c.pools@ =~= Seq::<SegmentPool>::empty(),
            c.wf(),
    {
        LightSegmentCache { pools: Vec::new() }
    }

    /// Index of the pool of `source_id`, scanning in order.
    fn find_pool(&self, source_id: u64) -> (r: Option<usize>)
        ensures
            r matches Some(k) ==> k < self.pools@.len() && self.pools@[k as int].source
                == source_id,
            r is None ==> forall|j: int|
                0 <= j < self.pools@.len() ==> (#[trigger] self.pools@[j]).source != source_id,
    {
        let mut k: usize = 0;
        while k < self.pools.len()
            invariant
                k <= self.pools@.len(),
                forall|j: int| 0 <= j < k ==> (#[trigger] self.pools@[j]).source != source_id,
            decreases self.pools@.len() - k,
        {
            if self.pools[k].source == source_id {
                return Some(k);
            }
            k = k + 1;
        }
        None
    }

    /// Lazily grows the pool of `source_id` until it can display a path of
    /// `num_points` vertices (one segment per consecutive pair, capped at
    /// the hard segment limit), creating the pool first if the source has
    /// none. Pools only ever grow; existing segments are untouched.
    pub fn spawn_needed_segments(&mut self, source_id: u64, color: LightColor, num_points: usize)
        requires
            num_points >= 1,
            old(self).wf(),
        ensures
            final(self).wf(),
            ({
                let target = if num_points - 1 <= LIGHT_MAX_SEGMENTS as int {
                    num_points - 1
                } else {
                    LIGHT_MAX_SEGMENTS as int
                };
                if exists|k: int|
                    0 <= k < old(self).pools@.len() && (#[trigger] old(self).pools@[k]).source
                        == source_id {
                    &&& final(self).pools@.len() == old(self).pools@.len()
                    &&& forall|j: int|
                        0 <= j < old(self).pools@.len() && (#[trigger] old(self).pools@[j]).source
                            != source_id ==> final(self).pools@[j] == old(self).pools@[j]
                    &&& forall|j: int|
                        0 <= j < old(self).pools@.len() && (#[trigger] old(self).pools@[j]).source
                            == source_id ==> grown_pool(
                            old(self).pools@[j],
                            final(self).pools@[j],
                            target,
                        )
                } else {
                    &&& final(self).pools@.len() == old(self).pools@.len() + 1
                    &&& forall|j: int|
                        0 <= j < old(self).pools@.len() ==> final(self).pools@[j] == old(
                            self,
                        ).pools@[j]
                    &&& final(self).pools@.last().source == source_id
                    &&& final(self).pools@.last().color == color
                    &&& final(self).pools@.last().segments@.len() == target
                    &&& forall|m: int|
                        0 <= m < target ==> final(self).pools@.last().segments@[m]
                            == LightSegment::spec_hidden()
                }
            }),
    {
        let target: usize = if num_points - 1 <= LIGHT_MAX_SEGMENTS {
            num_points - 1
        } else {
            LIGHT_MAX_SEGMENTS
        };
        match self.find_pool(source_id) {
            Some(k) => {
                let ghost pools0 = self.pools@;
                let mut pool = self.pools.remove(k);
                let ghost seg0 = pool.segments@;
                while pool.segments.len() < target
                    invariant
                        seg0.len() <= pool.segments@.len(),
                        pool.segments@.len() <= max2(seg0.len() as int, target as int),
                        pool.source == pools0[k as int].source,
                        pool.color == pools0[k as int].color,
                        forall|m: int| 0 <= m < seg0.len() ==> pool.segments@[m] == seg0[m],
                        forall|m: int|
                            seg0.len() <= m < pool.segments@.len() ==> pool.segments@[m]
                                == LightSegment::spec_hidden(),
                    decreases target - pool.segments@.len(),
                {
                    pool.segments.push(LightSegment::hidden());
                }
                self.pools.insert(k, pool);
                proof {
                    assert(self.pools@ =~= pools0.update(
                        k as int,
                        SegmentPool {
                            source: pool.source,
                            color: pool.color,
                            segments: pool.segments,
                        },
                    ));
                    assert(forall|j: int|
                        0 <= j < pools0.len() && j != k ==> self.pools@[j] == pools0[j]);
                }
            },
            None => {
                let mut segments: Vec<LightSegment> = Vec::new();
                while segments.len() < target
                    invariant
                        segments@.len() <= target,
                        forall|m: int|
                            0 <= m < segments@.len() ==> segments@[m]
                                == LightSegment::spec_hidden(),
                    decreases target - segments@.len(),
                {
                    segments.push(LightSegment::hidden());
                }
                self.pools.push(SegmentPool { source: source_id, color, segments });
            },
        }
    }

    /// Positions every pooled segment of `source_id` to span consecutive
    /// vertices of `points`, hiding the segments beyond the current path
    /// length (and any degenerate span) instead of despawning them.
    pub fn visually_sync_segments(&mut self, source_id: u64, points: &Vec<Vec2i>)
        requires
            old(self).wf(),
        ensures
            final(self).wf(),
            final(self).pools@.len() == old(self).pools@.len(),
            forall|j: int|
                0 <= j < old(self).pools@.len() && (#[trigger] old(self).pools@[j]).source
                    != source_id ==> final(self).pools@[j] == old(self).pools@[j],
            forall|j: int|
                0 <= j < old(self).pools@.len() && (#[trigger] old(self).pools@[j]).source
                    == source_id ==> {
                    let p_old = old(self).pools@[j];
                    let p_new = final(self).pools@[j];
                    &&& p_new.source == p_old.source
                    &&& p_new.color == p_old.color
                    &&& p_new.segments@.len() == p_old.segments@.len()
                    &&& forall|m: int|
                        0 <= m < p_new.segments@.len() ==> p_new.segments@[m]
                            == spec_synced_segment(points@, m)
                },
    {
        match self.find_pool(source_id) {
            Some(k) => {
                let ghost pools0 = self.pools@;
                let mut pool = self.pools.remove(k);
                let ghost seg0 = pool.segments@;
                let mut m: usize = 0;
                while m < pool.segments.len()
                    invariant
                        m <= pool.segments@.len(),
                        pool.segments@.len() == seg0.len(),
                        pool.source == pools0[k as int].source,
                        pool.color == pools0[k as int].color,
                        forall|q: int|
                            0 <= q < m ==> pool.segments@[q] == spec_synced_segment(points@, q),
                    decreases pool.segments@.len() - m,
                {
                    let seg = if m + 1 < points.len() {
                        let a = points[m];
                        let b = points[m + 1];
                        if a.x != b.x || a.y != b.y {
                            LightSegment { start: a, end: b, visible: true }
                        } else {
                            LightSegment::hidden()
                        }
                    } else {
                        LightSegment::hidden()
                    };
                    pool.segments.set(m, seg);
                    m = m + 1;
                }
                self.pools.insert(k, pool);
                proof {
                    assert(self.pools@ =~= pools0.update(
                        k as int,
                        SegmentPool {
                            source: pool.source,
                            color: pool.color,
                            segments: pool.segments,
                        },
                    ));
                }
            },
            None => {},
        }
    }

    /// Hides and parks every pooled segment of every beam source.
    pub fn hide_all_segments(&mut self)
        requires
            old(self).wf(),
        ensures
            final(self).wf(),
            final(self).pools@.len() == old(self).pools@.len(),
            forall|j: int|
                #![trigger old(self).pools@[j]]
                0 <= j < old(self).pools@.len() ==> {
                    let p_old = old(self).pools@[j];
                    let p_new = final(self).pools@[j];
                    &&& p_new.source == p_old.source
                    &&& p_new.color == p_old.color
                    &&& p_new.segments@.len() == p_old.segments@.len()
                    &&& forall|m: int|
                        0 <= m < p_new.segments@.len() ==> p_new.segments@[m]
                            == LightSegment::spec_hidden()
                },
    {
        let ghost pools0 = self.pools@;
        let mut j: usize = 0;
        while j < self.pools.len()
            invariant
                j <= self.pools@.len(),
                self.pools@.len() == pools0.len(),
                forall|q: int| j <= q < pools0.len() ==> self.pools@[q] == pools0[q],
                forall|q: int|
                    #![trigger pools0[q]]
                    0 <= q < j ==> {
                        let p_old = pools0[q];
                        let p_new = self.pools@[q];
                        &&& p_new.source == p_old.source
                        &&& p_new.color == p_old.color
                        &&& p_new.segments@.len() == p_old.segments@.len()
                        &&& forall|m: int|
                            0 <= m < p_new.segments@.len() ==> p_new.segments@[m]
                                == LightSegment::spec_hidden()
                    },
            decreases self.pools@.len() - j,
        {
            let ghost pools_before = self.pools@;
            let mut pool = self.pools.remove(j);
            let ghost seg0 = pool.segments@;
            let mut m: usize = 0;
            while m < pool.segments.len()
                invariant
                    m <= pool.segments@.len(),
                    pool.segments@.len() == seg0.len(),
                    j < pools_before.len(),
                    pool.source == pools_before[j as int].source,
                    pool.color == pools_before[j as int].color,
                    forall|q: int|
                        0 <= q < m ==> pool.segments@[q] == LightSegment::spec_hidden(),
                decreases pool.segments@.len() - m,
            {
                pool.segments.set(m, LightSegment::hidden());
                m = m + 1;
            }
            self.pools.insert(j, pool);
            proof {
                assert(self.pools@ =~= pools_before.update(
                    j as int,
                    SegmentPool {
                        source: pool.source,
                        color: pool.color,
                        segments: pool.segments,
                    },
                ));
            }
            j = j + 1;
        }
        proof {
            assert(forall|q: int|
                0 <= q < self.pools@.len() ==> (#[trigger] self.pools@[q]).source
                    == pools0[q].source);
        }
    }
}

/// Level reset: despawns every fired beam and its cache, and parks every
/// pooled segment hidden. Restores the beam layer to its initial state.
pub fn cleanup_light_sources(
    sources: &mut Vec<LightBeamSource>,
    caches: &mut Vec<PrevLightBeamPlayback>,
    segment_cache: &mut LightSegmentCache,
)
    requires
        old(segment_cache).wf(),
    ensures
        final(sources)@.len() == 0,
        final(caches)@.len() == 0,
        final(segment_cache).wf(),
        final(segment_cache).pools@.len() == old(segment_cache).pools@.len(),
        forall|j: int|
            #![trigger old(segment_cache).pools@[j]]
            0 <= j < old(segment_cache).pools@.len() ==> {
                let p_old = old(segment_cache).pools@[j];
                let p_new = final(segment_cache).pools@[j];
                &&& p_new.source == p_old.source
                &&& p_new.color == p_old.color
                &&& p_new.segments@.len() == p_old.segments@.len()
                &&& forall|m: int|
                    0 <= m < p_new.segments@.len() ==> p_new.segments@[m]
                        == LightSegment::spec_hidden()
            },
{
    sources.clear();
    caches.clear();
    segment_cache.hide_all_segments();
}

} // verus!
