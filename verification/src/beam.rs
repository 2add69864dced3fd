//! The beam tracer: from a beam source's stored parameters it recomputes, on
//! every simulation tick, the full bounce path through the current scene by
//! repeatedly raycasting and reflecting.

use vstd::prelude::*;

use crate::color::LightColor;
use crate::geom::{spec_point_at, point_at, Dir8, Vec2i, COORD_LIMIT};
use crate::scene::{spec_cast_ray, Scene};

verus! {

/// Hard cap on the number of segments a single beam may produce, whatever
/// its color's bounce allowance says.
pub const LIGHT_MAX_SEGMENTS: usize = 15;

/// A fired beam: the parameters the path is recomputed from on every tick.
/// `time_traveled` is the travel budget; it grows by a fixed speed each tick,
/// which is what makes the beam appear to extend outward over time.
#[derive(Clone, Copy, Debug, PartialEq, Eq, Structural)]
pub struct LightBeamSource {
    pub start_pos: Vec2i,
    pub start_dir: Dir8,
    pub time_traveled: i64,
    pub color: LightColor,
}

impl LightBeamSource {
    /// The origin lies within the scene bound and the budget is nonnegative
    /// and bounded.
    pub open spec fn wf(self) -> bool {
        &&& self.start_pos.in_bounds()
        &&& 0 <= self.time_traveled <= COORD_LIMIT
    }
}

/// One recorded bounce: the struck entity, the contact point, and the
/// cumulative travel parameter at which the beam reaches it.
#[derive(Clone, Copy, Debug, PartialEq, Eq, Structural)]
pub struct LightBeamIntersection {
    pub entity: u64,
    pub point: Vec2i,
    pub time: i64,
}

/// Specification-level image of a traced path.
#[verifier::ext_equal]
pub struct SpecPlayback {
    pub intersections: Seq<LightBeamIntersection>,
    pub end_point: Option<Vec2i>,
    pub elapsed_time: int,
}

/// The traced path of one beam for one tick: the ordered bounce contacts,
/// the free end of the beam if it ran out of budget in open space, and the
/// travel parameter consumed.
#[derive(Debug)]
pub struct LightBeamPlayback {
    pub intersections: Vec<LightBeamIntersection>,
    pub end_point: Option<Vec2i>,
    pub elapsed_time: i64,
}

impl View for LightBeamPlayback {
    type V = SpecPlayback;

    open spec fn view(&self) -> SpecPlayback {
        SpecPlayback {
            intersections: self.intersections@,
            end_point: self.end_point,
            elapsed_time: self.elapsed_time as int,
        }
    }
}

impl LightColor {
    /// Number of path segments a beam of this color may produce: one more
    /// than its bounce allowance, hard-capped at [`LIGHT_MAX_SEGMENTS`].
    pub open spec fn segment_budget(self) -> nat {
        if self.num_bounces() + 1 <= 15 {
            (self.num_bounces() + 1) as nat
        } else {
            15
        }
    }
}

/// One playback prefixed by already-recorded intersections.
pub open spec fn play_concat(pre: Seq<LightBeamIntersection>, p: SpecPlayback) -> SpecPlayback {
    SpecPlayback {
        intersections: pre + p.intersections,
        end_point: p.end_point,
        elapsed_time: p.elapsed_time,
    }
}

/// The path traced from `pos` along `dir` with `remaining` budget and `fuel`
/// segments left: cast a ray; if nothing is struck the beam ends in open
/// space after its whole remaining budget; otherwise record the contact,
/// reflect, and continue from the contact point. A struck entity is excluded
/// from the following casts unless it was struck at distance zero (a beam
/// embedded at a surface must not tunnel through it).
pub open spec fn spec_play(
    cs: Seq<crate::scene::Collider>,
    pos: Vec2i,
    dir: Dir8,
    remaining: int,
    elapsed: int,
    excluded: Seq<u64>,
    mask: u32,
    fuel: nat,
) -> SpecPlayback
    decreases fuel,
{
    if fuel == 0 {
        SpecPlayback { intersections: Seq::empty(), end_point: None, elapsed_time: elapsed }
    } else {
        match spec_cast_ray(cs, pos, dir, remaining, mask, excluded) {
            Option::None => SpecPlayback {
                intersections: Seq::empty(),
                end_point: Some(spec_point_at(pos, dir, remaining)),
                elapsed_time: elapsed + remaining,
            },
            Option::Some(h) => {
                let ipoint = spec_point_at(pos, dir, h.time);
                let inter = LightBeamIntersection {
                    entity: h.entity,
                    point: ipoint,
                    time: (elapsed + h.time) as i64,
                };
                let excluded2 = if h.time == 0 {
                    excluded
                } else {
                    excluded.push(h.entity)
                };
                let rest = spec_play(
                    cs,
                    ipoint,
                    dir.reflect(h.normal),
                    remaining - h.time,
                    elapsed + h.time,
                    excluded2,
                    mask,
                    (fuel - 1) as nat,
                );
                SpecPlayback {
                    intersections: seq![inter] + rest.intersections,
                    end_point: rest.end_point,
                    elapsed_time: rest.elapsed_time,
                }
            },
        }
    }
}

/// The full path of a beam source: traced from its stored origin and
/// direction, with its whole travel budget, against its color's collision
/// mask, with its color's segment budget.
pub open spec fn spec_play_light_beam(
    cs: Seq<crate::scene::Collider>,
    source: LightBeamSource,
) -> SpecPlayback {
    spec_play(
        cs,
        source.start_pos,
        source.start_dir,
        source.time_traveled as int,
        0,
        Seq::empty(),
        source.color.collision_mask(),
        source.color.segment_budget(),
    )
}

/// A traced path records at most `fuel` intersections.
pub proof fn lemma_spec_play_len(
    cs: Seq<crate::scene::Collider>,
    pos: Vec2i,
    dir: Dir8,
    remaining: int,
    elapsed: int,
    excluded: Seq<u64>,
    mask: u32,
    fuel: nat,
)
    ensures
        spec_play(cs, pos, dir, remaining, elapsed, excluded, mask, fuel).intersections.len()
            <= fuel,
    decreases fuel,
{
    if fuel > 0 {
        match spec_cast_ray(cs, pos, dir, remaining, mask, excluded) {
            Option::None => {},
            Option::Some(h) => {
                let ipoint = spec_point_at(pos, dir, h.time);
                let excluded2 = if h.time == 0 {
                    excluded
                } else {
                    excluded.push(h.entity)
                };
                lemma_spec_play_len(
                    cs,
                    ipoint,
                    dir.reflect(h.normal),
                    remaining - h.time,
                    elapsed + h.time,
                    excluded2,
                    mask,
                    (fuel - 1) as nat,
                );
            },
        }
    }
}

/// Every recorded cumulative time lies between the travel already consumed
/// and the whole budget, and consecutive recorded times never decrease.
pub proof fn lemma_spec_play_times(
    cs: Seq<crate::scene::Collider>,
    pos: Vec2i,
    dir: Dir8,
    remaining: int,
    elapsed: int,
    excluded: Seq<u64>,
    mask: u32,
    fuel: nat,
)
    requires
        0 <= elapsed,
        0 <= remaining,
        elapsed + remaining <= COORD_LIMIT,
    ensures
        ({
            let p = spec_play(cs, pos, dir, remaining, elapsed, excluded, mask, fuel);
            &&& forall|j: int|
                0 <= j < p.intersections.len() ==> elapsed <= (#[trigger] p.intersections[j]).time
                    <= elapsed + remaining
            &&& forall|j: int|
                0 <= j < p.intersections.len() - 1 ==> (#[trigger] p.intersections[j]).time
                    <= p.intersections[j + 1].time
        }),
    decreases fuel,
{
    if fuel > 0 {
        match spec_cast_ray(cs, pos, dir, remaining, mask, excluded) {
            Option::None => {},
            Option::Some(h) => {
                crate::scene::lemma_cast_prefix_time_bounds(
                    cs,
                    cs.len() as int,
                    pos,
                    dir,
                    remaining,
                    mask,
                    excluded,
                );
                let ipoint = spec_point_at(pos, dir, h.time);
                let excluded2 = if h.time == 0 {
                    excluded
                } else {
                    excluded.push(h.entity)
                };
                lemma_spec_play_times(
                    cs,
                    ipoint,
                    dir.reflect(h.normal),
                    remaining - h.time,
                    elapsed + h.time,
                    excluded2,
                    mask,
                    (fuel - 1) as nat,
                );
            },
        }
    }
}

/// In the bounce chain from this state, every cast beyond the first that
/// strikes something strikes it at a positive distance: the beam never lands
/// on a second surface at the exact point it just reflected from, and it did
/// not start inside a collider it collides with.
pub open spec fn spec_play_advances(
    cs: Seq<crate::scene::Collider>,
    pos: Vec2i,
    dir: Dir8,
    remaining: int,
    excluded: Seq<u64>,
    mask: u32,
    fuel: nat,
    first: bool,
) -> bool
    decreases fuel,
{
    if fuel == 0 {
        true
    } else {
        match spec_cast_ray(cs, pos, dir, remaining, mask, excluded) {
            Option::None => true,
            Option::Some(h) => (first || h.time > 0) && spec_play_advances(
                cs,
                spec_point_at(pos, dir, h.time),
                dir.reflect(h.normal),
                remaining - h.time,
                if h.time == 0 {
                    excluded
                } else {
                    excluded.push(h.entity)
                },
                mask,
                (fuel - 1) as nat,
                false,
            ),
        }
    }
}

/// The whole bounce chain of a beam source advances strictly after its first
/// contact.
pub open spec fn beam_advances(cs: Seq<crate::scene::Collider>, source: LightBeamSource) -> bool {
    spec_play_advances(
        cs,
        source.start_pos,
        source.start_dir,
        source.time_traveled as int,
        Seq::empty(),
        source.color.collision_mask(),
        source.color.segment_budget(),
        true,
    )
}

/// Under [`spec_play_advances`], consecutive recorded cumulative times are
/// strictly increasing.
#[verifier::rlimit(60)]
pub proof fn lemma_spec_play_times_strict(
    cs: Seq<crate::scene::Collider>,
    pos: Vec2i,
    dir: Dir8,
    remaining: int,
    elapsed: int,
    excluded: Seq<u64>,
    mask: u32,
    fuel: nat,
    first: bool,
)
    requires
        0 <= elapsed,
        0 <= remaining,
        elapsed + remaining <= COORD_LIMIT,
        spec_play_advances(cs, pos, dir, remaining, excluded, mask, fuel, first),
    ensures
        ({
            let p = spec_play(cs, pos, dir, remaining, elapsed, excluded, mask, fuel);
            forall|j: int|
                0 <= j < p.intersections.len() - 1 ==> (#[trigger] p.intersections[j]).time
                    < p.intersections[j + 1].time
        }),
    decreases fuel,
{
    if fuel > 0 {
        match spec_cast_ray(cs, pos, dir, remaining, mask, excluded) {
            Option::None => {},
            Option::Some(h) => {
                crate::scene::lemma_cast_prefix_time_bounds(
                    cs,
                    cs.len() as int,
                    pos,
                    dir,
                    remaining,
                    mask,
                    excluded,
                );
                let ipoint = spec_point_at(pos, dir, h.time);
                let dir2 = dir.reflect(h.normal);
                let excluded2 = if h.time == 0 {
                    excluded
                } else {
                    excluded.push(h.entity)
                };
                lemma_spec_play_times_strict(
                    cs,
                    ipoint,
                    dir2,
                    remaining - h.time,
                    elapsed + h.time,
                    excluded2,
                    mask,
                    (fuel - 1) as nat,
                    false,
                );
                lemma_spec_play_times(
                    cs,
                    ipoint,
                    dir2,
                    remaining - h.time,
                    elapsed + h.time,
                    excluded2,
                    mask,
                    (fuel - 1) as nat,
                );
                let rest = spec_play(
                    cs,
                    ipoint,
                    dir2,
                    remaining - h.time,
                    elapsed + h.time,
                    excluded2,
                    mask,
                    (fuel - 1) as nat,
                );
                if rest.intersections.len() > 0 {
                    // The contact starting `rest` is the first cast of the
                    // tail state, and it carries `first == false`, so it
                    // strikes at a positive distance and the recorded time
                    // after the head contact strictly grows.
                    if (fuel - 1) as nat == 0 {
                        assert(rest.intersections.len() == 0);
                    } else {
                        match spec_cast_ray(cs, ipoint, dir2, remaining - h.time, mask, excluded2) {
                            Option::None => {
                                assert(rest.intersections.len() == 0);
                            },
                            Option::Some(h2) => {
                                crate::scene::lemma_cast_prefix_time_bounds(
                                    cs,
                                    cs.len() as int,
                                    ipoint,
                                    dir2,
                                    remaining - h.time,
                                    mask,
                                    excluded2,
                                );
                                assert(spec_play_advances(
                                    cs,
                                    ipoint,
                                    dir2,
                                    remaining - h.time,
                                    excluded2,
                                    mask,
                                    (fuel - 1) as nat,
                                    false,
                                ));
                                assert(h2.time > 0);
                                assert(rest.intersections[0].time == (elapsed + h.time
                                    + h2.time) as i64);
                            },
                        }
                    }
                }
            },
        }
    }
}

/// Law: cumulative times along a traced path are strictly increasing, for
/// every trace whose bounce chain advances (it did not start embedded inside
/// a collider and never reflects exactly into a second surface at the same
/// point).
pub proof fn lemma_monotonic_cumulative_time(
    cs: Seq<crate::scene::Collider>,
    source: LightBeamSource,
)
    requires
        source.wf(),
        beam_advances(cs, source),
    ensures
        ({
            let p = spec_play_light_beam(cs, source);
            forall|j: int|
                0 <= j < p.intersections.len() - 1 ==> (#[trigger] p.intersections[j]).time
                    < p.intersections[j + 1].time
        }),
{
    lemma_spec_play_times_strict(
        cs,
        source.start_pos,
        source.start_dir,
        source.time_traveled as int,
        0,
        Seq::empty(),
        source.color.collision_mask(),
        source.color.segment_budget(),
        true,
    );
}

/// Law: the number of intersections of any traced path is bounded by the
/// color's bounce allowance plus one, and by the hard segment cap, whatever
/// the scene is.
pub proof fn lemma_bounce_cap(cs: Seq<crate::scene::Collider>, source: LightBeamSource)
    ensures
        spec_play_light_beam(cs, source).intersections.len() <= source.color.num_bounces() + 1,
        spec_play_light_beam(cs, source).intersections.len() <= LIGHT_MAX_SEGMENTS,
{
    lemma_spec_play_len(
        cs,
        source.start_pos,
        source.start_dir,
        source.time_traveled as int,
        0,
        Seq::empty(),
        source.color.collision_mask(),
        source.color.segment_budget(),
    );
}

/// Law: tracing is deterministic. The path is a pure function of the scene
/// and the source's stored parameters: any two playbacks obtained from them
/// are one and the same, which is also why [`play_light_beam`]'s
/// postcondition can pin its result to [`spec_play_light_beam`] exactly.
pub proof fn lemma_trace_deterministic(
    cs: Seq<crate::scene::Collider>,
    source: LightBeamSource,
    p1: SpecPlayback,
    p2: SpecPlayback,
)
    requires
        p1 == spec_play_light_beam(cs, source),
        p2 == spec_play_light_beam(cs, source),
    ensures
        p1 == p2,
{
}

/// A trace with a larger remaining budget records the smaller trace's
/// contacts first, unchanged.
pub proof fn lemma_spec_play_prefix(
    cs: Seq<crate::scene::Collider>,
    pos: Vec2i,
    dir: Dir8,
    rem1: int,
    rem2: int,
    elapsed: int,
    excluded: Seq<u64>,
    mask: u32,
    fuel: nat,
)
    requires
        0 <= rem1 <= rem2,
    ensures
        ({
            let p1 = spec_play(cs, pos, dir, rem1, elapsed, excluded, mask, fuel);
            let p2 = spec_play(cs, pos, dir, rem2, elapsed, excluded, mask, fuel);
            &&& p1.intersections.len() <= p2.intersections.len()
            &&& p1.intersections == p2.intersections.take(p1.intersections.len() as int)
        }),
    decreases fuel,
{
    if fuel > 0 {
        crate::scene::lemma_cast_prefix_monotone(
            cs,
            cs.len() as int,
            pos,
            dir,
            rem1,
            rem2,
            mask,
            excluded,
        );
        crate::scene::lemma_cast_prefix_time_bounds(
            cs,
            cs.len() as int,
            pos,
            dir,
            rem1,
            mask,
            excluded,
        );
        match spec_cast_ray(cs, pos, dir, rem1, mask, excluded) {
            Option::None => {
                let p1 = spec_play(cs, pos, dir, rem1, elapsed, excluded, mask, fuel);
                let p2 = spec_play(cs, pos, dir, rem2, elapsed, excluded, mask, fuel);
                assert(p1.intersections =~= p2.intersections.take(0));
            },
            Option::Some(h) => {
                let ipoint = spec_point_at(pos, dir, h.time);
                let dir2 = dir.reflect(h.normal);
                let excluded2 = if h.time == 0 {
                    excluded
                } else {
                    excluded.push(h.entity)
                };
                lemma_spec_play_prefix(
                    cs,
                    ipoint,
                    dir2,
                    rem1 - h.time,
                    rem2 - h.time,
                    elapsed + h.time,
                    excluded2,
                    mask,
                    (fuel - 1) as nat,
                );
                let r1 = spec_play(
                    cs,
                    ipoint,
                    dir2,
                    rem1 - h.time,
                    elapsed + h.time,
                    excluded2,
                    mask,
                    (fuel - 1) as nat,
                );
                let r2 = spec_play(
                    cs,
                    ipoint,
                    dir2,
                    rem2 - h.time,
                    elapsed + h.time,
                    excluded2,
                    mask,
                    (fuel - 1) as nat,
                );
                let p1 = spec_play(cs, pos, dir, rem1, elapsed, excluded, mask, fuel);
                let p2 = spec_play(cs, pos, dir, rem2, elapsed, excluded, mask, fuel);
                assert(p1.intersections =~= p2.intersections.take(
                    p1.intersections.len() as int,
                ));
            },
        }
    }
}

/// Law: a growing travel budget only extends the beam's path. The contacts
/// recorded with a smaller budget are exactly the first contacts recorded
/// with any larger budget, which is what lets the source re-trace from its
/// stored parameters every tick while the beam appears to travel outward
/// through fixed bounce geometry.
pub proof fn lemma_growing_budget_extends_path(
    cs: Seq<crate::scene::Collider>,
    source: LightBeamSource,
    t1: i64,
    t2: i64,
)
    requires
        0 <= t1 <= t2,
    ensures
        ({
            let p1 = spec_play_light_beam(cs, LightBeamSource { time_traveled: t1, ..source });
            let p2 = spec_play_light_beam(cs, LightBeamSource { time_traveled: t2, ..source });
            &&& p1.intersections.len() <= p2.intersections.len()
            &&& p1.intersections == p2.intersections.take(p1.intersections.len() as int)
        }),
{
    lemma_spec_play_prefix(
        cs,
        source.start_pos,
        source.start_dir,
        t1 as int,
        t2 as int,
        0,
        Seq::empty(),
        source.color.collision_mask(),
        source.color.segment_budget(),
    );
}

/// Traces the beam's path for this tick. The returned playback is exactly
/// the specification-level path of the source through the scene, and its
/// intersection count respects the color's bounce allowance and the hard
/// segment cap.
#[verifier::rlimit(80)]
pub fn play_light_beam(scene: &Scene, source: &LightBeamSource) -> (p: LightBeamPlayback)
    requires
        scene.wf(),
        source.wf(),
    ensures
        p@ == spec_play_light_beam(scene.colliders@, *source),
        p.intersections@.len() <= source.color.segment_budget(),
        forall|j: int|
            0 <= j < p.intersections@.len() ==> 0 <= (#[trigger] p.intersections@[j]).time
                <= source.time_traveled,
        forall|j: int|
            0 <= j < p.intersections@.len() - 1 ==> (#[trigger] p.intersections@[j]).time
                <= p.intersections@[j + 1].time,
{
    let mask = source.color.collision_mask_exec();
    let bounces = source.color.num_bounces_exec();
    let num_segments = bounces + 1;
    let cap: usize = if num_segments < LIGHT_MAX_SEGMENTS {
        num_segments
    } else {
        LIGHT_MAX_SEGMENTS
    };
    proof {
        assert(cap == source.color.segment_budget());
    }

    let mut ray_pos = source.start_pos;
    let mut ray_dir = source.start_dir;
    let mut remaining = source.time_traveled;
    let mut elapsed: i64 = 0;
    let mut excluded: Vec<u64> = Vec::new();
    let mut intersections: Vec<LightBeamIntersection> = Vec::new();
    let mut end_point: Option<Vec2i> = None;
    let mut i: usize = 0;

    proof {
        assert(Seq::<LightBeamIntersection>::empty() + spec_play_light_beam(
            scene.colliders@,
            *source,
        ).intersections =~= spec_play_light_beam(scene.colliders@, *source).intersections);
        assert(play_concat(Seq::<LightBeamIntersection>::empty(), spec_play_light_beam(
            scene.colliders@,
            *source,
        )) =~= spec_play_light_beam(scene.colliders@, *source));
    }

    while i < cap
        invariant_except_break
            scene.wf(),
            source.wf(),
            mask == source.color.collision_mask(),
            cap == source.color.segment_budget(),
            i <= cap,
            intersections@.len() == i,
            0 <= elapsed,
            0 <= remaining,
            elapsed + remaining == source.time_traveled,
            -COORD_LIMIT - elapsed <= ray_pos.x <= COORD_LIMIT + elapsed,
            -COORD_LIMIT - elapsed <= ray_pos.y <= COORD_LIMIT + elapsed,
            end_point is None,
            spec_play_light_beam(scene.colliders@, *source) == play_concat(
                intersections@,
                spec_play(
                    scene.colliders@,
                    ray_pos,
                    ray_dir,
                    remaining as int,
                    elapsed as int,
                    excluded@,
                    mask,
                    (cap - i) as nat,
                ),
            ),
        ensures
            intersections@.len() <= cap,
            0 <= elapsed <= COORD_LIMIT,
            spec_play_light_beam(scene.colliders@, *source) == (SpecPlayback {
                intersections: intersections@,
                end_point,
                elapsed_time: elapsed as int,
            }),
        decreases cap - i,
    {
        let ghost ints0 = intersections@;
        let ghost pos0 = ray_pos;
        let ghost dir0 = ray_dir;
        let ghost rem0 = remaining as int;
        let ghost ela0 = elapsed as int;
        let ghost exc0 = excluded@;
        let ghost fuel0 = (cap - i) as nat;

        match scene.cast_ray(ray_pos, ray_dir, remaining, mask, &excluded) {
            Option::None => {
                end_point = Some(point_at(ray_pos, ray_dir, remaining));
                elapsed = elapsed + remaining;
                proof {
                    assert(ints0 + spec_play(
                        scene.colliders@,
                        pos0,
                        dir0,
                        rem0,
                        ela0,
                        exc0,
                        mask,
                        fuel0,
                    ).intersections =~= ints0);
                }
                break ;
            },
            Option::Some(hit) => {
                let hit_point = point_at(ray_pos, ray_dir, hit.time);
                proof {
                    crate::geom::lemma_dir_step_bounds(ray_dir, hit.time as int);
                }
                elapsed = elapsed + hit.time;
                remaining = remaining - hit.time;
                intersections.push(
                    LightBeamIntersection { entity: hit.entity, point: hit_point, time: elapsed },
                );
                ray_pos = hit_point;
                ray_dir = ray_dir.reflect_exec(hit.normal);
                if hit.time > 0 {
                    excluded.push(hit.entity);
                }
                i = i + 1;
                proof {
                    let p0 = spec_play(scene.colliders@, pos0, dir0, rem0, ela0, exc0, mask, fuel0);
                    let p1 = spec_play(
                        scene.colliders@,
                        ray_pos,
                        ray_dir,
                        remaining as int,
                        elapsed as int,
                        excluded@,
                        mask,
                        (cap - i) as nat,
                    );
                    assert(ints0 + p0.intersections =~= intersections@ + p1.intersections);
                    assert(play_concat(ints0, p0) =~= play_concat(intersections@, p1));
                }
            },
        }
    }

    proof {
        lemma_spec_play_len(
            scene.colliders@,
            source.start_pos,
            source.start_dir,
            source.time_traveled as int,
            0,
            Seq::empty(),
            source.color.collision_mask(),
            source.color.segment_budget(),
        );
        lemma_spec_play_times(
            scene.colliders@,
            source.start_pos,
            source.start_dir,
            source.time_traveled as int,
            0,
            Seq::empty(),
            source.color.collision_mask(),
            source.color.segment_budget(),
        );
    }
    LightBeamPlayback { intersections, end_point, elapsed_time: elapsed }
}

/// Vertices of the rendered beam polyline: the source position, each contact
/// point in order, then the free end of the beam if it has one.
pub open spec fn spec_points(source: LightBeamSource, p: SpecPlayback) -> Seq<Vec2i> {
    seq![source.start_pos] + p.intersections.map_values(|x: LightBeamIntersection| x.point)
        + match p.end_point {
        Option::Some(e) => seq![e],
        Option::None => Seq::empty(),
    }
}

impl LightBeamPlayback {
    /// Collects the rendered polyline's vertices, equal to the
    /// specification-level [`spec_points`].
    pub fn iter_points(&self, source: &LightBeamSource) -> (pts: Vec<Vec2i>)
        ensures
            pts@ == spec_points(*source, self@),
    {
        let mut pts: Vec<Vec2i> = Vec::new();
        pts.push(source.start_pos);
        let mut i: usize = 0;
        while i < self.intersections.len()
            invariant
                i <= self.intersections@.len(),
                pts@ =~= seq![source.start_pos] + self.intersections@.subrange(
                    0,
                    i as int,
                ).map_values(|x: LightBeamIntersection| x.point),
            decreases self.intersections@.len() - i,
        {
            pts.push(self.intersections[i].point);
            proof {
                assert(self.intersections@.subrange(0, i + 1 as int) =~= self.intersections@
                    .subrange(0, i as int).push(self.intersections@[i as int]));
                assert(self.intersections@.subrange(0, i + 1 as int).map_values(
                    |x: LightBeamIntersection| x.point,
                ) =~= self.intersections@.subrange(0, i as int).map_values(
                    |x: LightBeamIntersection| x.point,
                ).push(self.intersections@[i as int].point));
            }
            i = i + 1;
        }
        proof {
            assert(self.intersections@.subrange(0, self.intersections@.len() as int) =~= self
                .intersections@);
        }
        if let Some(e) = self.end_point {
            pts.push(e);
        }
        proof {
            assert(pts@ =~= spec_points(*source, self@));
        }
        pts
    }
}

/// Advances every beam source's travel budget by one tick of beam speed,
/// clamped to the coordinate bound so the source stays well-formed.
pub fn tick_light_sources(sources: &mut Vec<LightBeamSource>)
    requires
        forall|j: int| 0 <= j < old(sources)@.len() ==> (#[trigger] old(sources)@[j]).wf(),
    ensures
        final(sources)@.len() == old(sources)@.len(),
        forall|j: int|
            0 <= j < old(sources)@.len() ==> #[trigger] final(sources)@[j] == (LightBeamSource {
                time_traveled: if old(sources)@[j].time_traveled + crate::color::LIGHT_SPEED
                    <= COORD_LIMIT {
                    (old(sources)@[j].time_traveled + crate::color::LIGHT_SPEED) as i64
                } else {
                    COORD_LIMIT
                },
                ..old(sources)@[j]
            }),
        forall|j: int| 0 <= j < final(sources)@.len() ==> (#[trigger] final(sources)@[j]).wf(),
{
    let mut i: usize = 0;
    while i < sources.len()
        invariant
            i <= sources@.len(),
            sources@.len() == old(sources)@.len(),
            forall|j: int| 0 <= j < old(sources)@.len() ==> (#[trigger] old(sources)@[j]).wf(),
            forall|j: int| i <= j < sources@.len() ==> sources@[j] == old(sources)@[j],
            forall|j: int|
                0 <= j < i ==> #[trigger] sources@[j] == (LightBeamSource {
                    time_traveled: if old(sources)@[j].time_traveled + crate::color::LIGHT_SPEED
                        <= COORD_LIMIT {
                        (old(sources)@[j].time_traveled + crate::color::LIGHT_SPEED) as i64
                    } else {
                        COORD_LIMIT
                    },
                    ..old(sources)@[j]
                }),
        decreases sources@.len() - i,
    {
        let s = sources[i];
        let new_time = if s.time_traveled <= COORD_LIMIT - crate::color::LIGHT_SPEED {
            s.time_traveled + crate::color::LIGHT_SPEED
        } else {
            COORD_LIMIT
        };
        sources.set(i, LightBeamSource { time_traveled: new_time, ..s });
        i = i + 1;
    }
}

} // verus!
