//! The static collision world a beam is traced through: axis-aligned box
//! colliders tagged with an entity id and collision-layer memberships, and a
//! raycast over them returning the nearest hit.

use vstd::prelude::*;

use crate::geom::{Dir8, HitNormal, Vec2i, COORD_LIMIT};

verus! {

/// An axis-aligned box collider: the closed region `min.x..max.x` by
/// `min.y..max.y`, owned by entity `entity`, member of the layers set in the
/// bitset `layers`.
#[derive(Clone, Copy, Debug, PartialEq, Eq, Structural)]
pub struct Collider {
    pub entity: u64,
    pub min: Vec2i,
    pub max: Vec2i,
    pub layers: u32,
}

impl Collider {
    /// A well-formed collider has a nonempty closed region within the
    /// coordinate bound.
    pub open spec fn wf(self) -> bool {
        &&& self.min.x <= self.max.x
        &&& self.min.y <= self.max.y
        &&& self.min.in_bounds()
        &&& self.max.in_bounds()
    }
}

/// Ray parameter at which the ray from `pos` along `dir` enters the
/// horizontal extent of `c`; meaningful only when `dir.dx() != 0`.
pub open spec fn enter_x(c: Collider, pos: Vec2i, dir: Dir8) -> int {
    if dir.dx() == 1 {
        c.min.x - pos.x
    } else {
        pos.x - c.max.x
    }
}

/// Ray parameter at which the ray leaves the horizontal extent of `c`;
/// meaningful only when `dir.dx() != 0`.
pub open spec fn exit_x(c: Collider, pos: Vec2i, dir: Dir8) -> int {
    if dir.dx() == 1 {
        c.max.x - pos.x
    } else {
        pos.x - c.min.x
    }
}

/// Ray parameter at which the ray enters the vertical extent of `c`;
/// meaningful only when `dir.dy() != 0`.
pub open spec fn enter_y(c: Collider, pos: Vec2i, dir: Dir8) -> int {
    if dir.dy() == 1 {
        c.min.y - pos.y
    } else {
        pos.y - c.max.y
    }
}

/// Ray parameter at which the ray leaves the vertical extent of `c`;
/// meaningful only when `dir.dy() != 0`.
pub open spec fn exit_y(c: Collider, pos: Vec2i, dir: Dir8) -> int {
    if dir.dy() == 1 {
        c.max.y - pos.y
    } else {
        pos.y - c.min.y
    }
}

/// On each axis the ray does not move along, the ray must already lie within
/// the collider's extent for a hit to be possible at all.
pub open spec fn slab_ok(c: Collider, pos: Vec2i, dir: Dir8) -> bool {
    &&& dir.dx() == 0 ==> c.min.x <= pos.x <= c.max.x
    &&& dir.dy() == 0 ==> c.min.y <= pos.y <= c.max.y
}

/// Ray parameter at which the ray enters the collider's region: the later of
/// the per-axis entries, over the axes the ray moves along.
pub open spec fn ray_enter(c: Collider, pos: Vec2i, dir: Dir8) -> int {
    if dir.dx() != 0 && dir.dy() != 0 {
        if enter_x(c, pos, dir) >= enter_y(c, pos, dir) {
            enter_x(c, pos, dir)
        } else {
            enter_y(c, pos, dir)
        }
    } else if dir.dx() != 0 {
        enter_x(c, pos, dir)
    } else {
        enter_y(c, pos, dir)
    }
}

/// Ray parameter at which the ray leaves the collider's region: the earlier
/// of the per-axis exits, over the axes the ray moves along.
pub open spec fn ray_exit(c: Collider, pos: Vec2i, dir: Dir8) -> int {
    if dir.dx() != 0 && dir.dy() != 0 {
        if exit_x(c, pos, dir) <= exit_y(c, pos, dir) {
            exit_x(c, pos, dir)
        } else {
            exit_y(c, pos, dir)
        }
    } else if dir.dx() != 0 {
        exit_x(c, pos, dir)
    } else {
        exit_y(c, pos, dir)
    }
}

/// The ray strikes the collider: the entry interval is nonempty and some part
/// of the collider lies strictly ahead of the ray's start. A ray leaving a
/// face it starts on (the region behind it, exit at 0) does not strike it.
pub open spec fn ray_hits(c: Collider, pos: Vec2i, dir: Dir8) -> bool {
    &&& slab_ok(c, pos, dir)
    &&& ray_enter(c, pos, dir) <= ray_exit(c, pos, dir)
    &&& ray_exit(c, pos, dir) > 0
}

/// Ray parameter of the strike: the entry parameter, or 0 when the ray
/// starts inside the region. Meaningful only when `ray_hits` holds.
pub open spec fn hit_time(c: Collider, pos: Vec2i, dir: Dir8) -> int {
    if ray_enter(c, pos, dir) >= 0 {
        ray_enter(c, pos, dir)
    } else {
        0
    }
}

/// Normal of the struck surface: the face crossed last among the moving axes
/// (the horizontal face winning exact corner ties), or `Reverse` when the ray
/// starts strictly past the boundary, inside the region. Meaningful only when
/// `ray_hits` holds.
pub open spec fn hit_normal(c: Collider, pos: Vec2i, dir: Dir8) -> HitNormal {
    if ray_enter(c, pos, dir) < 0 {
        HitNormal::Reverse
    } else if dir.dx() != 0 && (dir.dy() == 0 || enter_x(c, pos, dir) >= enter_y(c, pos, dir)) {
        if dir.dx() == 1 {
            HitNormal::XNeg
        } else {
            HitNormal::XPos
        }
    } else {
        if dir.dy() == 1 {
            HitNormal::YNeg
        } else {
            HitNormal::YPos
        }
    }
}

/// The collider passes the cast's filter and is struck within `max_t`.
pub open spec fn candidate(
    c: Collider,
    pos: Vec2i,
    dir: Dir8,
    max_t: int,
    mask: u32,
    excluded: Seq<u64>,
) -> bool {
    &&& c.layers & mask != 0
    &&& !excluded.contains(c.entity)
    &&& ray_hits(c, pos, dir)
    &&& hit_time(c, pos, dir) <= max_t
}

/// Specification-level description of a ray hit.
pub struct SpecHit {
    pub entity: u64,
    pub time: int,
    pub normal: HitNormal,
}

/// Nearest hit among the first `n` colliders; on equal strike parameters the
/// earliest collider in scene order wins.
pub open spec fn spec_cast_prefix(
    cs: Seq<Collider>,
    n: int,
    pos: Vec2i,
    dir: Dir8,
    max_t: int,
    mask: u32,
    excluded: Seq<u64>,
) -> Option<SpecHit>
    decreases n,
{
    if n <= 0 {
        None
    } else {
        let rest = spec_cast_prefix(cs, n - 1, pos, dir, max_t, mask, excluded);
        let c = cs[n - 1];
        if candidate(c, pos, dir, max_t, mask, excluded) {
            let t = hit_time(c, pos, dir);
            match rest {
                Option::None => Option::Some(
                    SpecHit { entity: c.entity, time: t, normal: hit_normal(c, pos, dir) },
                ),
                Option::Some(h) => if t < h.time {
                    Option::Some(
                        SpecHit { entity: c.entity, time: t, normal: hit_normal(c, pos, dir) },
                    )
                } else {
                    rest
                },
            }
        } else {
            rest
        }
    }
}

/// Nearest hit in the whole scene for the given filter, or `None` when
/// nothing passing the filter is struck within `max_t`.
pub open spec fn spec_cast_ray(
    cs: Seq<Collider>,
    pos: Vec2i,
    dir: Dir8,
    max_t: int,
    mask: u32,
    excluded: Seq<u64>,
) -> Option<SpecHit> {
    spec_cast_prefix(cs, cs.len() as int, pos, dir, max_t, mask, excluded)
}

/// A returned hit always lies within the cast's reach: its parameter is
/// between 0 and `max_t`.
pub proof fn lemma_cast_prefix_time_bounds(
    cs: Seq<Collider>,
    n: int,
    pos: Vec2i,
    dir: Dir8,
    max_t: int,
    mask: u32,
    excluded: Seq<u64>,
)
    ensures
        spec_cast_prefix(cs, n, pos, dir, max_t, mask, excluded) matches Option::Some(h) ==> 0
            <= h.time <= max_t,
    decreases n,
{
    if n > 0 {
        lemma_cast_prefix_time_bounds(cs, n - 1, pos, dir, max_t, mask, excluded);
    }
}

/// Lengthening a cast never changes a hit it already found: a strike within
/// the shorter reach is also the nearest strike of the longer cast, and a
/// longer cast that finds something where the shorter found nothing finds it
/// strictly beyond the shorter reach.
pub proof fn lemma_cast_prefix_monotone(
    cs: Seq<Collider>,
    n: int,
    pos: Vec2i,
    dir: Dir8,
    t1: int,
    t2: int,
    mask: u32,
    excluded: Seq<u64>,
)
    requires
        t1 <= t2,
    ensures
        ({
            let r1 = spec_cast_prefix(cs, n, pos, dir, t1, mask, excluded);
            let r2 = spec_cast_prefix(cs, n, pos, dir, t2, mask, excluded);
            &&& (r1 matches Option::Some(h) ==> r2 == Option::Some(h))
            &&& (r1 is None ==> (r2 matches Option::Some(h2) ==> h2.time > t1))
        }),
    decreases n,
{
    if n > 0 {
        lemma_cast_prefix_monotone(cs, n - 1, pos, dir, t1, t2, mask, excluded);
        lemma_cast_prefix_time_bounds(cs, n - 1, pos, dir, t1, mask, excluded);
    }
}

/// A ray hit as the executable raycast returns it.
#[derive(Clone, Copy, Debug, PartialEq, Eq, Structural)]
pub struct RayHit {
    pub entity: u64,
    pub time: i64,
    pub normal: HitNormal,
}

/// The executable hit equals the specification-level one.
pub open spec fn hit_matches(r: Option<RayHit>, s: Option<SpecHit>) -> bool {
    match r {
        Option::None => s is None,
        Option::Some(a) => s matches Option::Some(b) && a.entity == b.entity && a.time == b.time
            && a.normal == b.normal,
    }
}

/// The static collision world: every collider finalized for the current tick.
#[derive(Debug)]
pub struct Scene {
    pub colliders: Vec<Collider>,
}

impl Scene {
    /// Every collider in the scene is well-formed.
    pub open spec fn wf(self) -> bool {
        forall|i: int| 0 <= i < self.colliders@.len() ==> (#[trigger] self.colliders@[i]).wf()
    }

    pub fn new() -> (s: Scene)
        ensures
            s.colliders@ =~= Seq::<Collider>::empty(),
            s.wf(),
    {
        Scene { colliders: Vec::new() }
    }

    /// Adds one collider to the scene.
    pub fn push(&mut self, c: Collider)
        requires
            c.wf(),
            old(self).wf(),
        ensures
            final(self).colliders@ == old(self).colliders@.push(c),
            final(self).wf(),
    {
        self.colliders.push(c);
    }

    /// Casts a ray from `pos` along `dir`, reaching at most `max_t`, against
    /// the colliders whose layers meet `mask`, ignoring the entities in
    /// `excluded`; returns the nearest strike.
    pub fn cast_ray(
        &self,
        pos: Vec2i,
        dir: Dir8,
        max_t: i64,
        mask: u32,
        excluded: &Vec<u64>,
    ) -> (r: Option<RayHit>)
        requires
            self.wf(),
            pos.in_reach_bounds(),
            0 <= max_t <= COORD_LIMIT,
        ensures
            hit_matches(r, spec_cast_ray(self.colliders@, pos, dir, max_t as int, mask, excluded@)),
            r matches Some(h) ==> 0 <= h.time <= max_t,
    {
        let cs = &self.colliders;
        let mut best: Option<RayHit> = None;
        let mut i: usize = 0;
        while i < cs.len()
            invariant
                self.wf(),
                pos.in_reach_bounds(),
                0 <= max_t <= COORD_LIMIT,
                cs == self.colliders,
                i <= cs.len(),
                hit_matches(
                    best,
                    spec_cast_prefix(cs@, i as int, pos, dir, max_t as int, mask, excluded@),
                ),
            decreases cs.len() - i,
        {
            let c = cs[i];
            if c.layers & mask != 0 && !contains_entity(excluded, c.entity) {
                if let Some(hit) = hit_against(&c, pos, dir, max_t) {
                    let replace = match best {
                        Option::None => true,
                        Option::Some(b) => hit.time < b.time,
                    };
                    if replace {
                        best = Some(hit);
                    }
                }
            }
            i = i + 1;
        }
        proof {
            lemma_cast_prefix_time_bounds(
                cs@,
                cs@.len() as int,
                pos,
                dir,
                max_t as int,
                mask,
                excluded@,
            );
        }
        best
    }
}

/// Whether an entity id occurs in the exclusion list.
pub fn contains_entity(v: &Vec<u64>, x: u64) -> (b: bool)
    ensures
        b == v@.contains(x),
{
    let mut i: usize = 0;
    while i < v.len()
        invariant
            i <= v.len(),
            forall|j: int| 0 <= j < i ==> v@[j] != x,
        decreases v.len() - i,
    {
        if v[i] == x {
            return true;
        }
        i = i + 1;
    }
    false
}

/// Strike test of one collider, equal to the specification-level `ray_hits` /
/// `hit_time` / `hit_normal` family restricted to `max_t`.
fn hit_against(c: &Collider, pos: Vec2i, dir: Dir8, max_t: i64) -> (r: Option<RayHit>)
    requires
        c.wf(),
        pos.in_reach_bounds(),
        0 <= max_t <= COORD_LIMIT,
    ensures
        r is Some <==> ray_hits(*c, pos, dir) && hit_time(*c, pos, dir) <= max_t,
        r matches Some(h) ==> h.entity == c.entity && h.time == hit_time(*c, pos, dir) && h.normal
            == hit_normal(*c, pos, dir),
{
    let dx = dir.dx_exec();
    let dy = dir.dy_exec();
    if dx == 0 && (pos.x < c.min.x || pos.x > c.max.x) {
        return None;
    }
    if dy == 0 && (pos.y < c.min.y || pos.y > c.max.y) {
        return None;
    }
    let x_info: Option<(i64, i64)> = if dx == 1 {
        Some((c.min.x - pos.x, c.max.x - pos.x))
    } else if dx == -1 {
        Some((pos.x - c.max.x, pos.x - c.min.x))
    } else {
        None
    };
    let y_info: Option<(i64, i64)> = if dy == 1 {
        Some((c.min.y - pos.y, c.max.y - pos.y))
    } else if dy == -1 {
        Some((pos.y - c.max.y, pos.y - c.min.y))
    } else {
        None
    };
    let (enter, exit, x_won): (i64, i64, bool) = match (x_info, y_info) {
        (Some((ex, xx)), Some((ey, xy))) => {
            let enter = if ex >= ey {
                ex
            } else {
                ey
            };
            let exit = if xx <= xy {
                xx
            } else {
                xy
            };
            (enter, exit, ex >= ey)
        },
        (Some((ex, xx)), None) => (ex, xx, true),
        (None, Some((ey, xy))) => (ey, xy, false),
        (None, None) => {
            proof {
                assert(dir.dx() != 0 || dir.dy() != 0);
            }
            (0, 0, false)
        },
    };
    if !(enter <= exit && exit > 0) {
        return None;
    }
    let t = if enter >= 0 {
        enter
    } else {
        0
    };
    if t > max_t {
        return None;
    }
    let normal = if enter < 0 {
        HitNormal::Reverse
    } else if x_won {
        if dx == 1 {
            HitNormal::XNeg
        } else {
            HitNormal::XPos
        }
    } else {
        if dy == 1 {
            HitNormal::YNeg
        } else {
            HitNormal::YPos
        }
    };
    Some(RayHit { entity: c.entity, time: t, normal })
}

} // verus!
