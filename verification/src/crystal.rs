//! Crystals: grouped puzzle geometry toggled by sensor events. Each crystal
//! carries its identity, its initial state and its current state; a per-level
//! cache maps an identity to the crystals carrying it so a toggle event is
//! dispatched without scanning the world.

use vstd::prelude::*;

verus! {

/// The closed set of crystal colors a sensor can toggle.
#[derive(Clone, Copy, Debug, PartialEq, Eq, Structural)]
pub enum CrystalColor {
    Pink,
    Red,
    Blue,
    White,
}

/// Identity of a crystal group: its color, plus an extra discriminator used
/// where one color needs several independently toggled groups (white
/// crystals); it is zero elsewhere.
#[derive(Clone, Copy, Debug, PartialEq, Eq, Structural)]
pub struct CrystalIdent {
    pub color: CrystalColor,
    pub id: u32,
}

/// Toggles every crystal carrying `ident` in the current level.
#[derive(Clone, Copy, Debug, PartialEq, Eq, Structural)]
pub struct CrystalToggleEvent {
    pub ident: CrystalIdent,
}

/// Horizontal offset between a crystal tile's active sprite and its inactive
/// sprite in the tilemap.
pub const CRYSTAL_INDEX_OFFSET: u32 = 5;

/// One merged crystal tile: identity, the state it (re)spawns in, its
/// current state, and the sprite index its tile currently shows.
#[derive(Clone, Copy, Debug, PartialEq, Eq, Structural)]
pub struct Crystal {
    pub level: u64,
    pub ident: CrystalIdent,
    pub init_active: bool,
    pub active: bool,
    pub texture_index: u32,
}

impl Crystal {
    /// The sprite index always has room to move by the active/inactive
    /// offset in the direction the next toggle takes it.
    pub open spec fn wf(self) -> bool {
        &&& self.active ==> self.texture_index + CRYSTAL_INDEX_OFFSET <= u32::MAX
        &&& !self.active ==> self.texture_index >= CRYSTAL_INDEX_OFFSET
    }

    /// The crystal with its state flipped and its sprite moved to the
    /// matching half of the tilemap.
    pub open spec fn spec_toggled(self) -> Crystal {
        if self.active {
            Crystal {
                active: false,
                texture_index: (self.texture_index + CRYSTAL_INDEX_OFFSET) as u32,
                ..self
            }
        } else {
            Crystal {
                active: true,
                texture_index: (self.texture_index - CRYSTAL_INDEX_OFFSET) as u32,
                ..self
            }
        }
    }
}

/// A merged-rectangle crystal group: like a tile crystal but toggled by
/// enabling/disabling its collision and occlusion instead of a sprite swap.
#[derive(Clone, Copy, Debug, PartialEq, Eq, Structural)]
pub struct CrystalGroup {
    pub level: u64,
    pub ident: CrystalIdent,
    pub init_active: bool,
    pub active: bool,
    pub collider_enabled: bool,
    pub occluder_enabled: bool,
}

impl CrystalGroup {
    /// Collision and occlusion always mirror the active state.
    pub open spec fn wf(self) -> bool {
        &&& self.collider_enabled == self.active
        &&& self.occluder_enabled == self.active
    }

    /// The group with its state flipped, collision and occlusion following.
    pub open spec fn spec_toggled(self) -> CrystalGroup {
        CrystalGroup {
            active: !self.active,
            collider_enabled: !self.active,
            occluder_enabled: !self.active,
            ..self
        }
    }
}

/// Whether an integer-grid cell value spawns an active crystal; values
/// outside the crystal range are not crystals at all and are rejected
/// upstream.
pub open spec fn spec_is_crystal_active(cell_value: i32) -> bool {
    cell_value % 2 == 1
}

pub fn is_crystal_active(cell_value: i32) -> (b: bool)
    requires
        3 <= cell_value <= 10,
    ensures
        b == spec_is_crystal_active(cell_value),
{
    cell_value % 2 == 1
}

/// The color an integer-grid cell value spawns: each color occupies one
/// active/inactive pair of cell values.
pub open spec fn spec_crystal_color(cell_value: i32) -> CrystalColor {
    if cell_value <= 4 {
        CrystalColor::Pink
    } else if cell_value <= 6 {
        CrystalColor::Red
    } else if cell_value <= 8 {
        CrystalColor::White
    } else {
        CrystalColor::Blue
    }
}

pub fn crystal_color(cell_value: i32) -> (c: CrystalColor)
    requires
        3 <= cell_value <= 10,
    ensures
        c == spec_crystal_color(cell_value),
{
    if cell_value <= 4 {
        CrystalColor::Pink
    } else if cell_value <= 6 {
        CrystalColor::Red
    } else if cell_value <= 8 {
        CrystalColor::White
    } else {
        CrystalColor::Blue
    }
}

/// Builds the crystal an integer-grid cell spawns: color and initial state
/// come from the cell value, and the current state starts at the initial
/// one.
pub fn crystal_from_cell(
    level: u64,
    cell_value: i32,
    id: u32,
    texture_index: u32,
) -> (c: Crystal)
    requires
        3 <= cell_value <= 10,
        spec_is_crystal_active(cell_value) ==> texture_index + CRYSTAL_INDEX_OFFSET <= u32::MAX,
        !spec_is_crystal_active(cell_value) ==> texture_index >= CRYSTAL_INDEX_OFFSET,
    ensures
        c.level == level,
        c.ident == (CrystalIdent { color: spec_crystal_color(cell_value), id }),
        c.init_active == spec_is_crystal_active(cell_value),
        c.active == c.init_active,
        c.texture_index == texture_index,
        c.wf(),
{
    let init_active = is_crystal_active(cell_value);
    Crystal {
        level,
        ident: CrystalIdent { color: crystal_color(cell_value), id },
        init_active,
        active: init_active,
        texture_index,
    }
}

/// Flips one crystal tile: active state inverted, sprite index moved by the
/// fixed offset.
pub fn toggle_crystal(crystal: &mut Crystal)
    requires
        old(crystal).wf(),
    ensures
        *final(crystal) == old(crystal).spec_toggled(),
        final(crystal).wf(),
        final(crystal).active == !old(crystal).active,
{
    if !crystal.active {
        crystal.active = true;
        crystal.texture_index = crystal.texture_index - CRYSTAL_INDEX_OFFSET;
    } else {
        crystal.active = false;
        crystal.texture_index = crystal.texture_index + CRYSTAL_INDEX_OFFSET;
    }
}

/// Flips one crystal group: active state inverted, collision and occlusion
/// enabled or disabled with it.
pub fn toggle_crystal_group(group: &mut CrystalGroup)
    requires
        old(group).wf(),
    ensures
        *final(group) == old(group).spec_toggled(),
        final(group).wf(),
        final(group).active == !old(group).active,
{
    if !group.active {
        group.active = true;
        group.collider_enabled = true;
        group.occluder_enabled = true;
    } else {
        group.active = false;
        group.collider_enabled = false;
        group.occluder_enabled = false;
    }
}

/// Law: toggling twice restores the crystal exactly.
pub proof fn lemma_toggle_involutive(c: Crystal)
    requires
        c.wf(),
    ensures
        c.spec_toggled().spec_toggled() == c,
{
}

/// Level reset: every crystal and group returns to its initial state, by
/// toggling exactly those that currently differ from it — so a reset in the
/// middle of any toggle history still lands on the spawn state.
pub fn reset_crystals(crystals: &mut Vec<Crystal>, groups: &mut Vec<CrystalGroup>)
    requires
        forall|j: int| 0 <= j < old(crystals)@.len() ==> (#[trigger] old(crystals)@[j]).wf(),
        forall|j: int| 0 <= j < old(groups)@.len() ==> (#[trigger] old(groups)@[j]).wf(),
    ensures
        final(crystals)@.len() == old(crystals)@.len(),
        final(groups)@.len() == old(groups)@.len(),
        forall|j: int|
            0 <= j < old(crystals)@.len() ==> #[trigger] final(crystals)@[j] == (if old(crystals)@[j].init_active != old(crystals)@[j].active {
                old(crystals)@[j].spec_toggled()
            } else {
                old(crystals)@[j]
            }),
        forall|j: int|
            0 <= j < old(groups)@.len() ==> #[trigger] final(groups)@[j] == (if old(groups)@[j].init_active != old(groups)@[j].active {
                old(groups)@[j].spec_toggled()
            } else {
                old(groups)@[j]
            }),
        forall|j: int|
            0 <= j < final(crystals)@.len() ==> (#[trigger] final(crystals)@[j]).active == final(crystals)@[j].init_active && final(crystals)@[j].wf(),
        forall|j: int|
            0 <= j < final(groups)@.len() ==> (#[trigger] final(groups)@[j]).active == final(groups)@[j].init_active && final(groups)@[j].wf(),
{
    let mut j: usize = 0;
    while j < crystals.len()
        invariant
            j <= crystals@.len(),
            crystals@.len() == old(crystals)@.len(),
            forall|q: int| 0 <= q < old(crystals)@.len() ==> (#[trigger] old(crystals)@[q]).wf(),
            forall|q: int| j <= q < crystals@.len() ==> crystals@[q] == old(crystals)@[q],
            forall|q: int|
                0 <= q < j ==> #[trigger] crystals@[q] == (if old(crystals)@[q].init_active != old(crystals)@[q].active {
                    old(crystals)@[q].spec_toggled()
                } else {
                    old(crystals)@[q]
                }),
        decreases crystals@.len() - j,
    {
        let c = crystals[j];
        if c.init_active != c.active {
            let mut c2 = c;
            toggle_crystal(&mut c2);
            crystals.set(j, c2);
        }
        j = j + 1;
    }
    let mut j: usize = 0;
    while j < groups.len()
        invariant
            j <= groups@.len(),
            groups@.len() == old(groups)@.len(),
            forall|q: int| 0 <= q < old(groups)@.len() ==> (#[trigger] old(groups)@[q]).wf(),
            forall|q: int| j <= q < groups@.len() ==> groups@[q] == old(groups)@[q],
            forall|q: int|
                0 <= q < j ==> #[trigger] groups@[q] == (if old(groups)@[q].init_active != old(groups)@[q].active {
                    old(groups)@[q].spec_toggled()
                } else {
                    old(groups)@[q]
                }),
        decreases groups@.len() - j,
    {
        let g = groups[j];
        if g.init_active != g.active {
            let mut g2 = g;
            toggle_crystal_group(&mut g2);
            groups.set(j, g2);
        }
        j = j + 1;
    }
}

/// One bucket of the per-level dispatch cache: the crystal-vector indices
/// (tiles) and group-vector indices (groups) of every crystal carrying
/// `ident` in `level`.
#[derive(Debug)]
pub struct CacheEntry {
    pub level: u64,
    pub ident: CrystalIdent,
    pub tiles: Vec<usize>,
    pub groups: Vec<usize>,
}

/// Dispatch cache for crystal toggles: one bucket per (level, identity)
/// pair, built when a level's geometry is spawned and invalidated when the
/// level is despawned.
#[derive(Debug)]
pub struct CrystalCache {
    pub entries: Vec<CacheEntry>,
}

/// Whether `j` occurs among the first `upto` listed indices.
pub open spec fn in_prefix(indices: Seq<usize>, upto: int, j: int) -> bool {
    exists|k: int| 0 <= k < upto && indices[k] == j
}

impl CrystalCache {
    /// No two buckets share a (level, identity) key.
    pub open spec fn keys_unique(self) -> bool {
        forall|i: int, j: int|
            0 <= i < j < self.entries@.len() ==> ((#[trigger] self.entries@[i]).level != (
            #[trigger] self.entries@[j]).level || self.entries@[i].ident
                != self.entries@[j].ident)
    }

    /// Every listed tile index is a valid crystal index whose crystal
    /// carries the bucket's key.
    pub open spec fn tiles_sound(self, crystals: Seq<Crystal>) -> bool {
        forall|i: int, k: int|
            #![trigger self.entries@[i].tiles@[k]]
            0 <= i < self.entries@.len() && 0 <= k < self.entries@[i].tiles@.len() ==> {
                let idx = self.entries@[i].tiles@[k];
                &&& idx < crystals.len()
                &&& crystals[idx as int].level == self.entries@[i].level
                &&& crystals[idx as int].ident == self.entries@[i].ident
            }
    }

    /// No bucket lists the same tile index twice.
    pub open spec fn tiles_nodup(self) -> bool {
        forall|i: int, k1: int, k2: int|
            #![trigger self.entries@[i].tiles@[k1], self.entries@[i].tiles@[k2]]
            0 <= i < self.entries@.len() && 0 <= k1 < k2 < self.entries@[i].tiles@.len()
                ==> self.entries@[i].tiles@[k1] != self.entries@[i].tiles@[k2]
    }

    /// Every crystal of `level` is listed in the bucket of its key.
    pub open spec fn tiles_complete(self, crystals: Seq<Crystal>, level: u64) -> bool {
        forall|j: int|
            0 <= j < crystals.len() && (#[trigger] crystals[j]).level == level ==> exists|
                i: int,
                k: int,
            |
                #![trigger self.entries@[i].tiles@[k]]
                {
                    &&& 0 <= i < self.entries@.len()
                    &&& self.entries@[i].level == level
                    &&& self.entries@[i].ident == crystals[j].ident
                    &&& 0 <= k < self.entries@[i].tiles@.len()
                    &&& self.entries@[i].tiles@[k] == j
                }
    }

    /// Every listed group index is a valid group index whose group carries
    /// the bucket's key.
    pub open spec fn groups_sound(self, groups: Seq<CrystalGroup>) -> bool {
        forall|i: int, k: int|
            #![trigger self.entries@[i].groups@[k]]
            0 <= i < self.entries@.len() && 0 <= k < self.entries@[i].groups@.len() ==> {
                let idx = self.entries@[i].groups@[k];
                &&& idx < groups.len()
                &&& groups[idx as int].level == self.entries@[i].level
                &&& groups[idx as int].ident == self.entries@[i].ident
            }
    }

    /// No bucket lists the same group index twice.
    pub open spec fn groups_nodup(self) -> bool {
        forall|i: int, k1: int, k2: int|
            #![trigger self.entries@[i].groups@[k1], self.entries@[i].groups@[k2]]
            0 <= i < self.entries@.len() && 0 <= k1 < k2 < self.entries@[i].groups@.len()
                ==> self.entries@[i].groups@[k1] != self.entries@[i].groups@[k2]
    }

    /// Every group of `level` is listed in the bucket of its key.
    pub open spec fn groups_complete(self, groups: Seq<CrystalGroup>, level: u64) -> bool {
        forall|j: int|
            0 <= j < groups.len() && (#[trigger] groups[j]).level == level ==> exists|
                i: int,
                k: int,
            |
                #![trigger self.entries@[i].groups@[k]]
                {
                    &&& 0 <= i < self.entries@.len()
                    &&& self.entries@[i].level == level
                    &&& self.entries@[i].ident == groups[j].ident
                    &&& 0 <= k < self.entries@[i].groups@.len()
                    &&& self.entries@[i].groups@[k] == j
                }
    }

    /// The cache is a correct dispatch index for `level`: unique keys, every
    /// listed index valid and carrying its bucket's key, no index listed
    /// twice, and every crystal and group of the level listed.
    pub open spec fn coherent(
        self,
        crystals: Seq<Crystal>,
        groups: Seq<CrystalGroup>,
        level: u64,
    ) -> bool {
        &&& self.keys_unique()
        &&& self.tiles_sound(crystals)
        &&& self.tiles_nodup()
        &&& self.tiles_complete(crystals, level)
        &&& self.groups_sound(groups)
        &&& self.groups_nodup()
        &&& self.groups_complete(groups, level)
    }

    pub fn new() -> (c: CrystalCache)
        ensures
            c.entries@ =~= Seq::<CacheEntry>::empty(),
            c.keys_unique(),
    {
        CrystalCache { entries: Vec::new() }
    }

    /// Index of the bucket keyed (level, ident), scanning in order.
    fn find_entry(&self, level: u64, ident: CrystalIdent) -> (r: Option<usize>)
        ensures
            r matches Some(f) ==> f < self.entries@.len() && self.entries@[f as int].level
                == level && self.entries@[f as int].ident == ident,
            r is None ==> forall|i: int|
                0 <= i < self.entries@.len() ==> !((#[trigger] self.entries@[i]).level == level
                    && self.entries@[i].ident == ident),
    {
        let mut i: usize = 0;
        while i < self.entries.len()
            invariant
                i <= self.entries@.len(),
                forall|q: int|
                    0 <= q < i ==> !((#[trigger] self.entries@[q]).level == level
                        && self.entries@[q].ident == ident),
            decreases self.entries@.len() - i,
        {
            let e = &self.entries[i];
            if e.level == level && e.ident.color == ident.color && e.ident.id == ident.id {
                return Some(i);
            }
            i = i + 1;
        }
        None
    }
}

/// Toggle dispatch: flips exactly the crystals and groups of the current
/// level that carry the event's identity, through the cache's buckets, and
/// leaves every other crystal and group untouched. A missing bucket means
/// the level has nothing with that identity, and the event is a no-op.
#[verifier::rlimit(100)]
pub fn on_crystal_changed(
    cache: &CrystalCache,
    level: u64,
    ev: CrystalToggleEvent,
    crystals: &mut Vec<Crystal>,
    groups: &mut Vec<CrystalGroup>,
)
    requires
        cache.coherent(old(crystals)@, old(groups)@, level),
        forall|j: int| 0 <= j < old(crystals)@.len() ==> (#[trigger] old(crystals)@[j]).wf(),
        forall|j: int| 0 <= j < old(groups)@.len() ==> (#[trigger] old(groups)@[j]).wf(),
    ensures
        final(crystals)@.len() == old(crystals)@.len(),
        final(groups)@.len() == old(groups)@.len(),
        forall|j: int|
            0 <= j < old(crystals)@.len() ==> #[trigger] final(crystals)@[j] == (if old(
                crystals,
            )@[j].level == level && old(crystals)@[j].ident == ev.ident {
                old(crystals)@[j].spec_toggled()
            } else {
                old(crystals)@[j]
            }),
        forall|j: int|
            0 <= j < old(groups)@.len() ==> #[trigger] final(groups)@[j] == (if old(
                groups,
            )@[j].level == level && old(groups)@[j].ident == ev.ident {
                old(groups)@[j].spec_toggled()
            } else {
                old(groups)@[j]
            }),
        forall|j: int| 0 <= j < final(crystals)@.len() ==> (#[trigger] final(crystals)@[j]).wf(),
        forall|j: int| 0 <= j < final(groups)@.len() ==> (#[trigger] final(groups)@[j]).wf(),
        cache.coherent(final(crystals)@, final(groups)@, level),
{
    match cache.find_entry(level, ev.ident) {
        None => {
            proof {
                assert forall|j: int|
                    0 <= j < crystals@.len() && crystals@[j].level == level && crystals@[j].ident
                        == ev.ident implies false by {
                    assert(cache.tiles_complete(crystals@, level));
                    assert(crystals@[j].level == level);
                };
                assert forall|j: int|
                    0 <= j < groups@.len() && groups@[j].level == level && groups@[j].ident
                        == ev.ident implies false by {
                    assert(cache.groups_complete(groups@, level));
                    assert(groups@[j].level == level);
                };
            }
        },
        Some(f) => {
            let e = &cache.entries[f];
            let ghost tiles = e.tiles@;
            let mut k: usize = 0;
            while k < e.tiles.len()
                invariant
                    k <= tiles.len(),
                    e == &cache.entries[f as int],
                    tiles == e.tiles@,
                    f < cache.entries@.len(),
                    cache.entries@[f as int].level == level,
                    cache.entries@[f as int].ident == ev.ident,
                    cache.coherent(old(crystals)@, old(groups)@, level),
                    crystals@.len() == old(crystals)@.len(),
                    groups@ == old(groups)@,
                    forall|j: int|
                        0 <= j < old(crystals)@.len() ==> (#[trigger] old(crystals)@[j]).wf(),
                    forall|j: int|
                        0 <= j < crystals@.len() ==> #[trigger] crystals@[j] == (if in_prefix(
                            tiles,
                            k as int,
                            j,
                        ) {
                            old(crystals)@[j].spec_toggled()
                        } else {
                            old(crystals)@[j]
                        }),
                decreases tiles.len() - k,
            {
                let idx = e.tiles[k];
                proof {
                    assert(cache.entries@[f as int].tiles@[k as int] == idx);
                    assert(idx < crystals@.len());
                    assert(!in_prefix(tiles, k as int, idx as int));
                }
                let mut c = crystals[idx];
                toggle_crystal(&mut c);
                crystals.set(idx, c);
                proof {
                    assert forall|j: int| 0 <= j < crystals@.len() implies crystals@[j] == (
                    if in_prefix(tiles, k + 1 as int, j) {
                        old(crystals)@[j].spec_toggled()
                    } else {
                        old(crystals)@[j]
                    }) by {
                        if j == idx as int {
                            assert(tiles[k as int] == idx);
                            assert(in_prefix(tiles, k + 1 as int, j));
                        } else {
                            assert(in_prefix(tiles, k + 1 as int, j) == in_prefix(
                                tiles,
                                k as int,
                                j,
                            ));
                        }
                    };
                }
                k = k + 1;
            }
            proof {
                assert forall|j: int| 0 <= j < crystals@.len() implies crystals@[j] == (if old(
                    crystals,
                )@[j].level == level && old(crystals)@[j].ident == ev.ident {
                    old(crystals)@[j].spec_toggled()
                } else {
                    old(crystals)@[j]
                }) by {
                    if in_prefix(tiles, tiles.len() as int, j) {
                        let k0 = choose|k0: int|
                            0 <= k0 < tiles.len() && tiles[k0] == j;
                        assert(cache.entries@[f as int].tiles@[k0] == j);
                        assert(old(crystals)@[j].level == level);
                        assert(old(crystals)@[j].ident == ev.ident);
                    } else {
                        if old(crystals)@[j].level == level && old(crystals)@[j].ident
                            == ev.ident {
                            assert(cache.tiles_complete(old(crystals)@, level));
                            let (i0, kk): (int, int) = choose|i0: int, kk: int|
                                #![trigger cache.entries@[i0].tiles@[kk]]
                                {
                                    &&& 0 <= i0 < cache.entries@.len()
                                    &&& cache.entries@[i0].level == level
                                    &&& cache.entries@[i0].ident == old(crystals)@[j].ident
                                    &&& 0 <= kk < cache.entries@[i0].tiles@.len()
                                    &&& cache.entries@[i0].tiles@[kk] == j
                                };
                            assert(i0 == f as int);
                            assert(in_prefix(tiles, tiles.len() as int, j));
                        }
                    }
                };
            }
            let ghost gidx = e.groups@;
            let mut k: usize = 0;
            while k < e.groups.len()
                invariant
                    k <= gidx.len(),
                    e == &cache.entries[f as int],
                    gidx == e.groups@,
                    f < cache.entries@.len(),
                    cache.entries@[f as int].level == level,
                    cache.entries@[f as int].ident == ev.ident,
                    cache.coherent(old(crystals)@, old(groups)@, level),
                    groups@.len() == old(groups)@.len(),
                    forall|j: int|
                        0 <= j < old(groups)@.len() ==> (#[trigger] old(groups)@[j]).wf(),
                    forall|j: int|
                        0 <= j < groups@.len() ==> #[trigger] groups@[j] == (if in_prefix(
                            gidx,
                            k as int,
                            j,
                        ) {
                            old(groups)@[j].spec_toggled()
                        } else {
                            old(groups)@[j]
                        }),
                decreases gidx.len() - k,
            {
                let idx = e.groups[k];
                proof {
                    assert(cache.entries@[f as int].groups@[k as int] == idx);
                    assert(idx < groups@.len());
                    assert(!in_prefix(gidx, k as int, idx as int));
                }
                let mut g = groups[idx];
                toggle_crystal_group(&mut g);
                groups.set(idx, g);
                proof {
                    assert forall|j: int| 0 <= j < groups@.len() implies groups@[j] == (
                    if in_prefix(gidx, k + 1 as int, j) {
                        old(groups)@[j].spec_toggled()
                    } else {
                        old(groups)@[j]
                    }) by {
                        if j == idx as int {
                            assert(gidx[k as int] == idx);
                            assert(in_prefix(gidx, k + 1 as int, j));
                        } else {
                            assert(in_prefix(gidx, k + 1 as int, j) == in_prefix(
                                gidx,
                                k as int,
                                j,
                            ));
                        }
                    };
                }
                k = k + 1;
            }
            proof {
                assert forall|j: int| 0 <= j < groups@.len() implies groups@[j] == (if old(
                    groups,
                )@[j].level == level && old(groups)@[j].ident == ev.ident {
                    old(groups)@[j].spec_toggled()
                } else {
                    old(groups)@[j]
                }) by {
                    if in_prefix(gidx, gidx.len() as int, j) {
                        let k0 = choose|k0: int| 0 <= k0 < gidx.len() && gidx[k0] == j;
                        assert(cache.entries@[f as int].groups@[k0] == j);
                        assert(old(groups)@[j].level == level);
                        assert(old(groups)@[j].ident == ev.ident);
                    } else {
                        if old(groups)@[j].level == level && old(groups)@[j].ident == ev.ident {
                            assert(cache.groups_complete(old(groups)@, level));
                            let (i0, kk): (int, int) = choose|i0: int, kk: int|
                                #![trigger cache.entries@[i0].groups@[kk]]
                                {
                                    &&& 0 <= i0 < cache.entries@.len()
                                    &&& cache.entries@[i0].level == level
                                    &&& cache.entries@[i0].ident == old(groups)@[j].ident
                                    &&& 0 <= kk < cache.entries@[i0].groups@.len()
                                    &&& cache.entries@[i0].groups@[kk] == j
                                };
                            assert(i0 == f as int);
                            assert(in_prefix(gidx, gidx.len() as int, j));
                        }
                    }
                };
            }
        },
    }
    proof {
        // Toggling preserves level and identity, so every coherence clause
        // survives the dispatch.
        assert(cache.tiles_sound(crystals@));
        assert(cache.tiles_complete(crystals@, level)) by {
            assert forall|j: int|
                0 <= j < crystals@.len() && (#[trigger] crystals@[j]).level == level implies exists|
                i: int,
                k: int,
            |
                #![trigger cache.entries@[i].tiles@[k]]
                {
                    &&& 0 <= i < cache.entries@.len()
                    &&& cache.entries@[i].level == level
                    &&& cache.entries@[i].ident == crystals@[j].ident
                    &&& 0 <= k < cache.entries@[i].tiles@.len()
                    &&& cache.entries@[i].tiles@[k] == j
                } by {
                assert(old(crystals)@[j].level == level);
            };
        }
        assert(cache.groups_sound(groups@));
        assert(cache.groups_complete(groups@, level)) by {
            assert forall|j: int|
                0 <= j < groups@.len() && (#[trigger] groups@[j]).level == level implies exists|
                i: int,
                k: int,
            |
                #![trigger cache.entries@[i].groups@[k]]
                {
                    &&& 0 <= i < cache.entries@.len()
                    &&& cache.entries@[i].level == level
                    &&& cache.entries@[i].ident == groups@[j].ident
                    &&& 0 <= k < cache.entries@[i].groups@.len()
                    &&& cache.entries@[i].groups@[k] == j
                } by {
                assert(old(groups)@[j].level == level);
            };
        }
    }
}

/// Level despawn: empties every bucket of `level` in place (the bucket keys
/// stay, so every other level's buckets and indices are untouched).
pub fn invalidate_crystal_cache(cache: &mut CrystalCache, level: u64)
    requires
        old(cache).keys_unique(),
    ensures
        final(cache).keys_unique(),
        final(cache).entries@.len() == old(cache).entries@.len(),
        forall|i: int|
            0 <= i < old(cache).entries@.len() && (#[trigger] old(cache).entries@[i]).level
                != level ==> final(cache).entries@[i] == old(cache).entries@[i],
        forall|i: int|
            0 <= i < old(cache).entries@.len() && (#[trigger] old(cache).entries@[i]).level
                == level ==> {
                let e = final(cache).entries@[i];
                &&& e.level == old(cache).entries@[i].level
                &&& e.ident == old(cache).entries@[i].ident
                &&& e.tiles@.len() == 0
                &&& e.groups@.len() == 0
            },
{
    let ghost entries0 = cache.entries@;
    let mut i: usize = 0;
    while i < cache.entries.len()
        invariant
            i <= cache.entries@.len(),
            cache.entries@.len() == entries0.len(),
            forall|q: int| i <= q < entries0.len() ==> cache.entries@[q] == entries0[q],
            forall|q: int|
                0 <= q < i && (#[trigger] entries0[q]).level != level ==> cache.entries@[q]
                    == entries0[q],
            forall|q: int|
                0 <= q < i && (#[trigger] entries0[q]).level == level ==> {
                    let e = cache.entries@[q];
                    &&& e.level == entries0[q].level
                    &&& e.ident == entries0[q].ident
                    &&& e.tiles@.len() == 0
                    &&& e.groups@.len() == 0
                },
        decreases cache.entries@.len() - i,
    {
        let ghost before = cache.entries@;
        if cache.entries[i].level == level {
            let mut e = cache.entries.remove(i);
            e.tiles = Vec::new();
            e.groups = Vec::new();
            cache.entries.insert(i, e);
            proof {
                assert(cache.entries@ =~= before.update(
                    i as int,
                    CacheEntry { level: e.level, ident: e.ident, tiles: e.tiles, groups: e.groups },
                ));
            }
        }
        i = i + 1;
    }
    proof {
        assert(forall|q: int|
            0 <= q < cache.entries@.len() ==> (#[trigger] cache.entries@[q]).level == entries0[
                q
            ].level && cache.entries@[q].ident == entries0[q].ident);
    }
}

/// Builds the tile buckets of `level`: walks the crystal vector and appends
/// each crystal of the level to the bucket of its identity, creating the
/// bucket on first use. Run when the level's geometry spawns, after any
/// stale buckets of the level were invalidated.
#[verifier::rlimit(100)]
pub fn init_crystal_cache_tiles(cache: &mut CrystalCache, level: u64, crystals: &Vec<Crystal>)
    requires
        old(cache).keys_unique(),
        old(cache).tiles_sound(crystals@),
        old(cache).tiles_nodup(),
        forall|i: int|
            0 <= i < old(cache).entries@.len() && (#[trigger] old(cache).entries@[i]).level
                == level ==> old(cache).entries@[i].tiles@.len() == 0,
    ensures
        final(cache).keys_unique(),
        final(cache).tiles_sound(crystals@),
        final(cache).tiles_nodup(),
        final(cache).tiles_complete(crystals@, level),
        final(cache).entries@.len() >= old(cache).entries@.len(),
        forall|i: int|
            #![trigger old(cache).entries@[i]]
            0 <= i < old(cache).entries@.len() ==> {
                let e0 = old(cache).entries@[i];
                let e1 = final(cache).entries@[i];
                &&& e1.level == e0.level
                &&& e1.ident == e0.ident
                &&& e1.groups == e0.groups
                &&& (e0.level != level ==> e1.tiles == e0.tiles)
            },
        forall|i: int|
            #![trigger final(cache).entries@[i]]
            old(cache).entries@.len() <= i < final(cache).entries@.len() ==> {
                let e1 = final(cache).entries@[i];
                &&& e1.level == level
                &&& e1.groups@.len() == 0
            },
{
    let ghost entries0 = cache.entries@;
    let mut j: usize = 0;
    while j < crystals.len()
        invariant
            j <= crystals@.len(),
            cache.keys_unique(),
            cache.tiles_sound(crystals@),
            cache.tiles_nodup(),
            cache.entries@.len() >= entries0.len(),
            forall|i: int|
                #![trigger entries0[i]]
                0 <= i < entries0.len() ==> {
                    let e0 = entries0[i];
                    let e1 = cache.entries@[i];
                    &&& e1.level == e0.level
                    &&& e1.ident == e0.ident
                    &&& e1.groups == e0.groups
                    &&& (e0.level != level ==> e1.tiles == e0.tiles)
                },
            forall|i: int|
                #![trigger cache.entries@[i]]
                entries0.len() <= i < cache.entries@.len() ==> {
                    let e1 = cache.entries@[i];
                    &&& e1.level == level
                    &&& e1.groups@.len() == 0
                },
            forall|q: int|
                0 <= q < j && (#[trigger] crystals@[q]).level == level ==> exists|i: int, k: int|
                    #![trigger cache.entries@[i].tiles@[k]]
                    {
                        &&& 0 <= i < cache.entries@.len()
                        &&& cache.entries@[i].level == level
                        &&& cache.entries@[i].ident == crystals@[q].ident
                        &&& 0 <= k < cache.entries@[i].tiles@.len()
                        &&& cache.entries@[i].tiles@[k] == q
                    },
            forall|i: int, k: int|
                #![trigger cache.entries@[i].tiles@[k]]
                0 <= i < cache.entries@.len() && cache.entries@[i].level == level && 0 <= k
                    < cache.entries@[i].tiles@.len() ==> cache.entries@[i].tiles@[k] < j,
        decreases crystals@.len() - j,
    {
        let c = crystals[j];
        if c.level == level {
            let ghost before = cache.entries@;
            match cache.find_entry(level, c.ident) {
                Some(f) => {
                    let mut e = cache.entries.remove(f);
                    e.tiles.push(j);
                    cache.entries.insert(f, e);
                    proof {
                        assert(cache.entries@ =~= before.update(
                            f as int,
                            CacheEntry {
                                level: e.level,
                                ident: e.ident,
                                tiles: e.tiles,
                                groups: e.groups,
                            },
                        ));
                        assert(cache.entries@[f as int].tiles@ == before[f as int].tiles@.push(
                            j,
                        ));
                        assert forall|q: int|
                            0 <= q < j + 1 && (#[trigger] crystals@[q]).level
                                == level implies exists|i: int, k: int|
                            #![trigger cache.entries@[i].tiles@[k]]
                            {
                                &&& 0 <= i < cache.entries@.len()
                                &&& cache.entries@[i].level == level
                                &&& cache.entries@[i].ident == crystals@[q].ident
                                &&& 0 <= k < cache.entries@[i].tiles@.len()
                                &&& cache.entries@[i].tiles@[k] == q
                            } by {
                            if q == j {
                                let k1 = cache.entries@[f as int].tiles@.len() - 1;
                                assert(cache.entries@[f as int].tiles@[k1] == j);
                            } else {
                                let (i0, k0): (int, int) = choose|i0: int, k0: int|
                                    #![trigger before[i0].tiles@[k0]]
                                    {
                                        &&& 0 <= i0 < before.len()
                                        &&& before[i0].level == level
                                        &&& before[i0].ident == crystals@[q].ident
                                        &&& 0 <= k0 < before[i0].tiles@.len()
                                        &&& before[i0].tiles@[k0] == q
                                    };
                                assert(cache.entries@[i0].tiles@[k0] == q);
                            }
                        };
                    }
                },
                None => {
                    let mut tiles: Vec<usize> = Vec::new();
                    tiles.push(j);
                    cache.entries.push(
                        CacheEntry { level, ident: c.ident, tiles, groups: Vec::new() },
                    );
                    proof {
                        let f = cache.entries@.len() - 1;
                        assert(cache.entries@[f].tiles@[0] == j);
                        assert forall|q: int|
                            0 <= q < j + 1 && (#[trigger] crystals@[q]).level
                                == level implies exists|i: int, k: int|
                            #![trigger cache.entries@[i].tiles@[k]]
                            {
                                &&& 0 <= i < cache.entries@.len()
                                &&& cache.entries@[i].level == level
                                &&& cache.entries@[i].ident == crystals@[q].ident
                                &&& 0 <= k < cache.entries@[i].tiles@.len()
                                &&& cache.entries@[i].tiles@[k] == q
                            } by {
                            if q == j {
                                assert(cache.entries@[f].tiles@[0] == q);
                            } else {
                                let (i0, k0): (int, int) = choose|i0: int, k0: int|
                                    #![trigger before[i0].tiles@[k0]]
                                    {
                                        &&& 0 <= i0 < before.len()
                                        &&& before[i0].level == level
                                        &&& before[i0].ident == crystals@[q].ident
                                        &&& 0 <= k0 < before[i0].tiles@.len()
                                        &&& before[i0].tiles@[k0] == q
                                    };
                                assert(cache.entries@[i0].tiles@[k0] == q);
                            }
                        };
                    }
                },
            }
        }
        j = j + 1;
    }
}

/// Builds the group buckets of `level`, mirroring
/// [`init_crystal_cache_tiles`] for the merged-rectangle groups; the tile
/// buckets already built are untouched.
#[verifier::rlimit(100)]
pub fn init_crystal_cache_groups(cache: &mut CrystalCache, level: u64, groups: &Vec<CrystalGroup>)
    requires
        old(cache).keys_unique(),
        old(cache).groups_sound(groups@),
        old(cache).groups_nodup(),
        forall|i: int|
            0 <= i < old(cache).entries@.len() && (#[trigger] old(cache).entries@[i]).level
                == level ==> old(cache).entries@[i].groups@.len() == 0,
    ensures
        final(cache).keys_unique(),
        final(cache).groups_sound(groups@),
        final(cache).groups_nodup(),
        final(cache).groups_complete(groups@, level),
        final(cache).entries@.len() >= old(cache).entries@.len(),
        forall|i: int|
            #![trigger old(cache).entries@[i]]
            0 <= i < old(cache).entries@.len() ==> {
                let e0 = old(cache).entries@[i];
                let e1 = final(cache).entries@[i];
                &&& e1.level == e0.level
                &&& e1.ident == e0.ident
                &&& e1.tiles == e0.tiles
                &&& (e0.level != level ==> e1.groups == e0.groups)
            },
        forall|i: int|
            #![trigger final(cache).entries@[i]]
            old(cache).entries@.len() <= i < final(cache).entries@.len() ==> {
                let e1 = final(cache).entries@[i];
                &&& e1.level == level
                &&& e1.tiles@.len() == 0
            },
{
    let ghost entries0 = cache.entries@;
    let mut j: usize = 0;
    while j < groups.len()
        invariant
            j <= groups@.len(),
            cache.keys_unique(),
            cache.groups_sound(groups@),
            cache.groups_nodup(),
            cache.entries@.len() >= entries0.len(),
            forall|i: int|
                #![trigger entries0[i]]
                0 <= i < entries0.len() ==> {
                    let e0 = entries0[i];
                    let e1 = cache.entries@[i];
                    &&& e1.level == e0.level
                    &&& e1.ident == e0.ident
                    &&& e1.tiles == e0.tiles
                    &&& (e0.level != level ==> e1.groups == e0.groups)
                },
            forall|i: int|
                #![trigger cache.entries@[i]]
                entries0.len() <= i < cache.entries@.len() ==> {
                    let e1 = cache.entries@[i];
                    &&& e1.level == level
                    &&& e1.tiles@.len() == 0
                },
            forall|q: int|
                0 <= q < j && (#[trigger] groups@[q]).level == level ==> exists|i: int, k: int|
                    #![trigger cache.entries@[i].groups@[k]]
                    {
                        &&& 0 <= i < cache.entries@.len()
                        &&& cache.entries@[i].level == level
                        &&& cache.entries@[i].ident == groups@[q].ident
                        &&& 0 <= k < cache.entries@[i].groups@.len()
                        &&& cache.entries@[i].groups@[k] == q
                    },
            forall|i: int, k: int|
                #![trigger cache.entries@[i].groups@[k]]
                0 <= i < cache.entries@.len() && cache.entries@[i].level == level && 0 <= k
                    < cache.entries@[i].groups@.len() ==> cache.entries@[i].groups@[k] < j,
        decreases groups@.len() - j,
    {
        let g = groups[j];
        if g.level == level {
            let ghost before = cache.entries@;
            match cache.find_entry(level, g.ident) {
                Some(f) => {
                    let mut e = cache.entries.remove(f);
                    e.groups.push(j);
                    cache.entries.insert(f, e);
                    proof {
                        assert(cache.entries@ =~= before.update(
                            f as int,
                            CacheEntry {
                                level: e.level,
                                ident: e.ident,
                                tiles: e.tiles,
                                groups: e.groups,
                            },
                        ));
                        assert(cache.entries@[f as int].groups@ == before[f as int].groups@.push(
                            j,
                        ));
                        assert forall|q: int|
                            0 <= q < j + 1 && (#[trigger] groups@[q]).level
                                == level implies exists|i: int, k: int|
                            #![trigger cache.entries@[i].groups@[k]]
                            {
                                &&& 0 <= i < cache.entries@.len()
                                &&& cache.entries@[i].level == level
                                &&& cache.entries@[i].ident == groups@[q].ident
                                &&& 0 <= k < cache.entries@[i].groups@.len()
                                &&& cache.entries@[i].groups@[k] == q
                            } by {
                            if q == j {
                                let k1 = cache.entries@[f as int].groups@.len() - 1;
                                assert(cache.entries@[f as int].groups@[k1] == j);
                            } else {
                                let (i0, k0): (int, int) = choose|i0: int, k0: int|
                                    #![trigger before[i0].groups@[k0]]
                                    {
                                        &&& 0 <= i0 < before.len()
                                        &&& before[i0].level == level
                                        &&& before[i0].ident == groups@[q].ident
                                        &&& 0 <= k0 < before[i0].groups@.len()
                                        &&& before[i0].groups@[k0] == q
                                    };
                                assert(cache.entries@[i0].groups@[k0] == q);
                            }
                        };
                    }
                },
                None => {
                    let mut bucket: Vec<usize> = Vec::new();
                    bucket.push(j);
                    cache.entries.push(
                        CacheEntry { level, ident: g.ident, tiles: Vec::new(), groups: bucket },
                    );
                    proof {
                        let f = cache.entries@.len() - 1;
                        assert(cache.entries@[f].groups@[0] == j);
                        assert forall|q: int|
                            0 <= q < j + 1 && (#[trigger] groups@[q]).level
                                == level implies exists|i: int, k: int|
                            #![trigger cache.entries@[i].groups@[k]]
                            {
                                &&& 0 <= i < cache.entries@.len()
                                &&& cache.entries@[i].level == level
                                &&& cache.entries@[i].ident == groups@[q].ident
                                &&& 0 <= k < cache.entries@[i].groups@.len()
                                &&& cache.entries@[i].groups@[k] == q
                            } by {
                            if q == j {
                                assert(cache.entries@[f].groups@[0] == q);
                            } else {
                                let (i0, k0): (int, int) = choose|i0: int, k0: int|
                                    #![trigger before[i0].groups@[k0]]
                                    {
                                        &&& 0 <= i0 < before.len()
                                        &&& before[i0].level == level
                                        &&& before[i0].ident == groups@[q].ident
                                        &&& 0 <= k0 < before[i0].groups@.len()
                                        &&& before[i0].groups@[k0] == q
                                    };
                                assert(cache.entries@[i0].groups@[k0] == q);
                            }
                        };
                    }
                },
            }
        }
        j = j + 1;
    }
}

} // verus!
