//! The player's beam inventory and the shoot/preview action state machine:
//! which colors are still available, which color is selected, and the
//! decisions taken when the player previews, cancels, snaps or fires.

use vstd::prelude::*;

use crate::beam::LightBeamSource;
use crate::color::{ColorFlags, LightColor};
use crate::geom::{Dir8, Vec2i};

verus! {

/// The player's beam state: preview/snap flags, the selected color, and one
/// charge per color.
#[derive(Clone, Copy, Debug, PartialEq, Eq, Structural)]
pub struct PlayerLightInventory {
    pub previewing: bool,
    pub snapping: bool,
    pub should_shoot: bool,
    pub current_color: Option<LightColor>,
    /// True while the color's charge is still available.
    pub sources: ColorFlags,
}

impl PlayerLightInventory {
    /// A fresh inventory: nothing selected, nothing pending, every charge
    /// available.
    pub open spec fn spec_new() -> PlayerLightInventory {
        PlayerLightInventory {
            previewing: false,
            snapping: false,
            should_shoot: false,
            current_color: None,
            sources: ColorFlags::spec_full(),
        }
    }

    pub fn new() -> (inv: PlayerLightInventory)
        ensures
            inv == PlayerLightInventory::spec_new(),
    {
        PlayerLightInventory {
            previewing: false,
            snapping: false,
            should_shoot: false,
            current_color: None,
            sources: ColorFlags::full(),
        }
    }

    /// A shot is possible while one is pending and the selected color's
    /// charge is available.
    pub open spec fn spec_can_shoot(self) -> bool {
        &&& self.should_shoot
        &&& self.current_color matches Some(c) && self.sources.spec_get(c)
    }

    pub fn can_shoot(&self) -> (b: bool)
        ensures
            b == self.spec_can_shoot(),
    {
        self.should_shoot && match self.current_color {
            Some(c) => self.sources.get(c),
            None => false,
        }
    }
}

/// One player intent toward the beam system.
#[derive(Clone, Copy, Debug, PartialEq, Eq)]
pub enum BeamAction {
    SwitchColor(Option<LightColor>),
    Preview,
    Snap(bool),
    Cancel,
    Shoot,
}

/// The inventory after one action, and the beam source spawned by it, if
/// any. `dir` is the already-normalized aim; `None` stands for an aim that
/// cannot be normalized (the cursor sits exactly on the origin), which
/// rejects the shot.
pub open spec fn spec_process_beam_action(
    inv: PlayerLightInventory,
    action: BeamAction,
    origin: Vec2i,
    dir: Option<Dir8>,
) -> (PlayerLightInventory, Option<LightBeamSource>) {
    match action {
        BeamAction::Shoot => {
            match (inv.current_color, dir) {
                (Some(color), Some(d)) => {
                    if inv.spec_can_shoot() {
                        (
                            PlayerLightInventory {
                                sources: inv.sources.spec_set(color, false),
                                should_shoot: false,
                                previewing: false,
                                ..inv
                            },
                            Some(
                                LightBeamSource {
                                    start_pos: origin,
                                    start_dir: d,
                                    time_traveled: 0,
                                    color,
                                },
                            ),
                        )
                    } else {
                        (inv, None)
                    }
                },
                _ => (inv, None),
            }
        },
        BeamAction::Snap(v) => (PlayerLightInventory { snapping: v, ..inv }, None),
        BeamAction::Preview => (
            PlayerLightInventory { previewing: true, should_shoot: true, ..inv },
            None,
        ),
        BeamAction::Cancel => (
            PlayerLightInventory { previewing: false, should_shoot: false, ..inv },
            None,
        ),
        BeamAction::SwitchColor(c) => (PlayerLightInventory { current_color: c, ..inv }, None),
    }
}

/// Applies one player action: a successful shot consumes the color's charge,
/// clears the pending shot and the preview, and spawns a beam source at the
/// origin with zero distance traveled; every other action only edits flags.
pub fn process_beam_action(
    inv: &mut PlayerLightInventory,
    action: BeamAction,
    origin: Vec2i,
    dir: Option<Dir8>,
) -> (spawn: Option<LightBeamSource>)
    requires
        origin.in_bounds(),
    ensures
        (*final(inv), spawn) == spec_process_beam_action(*old(inv), action, origin, dir),
        spawn matches Some(s) ==> s.wf() && s.time_traveled == 0,
{
    match action {
        BeamAction::Shoot => {
            if inv.can_shoot() && dir.is_some() {
                let color = match inv.current_color {
                    Some(c) => c,
                    None => vstd::pervasive::unreached(),
                };
                let d = match dir {
                    Some(d) => d,
                    None => vstd::pervasive::unreached(),
                };
                inv.sources.set(color, false);
                inv.should_shoot = false;
                inv.previewing = false;
                Some(LightBeamSource { start_pos: origin, start_dir: d, time_traveled: 0, color })
            } else {
                None
            }
        },
        BeamAction::Snap(v) => {
            inv.snapping = v;
            None
        },
        BeamAction::Preview => {
            inv.previewing = true;
            inv.should_shoot = true;
            None
        },
        BeamAction::Cancel => {
            inv.previewing = false;
            inv.should_shoot = false;
            None
        },
        BeamAction::SwitchColor(c) => {
            inv.current_color = c;
            None
        },
    }
}

/// The inventory after the first `upto` actions of a frame's batch, and the
/// beam sources the batch spawned so far, in order.
pub open spec fn spec_process_beam_actions(
    inv: PlayerLightInventory,
    actions: Seq<BeamAction>,
    origin: Vec2i,
    dir: Option<Dir8>,
    upto: int,
) -> (PlayerLightInventory, Seq<LightBeamSource>)
    decreases upto,
{
    if upto <= 0 {
        (inv, Seq::empty())
    } else {
        let prev = spec_process_beam_actions(inv, actions, origin, dir, upto - 1);
        let step = spec_process_beam_action(prev.0, actions[upto - 1], origin, dir);
        (
            step.0,
            prev.1 + match step.1 {
                Option::Some(s) => seq![s],
                Option::None => Seq::empty(),
            },
        )
    }
}

/// Applies a frame's batch of actions in order and collects the beam sources
/// the shots spawned.
pub fn process_beam_actions(
    inv: &mut PlayerLightInventory,
    actions: &Vec<BeamAction>,
    origin: Vec2i,
    dir: Option<Dir8>,
) -> (spawned: Vec<LightBeamSource>)
    requires
        origin.in_bounds(),
    ensures
        (*final(inv), spawned@) == spec_process_beam_actions(
            *old(inv),
            actions@,
            origin,
            dir,
            actions@.len() as int,
        ),
        forall|j: int| 0 <= j < spawned@.len() ==> (#[trigger] spawned@[j]).wf(),
{
    let mut spawned: Vec<LightBeamSource> = Vec::new();
    let mut k: usize = 0;
    while k < actions.len()
        invariant
            origin.in_bounds(),
            k <= actions@.len(),
            (*inv, spawned@) == spec_process_beam_actions(
                *old(inv),
                actions@,
                origin,
                dir,
                k as int,
            ),
            forall|j: int| 0 <= j < spawned@.len() ==> (#[trigger] spawned@[j]).wf(),
        decreases actions@.len() - k,
    {
        let ghost spawned0 = spawned@;
        if let Some(source) = process_beam_action(inv, actions[k], origin, dir) {
            spawned.push(source);
        }
        proof {
            assert(spawned@ =~= spec_process_beam_actions(
                *old(inv),
                actions@,
                origin,
                dir,
                k + 1 as int,
            ).1);
        }
        k = k + 1;
    }
    spawned
}

/// Level reset: the inventory is replaced by a fresh one, keeping the
/// selected color only when the new level still allows it.
pub fn reset_inventory(inv: &mut PlayerLightInventory, allowed: ColorFlags)
    ensures
        *final(inv) == (if old(inv).current_color matches Some(c) && allowed.spec_get(c) {
            PlayerLightInventory {
                current_color: old(inv).current_color,
                ..PlayerLightInventory::spec_new()
            }
        } else {
            PlayerLightInventory::spec_new()
        }),
{
    let old_color = inv.current_color;
    *inv = PlayerLightInventory::new();
    if let Some(c) = old_color {
        if allowed.get(c) {
            inv.current_color = Some(c);
        }
    }
}

/// The actions one frame of shooting input produces, in the order they are
/// handled: a left press starts the preview, a right press cancels it, a
/// left release fires, and the snap key's edges set and clear snapping.
pub open spec fn spec_shoot_actions(
    left_pressed: bool,
    right_pressed: bool,
    left_released: bool,
    snap_pressed: bool,
    snap_released: bool,
) -> Seq<BeamAction> {
    (if left_pressed {
        seq![BeamAction::Preview]
    } else {
        Seq::empty()
    }) + (if right_pressed {
        seq![BeamAction::Cancel]
    } else {
        Seq::empty()
    }) + (if left_released {
        seq![BeamAction::Shoot]
    } else {
        Seq::empty()
    }) + (if snap_pressed {
        seq![BeamAction::Snap(true)]
    } else {
        Seq::empty()
    }) + (if snap_released {
        seq![BeamAction::Snap(false)]
    } else {
        Seq::empty()
    })
}

/// Maps one frame of raw shooting input (button edges) to the beam actions
/// to process, exactly as [`spec_shoot_actions`] orders them.
pub fn handle_shoot_inputs(
    left_pressed: bool,
    right_pressed: bool,
    left_released: bool,
    snap_pressed: bool,
    snap_released: bool,
) -> (actions: Vec<BeamAction>)
    ensures
        actions@ == spec_shoot_actions(
            left_pressed,
            right_pressed,
            left_released,
            snap_pressed,
            snap_released,
        ),
{
    let mut actions: Vec<BeamAction> = Vec::new();
    if left_pressed {
        actions.push(BeamAction::Preview);
    }
    if right_pressed {
        actions.push(BeamAction::Cancel);
    }
    if left_released {
        actions.push(BeamAction::Shoot);
    }
    if snap_pressed {
        actions.push(BeamAction::Snap(true));
    }
    if snap_released {
        actions.push(BeamAction::Snap(false));
    }
    proof {
        assert(actions@ =~= spec_shoot_actions(
            left_pressed,
            right_pressed,
            left_released,
            snap_pressed,
            snap_released,
        ));
    }
    actions
}

/// The scroll-wheel color order.
pub open spec fn color_at(idx: int) -> LightColor {
    if idx == 0 {
        LightColor::Green
    } else if idx == 1 {
        LightColor::Purple
    } else if idx == 2 {
        LightColor::White
    } else {
        LightColor::Blue
    }
}

/// One scroll step through the four-slot color wheel.
pub open spec fn step_idx(idx: int, up: bool) -> int {
    if up {
        if idx == 3 {
            0
        } else {
            idx + 1
        }
    } else {
        if idx == 0 {
            3
        } else {
            idx - 1
        }
    }
}

/// Slot of the currently selected color; the slot before the first (or
/// after the last, scrolling down) when nothing is selected.
pub open spec fn start_idx(current: Option<LightColor>, up: bool) -> int {
    match current {
        Some(LightColor::Green) => step_idx(0, up),
        Some(LightColor::Purple) => step_idx(1, up),
        Some(LightColor::White) => step_idx(2, up),
        Some(LightColor::Blue) => step_idx(3, up),
        None => if up {
            0
        } else {
            3
        },
    }
}

/// Scanning the wheel from `idx`: the first allowed slot within `fuel` more
/// steps, or wherever the scan gave up.
pub open spec fn scroll_scan(idx: int, allowed: ColorFlags, up: bool, fuel: nat) -> int
    decreases fuel,
{
    if allowed.spec_get(color_at(idx)) || fuel == 0 {
        idx
    } else {
        scroll_scan(step_idx(idx, up), allowed, up, (fuel - 1) as nat)
    }
}

/// The color one scroll-wheel notch selects: the next slot in scroll
/// direction, skipping disallowed colors (giving up after one full turn of
/// the wheel), or `None` when even the scan's last slot is disallowed.
pub open spec fn spec_scroll_color(
    current: Option<LightColor>,
    allowed: ColorFlags,
    up: bool,
) -> Option<LightColor> {
    let landed = color_at(scroll_scan(start_idx(current, up), allowed, up, 4));
    if allowed.spec_get(landed) {
        Some(landed)
    } else {
        None
    }
}

/// Cycles the selected color by one scroll notch through the allowed colors.
/// Whenever any color at all is allowed, the scan finds one.
pub fn handle_color_switch(
    current: Option<LightColor>,
    allowed: ColorFlags,
    up: bool,
) -> (r: Option<LightColor>)
    ensures
        r == spec_scroll_color(current, allowed, up),
        r matches Some(c) ==> allowed.spec_get(c),
        allowed.spec_any() ==> r is Some,
{
    proof {
        if allowed.spec_any() {
            lemma_scroll_finds_allowed(current, allowed, up);
        }
    }
    let mut idx: usize = match (current, up) {
        (Some(LightColor::Green), true) => 1,
        (Some(LightColor::Purple), true) => 2,
        (Some(LightColor::White), true) => 3,
        (Some(LightColor::Blue), true) => 0,
        (Some(LightColor::Green), false) => 3,
        (Some(LightColor::Purple), false) => 0,
        (Some(LightColor::White), false) => 1,
        (Some(LightColor::Blue), false) => 2,
        (None, true) => 0,
        (None, false) => 3,
    };
    let mut count: usize = 0;
    while !allowed.get(color_at_exec(idx)) && count < 4
        invariant
            idx < 4,
            count <= 4,
            scroll_scan(start_idx(current, up), allowed, up, 4) == scroll_scan(
                idx as int,
                allowed,
                up,
                (4 - count) as nat,
            ),
        decreases 4 - count,
    {
        idx = if up {
            if idx == 3 {
                0
            } else {
                idx + 1
            }
        } else {
            if idx == 0 {
                3
            } else {
                idx - 1
            }
        };
        count = count + 1;
    }
    let landed = color_at_exec(idx);
    if allowed.get(landed) {
        Some(landed)
    } else {
        None
    }
}

/// Executable color wheel slot, equal to [`color_at`].
fn color_at_exec(idx: usize) -> (c: LightColor)
    requires
        idx < 4,
    ensures
        c == color_at(idx as int),
{
    if idx == 0 {
        LightColor::Green
    } else if idx == 1 {
        LightColor::Purple
    } else if idx == 2 {
        LightColor::White
    } else {
        LightColor::Blue
    }
}

/// With any color allowed, a four-step scan around the four-slot wheel lands
/// on an allowed slot.
proof fn lemma_scroll_finds_allowed(current: Option<LightColor>, allowed: ColorFlags, up: bool)
    requires
        allowed.spec_any(),
    ensures
        allowed.spec_get(color_at(scroll_scan(start_idx(current, up), allowed, up, 4))),
{
    reveal_with_fuel(scroll_scan, 6);
}

} // verus!
