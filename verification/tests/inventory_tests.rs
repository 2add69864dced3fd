use lightborne::color::{ColorFlags, LightColor};
use lightborne::geom::{Dir8, Vec2i};
use lightborne::inventory::{
    handle_color_switch, handle_shoot_inputs, process_beam_action, process_beam_actions,
    reset_inventory, BeamAction, PlayerLightInventory,
};

fn origin() -> Vec2i {
    Vec2i { x: 0, y: 0 }
}

#[test]
fn shoot_needs_preview_color_and_charge() {
    let mut inv = PlayerLightInventory::new();
    // No pending shot, nothing selected: the shot is rejected.
    assert!(process_beam_action(&mut inv, BeamAction::Shoot, origin(), Some(Dir8::East)).is_none());

    process_beam_action(&mut inv, BeamAction::SwitchColor(Some(LightColor::Green)), origin(), None);
    process_beam_action(&mut inv, BeamAction::Preview, origin(), None);
    assert!(inv.previewing && inv.should_shoot);

    let spawn = process_beam_action(&mut inv, BeamAction::Shoot, origin(), Some(Dir8::East));
    let source = spawn.expect("the shot should spawn a beam");
    assert_eq!(source.color, LightColor::Green);
    assert_eq!(source.start_dir, Dir8::East);
    assert_eq!(source.time_traveled, 0);
    // The shot consumed the green charge and ended the preview.
    assert!(!inv.sources.green);
    assert!(!inv.previewing && !inv.should_shoot);
}

#[test]
fn second_shot_of_the_same_color_is_rejected() {
    let mut inv = PlayerLightInventory::new();
    process_beam_action(&mut inv, BeamAction::SwitchColor(Some(LightColor::Blue)), origin(), None);
    process_beam_action(&mut inv, BeamAction::Preview, origin(), None);
    assert!(process_beam_action(&mut inv, BeamAction::Shoot, origin(), Some(Dir8::North)).is_some());
    process_beam_action(&mut inv, BeamAction::Preview, origin(), None);
    assert!(process_beam_action(&mut inv, BeamAction::Shoot, origin(), Some(Dir8::North)).is_none());
}

#[test]
fn aim_on_the_origin_rejects_the_shot() {
    let mut inv = PlayerLightInventory::new();
    process_beam_action(&mut inv, BeamAction::SwitchColor(Some(LightColor::White)), origin(), None);
    process_beam_action(&mut inv, BeamAction::Preview, origin(), None);
    // A direction that cannot be normalized never fires.
    assert!(process_beam_action(&mut inv, BeamAction::Shoot, origin(), None).is_none());
    // The charge is kept.
    assert!(inv.sources.white);
}

#[test]
fn cancel_clears_the_pending_shot() {
    let mut inv = PlayerLightInventory::new();
    process_beam_action(&mut inv, BeamAction::SwitchColor(Some(LightColor::White)), origin(), None);
    process_beam_action(&mut inv, BeamAction::Preview, origin(), None);
    process_beam_action(&mut inv, BeamAction::Cancel, origin(), None);
    assert!(process_beam_action(&mut inv, BeamAction::Shoot, origin(), Some(Dir8::East)).is_none());
}

#[test]
fn snap_flag_follows_the_action() {
    let mut inv = PlayerLightInventory::new();
    process_beam_action(&mut inv, BeamAction::Snap(true), origin(), None);
    assert!(inv.snapping);
    process_beam_action(&mut inv, BeamAction::Snap(false), origin(), None);
    assert!(!inv.snapping);
}

#[test]
fn input_edges_map_to_ordered_actions() {
    // Left press and release in one frame: preview first, then the shot.
    let actions = handle_shoot_inputs(true, false, true, false, false);
    assert_eq!(actions, vec![BeamAction::Preview, BeamAction::Shoot]);
    let actions = handle_shoot_inputs(false, true, false, true, true);
    assert_eq!(
        actions,
        vec![BeamAction::Cancel, BeamAction::Snap(true), BeamAction::Snap(false)]
    );
    assert!(handle_shoot_inputs(false, false, false, false, false).is_empty());
}

#[test]
fn action_batch_spawns_one_beam() {
    let mut inv = PlayerLightInventory::new();
    let actions = vec![
        BeamAction::SwitchColor(Some(LightColor::Purple)),
        BeamAction::Preview,
        BeamAction::Shoot,
        BeamAction::Shoot,
    ];
    let spawned = process_beam_actions(&mut inv, &actions, origin(), Some(Dir8::SouthWest));
    // The first shot spends the charge; the repeated shot is rejected.
    assert_eq!(spawned.len(), 1);
    assert_eq!(spawned[0].color, LightColor::Purple);
    assert_eq!(spawned[0].start_dir, Dir8::SouthWest);
    assert!(!inv.sources.purple);
}

#[test]
fn scroll_skips_disallowed_colors() {
    let allowed = ColorFlags { green: true, purple: false, blue: true, white: false };
    // Scrolling up from green lands on blue, skipping purple and white.
    assert_eq!(handle_color_switch(Some(LightColor::Green), allowed, true), Some(LightColor::Blue));
    // Scrolling down from green wraps to blue directly.
    assert_eq!(
        handle_color_switch(Some(LightColor::Green), allowed, false),
        Some(LightColor::Blue)
    );
    // With no selection, scrolling up starts at the first slot.
    assert_eq!(handle_color_switch(None, allowed, true), Some(LightColor::Green));
}

#[test]
fn scroll_with_nothing_allowed_selects_nothing() {
    let allowed = ColorFlags { green: false, purple: false, blue: false, white: false };
    assert_eq!(handle_color_switch(Some(LightColor::Green), allowed, true), None);
    assert_eq!(handle_color_switch(None, allowed, false), None);
}

#[test]
fn reset_keeps_the_color_only_when_still_allowed() {
    let mut inv = PlayerLightInventory::new();
    process_beam_action(&mut inv, BeamAction::SwitchColor(Some(LightColor::Blue)), origin(), None);
    process_beam_action(&mut inv, BeamAction::Preview, origin(), None);
    process_beam_action(&mut inv, BeamAction::Shoot, origin(), Some(Dir8::East));

    let allowed = ColorFlags { green: true, purple: false, blue: true, white: false };
    reset_inventory(&mut inv, allowed);
    // Fresh inventory, with the still-allowed blue selection kept.
    assert_eq!(inv.current_color, Some(LightColor::Blue));
    assert!(inv.sources.blue && inv.sources.green);
    assert!(!inv.previewing && !inv.should_shoot);

    let allowed = ColorFlags { green: true, purple: false, blue: false, white: false };
    reset_inventory(&mut inv, allowed);
    assert_eq!(inv.current_color, None);
}
