use rays::math::{IVec3, UVec3};
use rays::system::{FpsSystem, QuitSignal, QuitSystem, XrayAction, XraySystem};
use rays::terrain::{BlockType, Terrain};

#[test]
fn vectors_keep_their_coordinates() {
    let v = IVec3::new(-1, 2, -3);
    assert_eq!((v.x, v.y, v.z), (-1, 2, -3));
    let u = UVec3::new(1, 2, 3);
    assert_eq!((u.x, u.y, u.z), (1, 2, 3));
}

#[test]
fn new_terrain_is_a_cube_of_air() {
    let t = Terrain::new(3);
    assert_eq!(t.side, 3);
    assert_eq!(t.blocks.len(), 27);
    assert!(t.blocks.iter().all(|b| *b == BlockType::Air));
    let empty = Terrain::new(0);
    assert!(empty.blocks.is_empty());
}

#[test]
fn block_is_found_by_x_then_z_then_y() {
    let mut t = Terrain::new(3);
    t.blocks[1 + 2 * 3 + 0 * 9] = BlockType::Dirt;
    t.blocks[2 + 0 * 3 + 1 * 9] = BlockType::Stone;
    t.blocks[26] = BlockType::Dirt;
    assert_eq!(t.block(IVec3::new(1, 0, 2)), BlockType::Dirt);
    assert_eq!(t.block(IVec3::new(2, 1, 0)), BlockType::Stone);
    assert_eq!(t.block(IVec3::new(2, 2, 2)), BlockType::Dirt);
    assert_eq!(t.block(IVec3::new(0, 0, 0)), BlockType::Air);
    assert_eq!(t.block(IVec3::new(1, 2, 0)), BlockType::Air);
}

#[test]
fn terrain_clone_is_independent() {
    let mut t = Terrain::new(2);
    let snapshot = t.clone();
    t.blocks[0] = BlockType::Stone;
    assert_eq!(snapshot.block(IVec3::new(0, 0, 0)), BlockType::Air);
    assert_eq!(t.block(IVec3::new(0, 0, 0)), BlockType::Stone);
}

#[test]
fn fps_counts_until_a_second_has_passed() {
    let mut f = FpsSystem::new();
    assert_eq!(f.fps, 0);
    assert_eq!(f.on_frame_update(0), None);
    assert_eq!(f.on_frame_update(0), None);
    assert_eq!(f.fps, 2);
    assert_eq!(f.on_frame_update(1), Some(3));
    assert_eq!(f.fps, 0);
    assert_eq!(f.on_frame_update(5), Some(1));
    assert_eq!(FpsSystem::default().fps, 0);
}

#[test]
fn xray_depth_steps() {
    assert_eq!(XraySystem::on_action(0, XrayAction::Add), 1);
    assert_eq!(XraySystem::on_action(4, XrayAction::Add), 5);
    assert_eq!(XraySystem::on_action(4, XrayAction::Sub), 3);
    assert_eq!(XraySystem::on_action(0, XrayAction::Sub), 0);
    assert_eq!(XraySystem::on_action(4, XrayAction::Reset), 0);
}

#[test]
fn typed_characters_change_the_xray_depth() {
    assert_eq!(XrayAction::from_char('+'), Some(XrayAction::Add));
    assert_eq!(XrayAction::from_char('-'), Some(XrayAction::Sub));
    assert_eq!(XrayAction::from_char(' '), Some(XrayAction::Reset));
    assert_eq!(XrayAction::from_char('x'), None);
}

#[test]
fn quit_on_close_destroy_or_request() {
    assert!(QuitSystem::on_signal(QuitSignal::CloseRequested));
    assert!(QuitSystem::on_signal(QuitSignal::Destroyed));
    assert!(QuitSystem::on_signal(QuitSignal::QuitAction));
    assert!(!QuitSystem::on_signal(QuitSignal::Other));
}

#[test]
fn default_terrain_is_empty() {
    let t = Terrain::default();
    assert_eq!(t.side, 0);
    assert!(t.blocks.is_empty());
}
