use woxel::{cycle_selected_block, Block, InputProcessor, KeyBindings, MouseButton};

#[test]
fn web_buttons_map_to_mouse_buttons() {
    assert_eq!(MouseButton::from_web_button(0), MouseButton::Left);
    assert_eq!(MouseButton::from_web_button(1), MouseButton::Middle);
    assert_eq!(MouseButton::from_web_button(2), MouseButton::Right);
    assert_eq!(MouseButton::from_web_button(3), MouseButton::Left);
    assert_eq!(MouseButton::from_web_button(-1), MouseButton::Left);
}

#[test]
fn default_bindings_are_the_usual_keys() {
    let keys = KeyBindings::default();
    assert_eq!(keys.forward, "w");
    assert_eq!(keys.backward, "s");
    assert_eq!(keys.left, "a");
    assert_eq!(keys.right, "d");
    assert_eq!(keys.jump, " ");
    assert_eq!(keys.sprint, "Shift");
    assert_eq!(keys.toggle_camera, "c");
    assert_eq!(keys.toggle_player, "p");
    assert_eq!(keys.toggle_wireframe, "g");
    assert_eq!(keys.toggle_chunk_borders, "b");
    assert_eq!(keys.escape, "Escape");
    assert_eq!(InputProcessor::default().bindings().escape, "Escape");
}

#[test]
fn toggles_ignore_the_case_of_the_key() {
    let p = InputProcessor::default();
    assert!(p.wants_to_toggle_camera("c"));
    assert!(p.wants_to_toggle_camera("C"));
    assert!(!p.wants_to_toggle_camera("p"));
    assert!(!p.wants_to_toggle_camera("cc"));
    assert!(!p.wants_to_toggle_camera(""));
    assert!(p.wants_to_toggle_player("P"));
    assert!(!p.wants_to_toggle_player("c"));
    assert!(p.wants_to_toggle_wireframe("G"));
    assert!(p.wants_to_toggle_wireframe("g"));
    assert!(!p.wants_to_toggle_wireframe("b"));
    assert!(p.wants_to_toggle_chunk_borders("B"));
    assert!(!p.wants_to_toggle_chunk_borders("g"));
    let mut keys = KeyBindings::default();
    keys.toggle_camera = "Tab".to_string();
    let custom = InputProcessor::new(keys);
    assert!(custom.wants_to_toggle_camera("tab"));
    assert!(custom.wants_to_toggle_camera("TAB"));
    assert!(!custom.wants_to_toggle_camera("c"));
}

#[test]
fn escape_must_match_exactly() {
    let p = InputProcessor::default();
    assert!(p.is_escape("Escape"));
    assert!(!p.is_escape("escape"));
    assert!(!p.is_escape("Esc"));
    assert!(!p.is_escape(""));
}

#[test]
fn number_keys_pick_blocks() {
    let p = InputProcessor::default();
    assert_eq!(p.block_from_key("1"), Some(Block::Grass));
    assert_eq!(p.block_from_key("2"), Some(Block::Dirt));
    assert_eq!(p.block_from_key("3"), Some(Block::Stone));
    assert_eq!(p.block_from_key("4"), Some(Block::Sand));
    assert_eq!(p.block_from_key("5"), Some(Block::Gravel));
    assert_eq!(p.block_from_key("6"), Some(Block::Cobblestone));
    assert_eq!(p.block_from_key("7"), Some(Block::Bedrock));
    assert_eq!(p.block_from_key("8"), Some(Block::OakLeaves));
    assert_eq!(p.block_from_key("9"), Some(Block::Wood));
    assert_eq!(p.block_from_key("0"), Some(Block::Water));
    assert_eq!(p.block_from_key("-"), Some(Block::Cloud));
    assert_eq!(p.block_from_key("_"), Some(Block::Cloud));
    assert_eq!(p.block_from_key("a"), None);
    assert_eq!(p.block_from_key("10"), None);
    assert_eq!(p.block_from_key(""), None);
}

#[test]
fn wheel_walks_round_the_hotbar() {
    assert_eq!(cycle_selected_block(Block::Grass, true), Block::Dirt);
    assert_eq!(cycle_selected_block(Block::Dirt, false), Block::Grass);
    assert_eq!(cycle_selected_block(Block::Cloud, true), Block::Grass);
    assert_eq!(cycle_selected_block(Block::Grass, false), Block::Cloud);
    assert_eq!(cycle_selected_block(Block::Water, true), Block::Cloud);
    // a block that is not in the hotbar counts as the first
    assert_eq!(cycle_selected_block(Block::Basalt, true), Block::Dirt);
    assert_eq!(cycle_selected_block(Block::Empty, false), Block::Cloud);
    let mut b = Block::Stone;
    for _ in 0..11 {
        b = cycle_selected_block(b, true);
    }
    assert_eq!(b, Block::Stone);
}
