use woxel::{face_dir_to_normal, Block};

#[test]
fn block_numbers_round_trip() {
    for v in 0u8..40 {
        assert_eq!(Block::from_u8(v).to_u8(), v);
    }
    assert_eq!(Block::from_u8(0), Block::Empty);
    assert_eq!(Block::from_u8(3), Block::Stone);
    assert_eq!(Block::from_u8(10), Block::Water);
    assert_eq!(Block::from_u8(39), Block::BlackStone);
    assert_eq!(Block::Grass_Tall.to_u8(), 30);
    assert_eq!(Block::LakeWater.to_u8(), 37);
}

#[test]
fn unknown_block_numbers_are_air() {
    assert_eq!(Block::from_u8(40), Block::Empty);
    assert_eq!(Block::from_u8(200), Block::Empty);
    assert_eq!(Block::from_u8(255), Block::Empty);
}

#[test]
fn only_air_is_empty() {
    assert!(Block::Empty.is_empty());
    for v in 1u8..40 {
        assert!(!Block::from_u8(v).is_empty());
    }
}

#[test]
fn air_water_and_cloud_are_not_solid() {
    for v in 0u8..40 {
        let b = Block::from_u8(v);
        let expected = !(b == Block::Empty || b == Block::Water || b == Block::Cloud);
        assert_eq!(b.is_solid(), expected);
    }
    assert!(Block::LakeWater.is_solid());
    assert!(Block::Stone.is_solid());
}

#[test]
fn grass_is_green_on_top_only() {
    assert_eq!(Block::Grass.color(2), [30, 80, 20, 100]);
    for dir in [0u8, 1, 3, 4, 5, 9] {
        assert_eq!(Block::Grass.color(dir), [60, 40, 20, 100]);
    }
}

#[test]
fn colours_are_in_hundredths() {
    assert_eq!(Block::Empty.color(0), [0, 0, 0, 100]);
    assert_eq!(Block::Stone.color(0), [50, 50, 50, 100]);
    assert_eq!(Block::Stone.color(2), [50, 50, 50, 100]);
    assert_eq!(Block::Cloud.color(1), [95, 95, 95, 70]);
    assert_eq!(Block::Ice.color(1), [60, 80, 95, 70]);
    assert_eq!(Block::Snow.color(3), [95, 97, 100, 100]);
    assert_eq!(Block::BlackStone.color(4), [25, 25, 28, 100]);
    assert_eq!(Block::Water.color(5), [0, 10, 40, 100]);
}

#[test]
fn normals_point_along_the_axes() {
    assert_eq!(face_dir_to_normal(0), [1, 0, 0]);
    assert_eq!(face_dir_to_normal(1), [-1, 0, 0]);
    assert_eq!(face_dir_to_normal(2), [0, 1, 0]);
    assert_eq!(face_dir_to_normal(3), [0, -1, 0]);
    assert_eq!(face_dir_to_normal(4), [0, 0, 1]);
    assert_eq!(face_dir_to_normal(5), [0, 0, -1]);
    assert_eq!(face_dir_to_normal(6), [0, 1, 0]);
    assert_eq!(face_dir_to_normal(255), [0, 1, 0]);
}
