use woxel::{
    generate_qube_offset_in_spherical_order, select_lod, Block, BlockCoord, Chunk, ChunkCoord, Scene,
    VoxelDensityGenerator, WorldCoord,
};

fn slot_of(c: ChunkCoord, size: [usize; 3]) -> usize {
    c.0.rem_euclid(size[0] as isize) as usize
        + c.1.rem_euclid(size[1] as isize) as usize * size[0]
        + c.2.rem_euclid(size[2] as isize) as usize * size[0] * size[1]
}

fn loaded_count(scene: &Scene) -> usize {
    scene.active().iter().filter(|s| s.is_some()).count()
}

#[test]
fn level_of_detail_has_two_buckets() {
    assert_eq!(select_lod(0), 0);
    assert_eq!(select_lod(39), 0);
    assert_eq!(select_lod(40), 0);
    assert_eq!(select_lod(59), 0);
    assert_eq!(select_lod(199), 0);
    assert_eq!(select_lod(200), 4);
    assert_eq!(select_lod(100_000), 4);
}

#[test]
fn visiting_order_runs_from_near_to_far() {
    assert_eq!(generate_qube_offset_in_spherical_order([1, 1, 1]), vec![((0, 0, 0), 0)]);
    assert_eq!(generate_qube_offset_in_spherical_order([0, 0, 0]), vec![((0, 0, 0), 0)]);
    assert_eq!(generate_qube_offset_in_spherical_order([1, 0, 1]), vec![((0, 0, 0), 0)]);
    // every other offset of the cube is at distance 1, in sweep order
    let mut expected = vec![((0isize, 0isize, 0isize), 0usize)];
    for x in -1isize..=1 {
        for y in -1isize..=1 {
            for z in -1isize..=1 {
                if (x, y, z) != (0, 0, 0) {
                    expected.push(((x, y, z), 1usize));
                }
            }
        }
    }
    // the visits reach half the side, rounded down, in both directions
    for size in [[3, 3, 3], [2, 2, 2], [2, 3, 2]] {
        let order = generate_qube_offset_in_spherical_order(size);
        assert_eq!(order.len(), 27);
        assert_eq!(order[0], ((0, 0, 0), 0));
        assert_eq!(order[1], ((-1, -1, -1), 1));
        assert_eq!(order[26], ((1, 1, 1), 1));
        assert_eq!(order, expected);
    }
}

#[test]
fn visits_reach_as_far_on_both_sides() {
    let order = generate_qube_offset_in_spherical_order([4, 2, 1]);
    assert_eq!(
        order,
        vec![
            ((0, 0, 0), 0),
            ((-1, -1, 0), 1),
            ((-1, 0, 0), 1),
            ((-1, 1, 0), 1),
            ((0, -1, 0), 1),
            ((0, 1, 0), 1),
            ((1, -1, 0), 1),
            ((1, 0, 0), 1),
            ((1, 1, 0), 1),
            ((-2, -1, 0), 2),
            ((-2, 0, 0), 2),
            ((-2, 1, 0), 2),
            ((2, -1, 0), 2),
            ((2, 0, 0), 2),
            ((2, 1, 0), 2),
        ]
    );
    let cube = generate_qube_offset_in_spherical_order([4, 4, 4]);
    assert_eq!(cube.len(), 125);
    assert_eq!(cube[0], ((0, 0, 0), 0));
    assert_eq!(cube[124], ((2, 2, 2), 3));
    for pair in cube.windows(2) {
        assert!(pair[0].1 < pair[1].1 || (pair[0].1 == pair[1].1 && pair[0].0 < pair[1].0));
    }
    for ((x, y, z), d) in cube {
        assert!((-2..=2).contains(&x) && (-2..=2).contains(&y) && (-2..=2).contains(&z));
        let sq = (x * x + y * y + z * z) as usize;
        assert!(d * d <= sq && sq < (d + 1) * (d + 1));
    }
    assert_eq!(generate_qube_offset_in_spherical_order([64, 64, 64]).len(), 65 * 65 * 65);
}

#[test]
fn a_visit_past_the_window_leaves_the_slot_to_its_chunk() {
    // with an even side the far end of the reach shares its slots with the near end of the window
    let size = [2, 2, 2];
    let mut scene = Scene::new(size);
    let changed = scene.update(&WorldCoord(0, -40, 0), 1000);
    assert_eq!(loaded_count(&scene), 8);
    // each slot is made once, for the chunk of the window, though 27 visits are made
    assert_eq!(changed.len(), 8);
    for slot in 0..8 {
        assert_eq!(changed.iter().filter(|s| **s == slot).count(), 1);
    }
    for x in -1..1 {
        for y in -4..-2 {
            for z in -1..1 {
                let c = ChunkCoord(x, y, z);
                assert_eq!(scene.active()[slot_of(c, size)].as_ref().unwrap().coord, c);
            }
        }
    }
    // what lies one chunk further is not loaded, though a visit went there
    assert_eq!(scene.get_block(&WorldCoord(16, -40, 0)), None);
    assert_eq!(scene.get_block(&WorldCoord(0, -17, 0)), None);
    assert!(scene.update(&WorldCoord(0, -40, 0), 1000).is_empty());
}

#[test]
fn slots_wrap_around_the_window() {
    let scene = Scene::new([4, 2, 3]);
    assert_eq!(scene.active().len(), 24);
    assert_eq!(scene.slot_of(&ChunkCoord(0, 0, 0)), 0);
    assert_eq!(scene.slot_of(&ChunkCoord(1, 1, 1)), 1 + 4 + 8);
    assert_eq!(scene.slot_of(&ChunkCoord(-1, -1, -1)), 3 + 4 + 16);
    assert_eq!(scene.slot_of(&ChunkCoord(4, 2, 3)), 0);
    assert_eq!(scene.slot_of(&ChunkCoord(-4, 7, 100)), 0 + 4 + 8);
    for c in [ChunkCoord(5, -3, 8), ChunkCoord(-17, 0, -2)] {
        assert_eq!(scene.slot_of(&c), slot_of(c, [4, 2, 3]));
    }
}

#[test]
fn new_scene_has_nothing_loaded() {
    let scene = Scene::new([4, 4, 4]);
    assert_eq!(scene.active().len(), 64);
    assert_eq!(loaded_count(&scene), 0);
    assert_eq!(scene.get_block(&WorldCoord(0, 0, 0)), None);
    assert_eq!(scene.get_block(&WorldCoord(-1000, 5, 77)), None);
    let mut scene = scene;
    assert!(!scene.set_block(&WorldCoord(0, 0, 0), Block::Stone, true));
    assert_eq!(loaded_count(&scene), 0);
}

#[test]
fn update_loads_the_window_and_follows_the_player() {
    let size = [4, 4, 4];
    let mut scene = Scene::new(size);
    let changed = scene.update(&WorldCoord(0, 0, 0), 1000);
    assert_eq!(loaded_count(&scene), 64);
    // the player's chunk comes first and is meshed at the finest level
    assert_eq!(changed[0], slot_of(ChunkCoord(0, 0, 0), size));
    let entry = scene.active()[0].as_ref().unwrap();
    assert_eq!(entry.coord, ChunkCoord(0, 0, 0));
    let (chunk, (lod, mesh)) = entry.loaded.as_ref().unwrap();
    assert_eq!(*lod, 0);
    assert!(!chunk.is_empty());
    assert!(!mesh.is_empty());
    let mut copy = chunk.clone();
    assert_eq!(*mesh, copy.get_mesh(0));
    // every chunk of the window sits in the slot that its coordinate names
    for x in -2..2 {
        for y in -2..2 {
            for z in -2..2 {
                let c = ChunkCoord(x, y, z);
                let e = scene.active()[slot_of(c, size)].as_ref().unwrap();
                assert_eq!(e.coord, c);
                if let Some((chunk, (lod, mesh))) = &e.loaded {
                    let mut expected = chunk.clone().get_mesh(*lod);
                    expected.offset_vertices_by(&c);
                    assert_eq!(*mesh, expected);
                    assert!(changed.contains(&slot_of(c, size)));
                } else {
                    assert!(!changed.contains(&slot_of(c, size)));
                }
            }
        }
    }
    assert!(scene.get_block(&WorldCoord(-32, 0, 0)).is_some());
    assert_eq!(scene.get_block(&WorldCoord(32, 0, 0)), None);
    // a second update at the same place does nothing
    assert!(scene.update(&WorldCoord(3, 2, 1), 1000).is_empty());

    // one chunk east: the west edge leaves, the east edge enters
    let changed = scene.update(&WorldCoord(16, 0, 0), 1000);
    assert_eq!(loaded_count(&scene), 64);
    assert_eq!(scene.get_block(&WorldCoord(-32, 0, 0)), None);
    assert_eq!(scene.get_block(&WorldCoord(-17, 5, 5)), None);
    assert!(scene.get_block(&WorldCoord(-16, 0, 0)).is_some());
    assert!(scene.get_block(&WorldCoord(32, 0, 0)).is_some());
    assert!(scene.get_block(&WorldCoord(47, -32, 31)).is_some());
    assert_eq!(scene.get_block(&WorldCoord(48, 0, 0)), None);
    for y in -2..2 {
        for z in -2..2 {
            let east = ChunkCoord(2, y, z);
            let e = scene.active()[slot_of(east, size)].as_ref().unwrap();
            assert_eq!(e.coord, east);
            if e.loaded.is_some() {
                assert!(changed.contains(&slot_of(east, size)));
            }
        }
    }
    for slot in changed {
        assert_eq!(scene.active()[slot].as_ref().unwrap().coord.0, 2);
    }
    // the blocks are those that the generator gives the chunk
    let generated = Chunk::new_polulated(&VoxelDensityGenerator::new(), &ChunkCoord(2, 0, -1));
    for (x, y, z) in [(0usize, 0usize, 0usize), (5, 3, 9), (15, 15, 15), (8, 1, 2)] {
        assert_eq!(
            scene.get_block(&WorldCoord(32 + x as isize, y as isize, -16 + z as isize)),
            Some(generated.get_block(&BlockCoord(x, y, z)))
        );
    }
}

#[test]
fn budget_stops_the_visits() {
    let mut scene = Scene::new([4, 4, 4]);
    // the player's chunk costs 2: with a budget of 2 nothing else is visited
    let changed = scene.update(&WorldCoord(0, 0, 0), 2);
    assert_eq!(changed, vec![0]);
    assert_eq!(loaded_count(&scene), 1);
    // the next update goes on with the nearest chunks that are missing
    let changed = scene.update(&WorldCoord(0, 0, 0), 4);
    assert_eq!(changed.len(), 2);
    assert_eq!(loaded_count(&scene), 3);
    let size = [4, 4, 4];
    assert_eq!(changed[0], slot_of(ChunkCoord(-1, -1, -1), size));
    assert_eq!(changed[1], slot_of(ChunkCoord(-1, -1, 0), size));
    // the budget is looked at after the first visit, whatever it cost
    let changed = scene.update(&WorldCoord(0, 0, 0), 0);
    assert!(changed.is_empty());
    assert_eq!(loaded_count(&scene), 3);
    let mut fresh = Scene::new([4, 4, 4]);
    assert_eq!(fresh.update(&WorldCoord(0, 0, 0), 0), vec![0]);
    assert_eq!(loaded_count(&fresh), 1);
}

#[test]
fn air_chunks_share_one_chunk_and_cost_nothing() {
    let mut scene = Scene::new([2, 2, 2]);
    // far above the highest ground
    let player = WorldCoord(0, 16 * 300, 0);
    let changed = scene.update(&player, 1);
    assert!(changed.is_empty());
    assert_eq!(loaded_count(&scene), 8);
    for slot in scene.active().iter() {
        assert!(slot.as_ref().unwrap().loaded.is_none());
    }
    assert_eq!(scene.get_block(&WorldCoord(3, 16 * 300 + 2, 1)), Some(Block::Empty));
    // air into air changes nothing
    assert!(scene.set_block(&WorldCoord(3, 16 * 300 + 2, 1), Block::Empty, false));
    assert!(scene.active()[slot_of(ChunkCoord(0, 300, 0), [2, 2, 2])].as_ref().unwrap().loaded.is_none());
    // a block gives the slot a chunk of its own, meshed at once
    assert!(scene.set_block(&WorldCoord(3, 16 * 300 + 2, 1), Block::Stone, false));
    assert_eq!(scene.get_block(&WorldCoord(3, 16 * 300 + 2, 1)), Some(Block::Stone));
    let entry = scene.active()[slot_of(ChunkCoord(0, 300, 0), [2, 2, 2])].as_ref().unwrap();
    let (chunk, (lod, mesh)) = entry.loaded.as_ref().unwrap();
    assert_eq!(*lod, 0);
    assert_eq!(chunk.get_block(&BlockCoord(3, 2, 1)), Block::Stone);
    assert_eq!(mesh.vertices.len(), 24);
    assert_eq!(mesh.vertices[0].pos, [4, 16 * 300 + 2, 2]);
    // the other slots still share the chunk of air
    assert_eq!(scene.active().iter().filter(|s| s.as_ref().unwrap().loaded.is_none()).count(), 7);
    assert_eq!(scene.get_block(&WorldCoord(-3, 16 * 300 + 2, 1)), Some(Block::Empty));
}

#[test]
fn edits_show_at_once() {
    let mut scene = Scene::new([4, 4, 4]);
    scene.update(&WorldCoord(0, 0, 0), 1000);
    let before = scene.active()[0].as_ref().unwrap().loaded.as_ref().unwrap().1 .1.clone();
    assert_eq!(scene.get_block(&WorldCoord(0, 0, 0)), Some(Block::Empty));
    assert!(scene.set_block(&WorldCoord(0, 0, 0), Block::Stone, true));
    assert_eq!(scene.get_block(&WorldCoord(0, 0, 0)), Some(Block::Stone));
    let entry = scene.active()[0].as_ref().unwrap();
    let (chunk, (lod, mesh)) = entry.loaded.as_ref().unwrap();
    assert_eq!(*lod, 0);
    assert_ne!(*mesh, before);
    assert_eq!(*mesh, chunk.clone().get_mesh(0));
    assert_eq!(*mesh, woxel::compute_mesh(&{
        let mut blocks = [Block::Empty; 4096];
        for z in 0..16 {
            for y in 0..16 {
                for x in 0..16 {
                    blocks[x + 16 * y + 256 * z] = chunk.get_block(&BlockCoord(x, y, z));
                }
            }
        }
        blocks
    }));
    // an occupied place refuses a write without overwrite
    assert!(!scene.set_block(&WorldCoord(0, 0, 0), Block::Dirt, false));
    assert_eq!(scene.get_block(&WorldCoord(0, 0, 0)), Some(Block::Stone));
    // in a chunk away from the origin the mesh lies at the chunk's place
    assert!(scene.set_block(&WorldCoord(-20, 10, 9), Block::Sand, true));
    assert_eq!(scene.get_block(&WorldCoord(-20, 10, 9)), Some(Block::Sand));
    let c = ChunkCoord(-2, 0, 0);
    let entry = scene.active()[slot_of(c, [4, 4, 4])].as_ref().unwrap();
    let (chunk, (lod, mesh)) = entry.loaded.as_ref().unwrap();
    let mut expected = chunk.clone().get_mesh(*lod);
    expected.offset_vertices_by(&c);
    assert_eq!(*mesh, expected);
    for v in &mesh.vertices {
        assert!((-32..=-16).contains(&v.pos[0]));
        assert!((0..=16).contains(&v.pos[1]));
    }
    // a chunk that is not loaded takes no block
    assert!(!scene.set_block(&WorldCoord(-20, 50, 9), Block::Sand, true));
    assert_eq!(scene.get_block(&WorldCoord(-20, 50, 9)), None);
}

#[test]
fn sliding_keeps_what_lies_in_both_windows() {
    let size = [4, 4, 4];
    let mut scene = Scene::new(size);
    scene.update(&WorldCoord(0, 0, 0), 1000);
    scene.slide_active_chunk_window(ChunkCoord(0, -1, 2));
    // along y one layer leaves, along z two: 4 * 3 * 2 chunks stay
    assert_eq!(loaded_count(&scene), 24);
    for slot in scene.active().iter().flatten() {
        assert!((-2..2).contains(&slot.coord.0));
        assert!((-2..1).contains(&slot.coord.1));
        assert!((0..2).contains(&slot.coord.2));
    }
    assert_eq!(scene.get_block(&WorldCoord(0, 16, 0)), None);
    assert_eq!(scene.get_block(&WorldCoord(0, 0, -1)), None);
    assert!(scene.get_block(&WorldCoord(0, 0, 16)).is_some());
}

#[test]
fn sliding_by_the_window_size_clears_every_slot() {
    for target in [ChunkCoord(4, 0, 0), ChunkCoord(0, -4, 0), ChunkCoord(1, 1, 9), ChunkCoord(-1000, 0, 0)] {
        let mut scene = Scene::new([4, 4, 4]);
        scene.update(&WorldCoord(0, 0, 0), 1000);
        assert_eq!(loaded_count(&scene), 64);
        scene.slide_active_chunk_window(target);
        assert_eq!(loaded_count(&scene), 0);
    }
    // a jump in one update loads the new window afresh
    let mut scene = Scene::new([2, 2, 2]);
    scene.update(&WorldCoord(0, 0, 0), 1000);
    scene.update(&WorldCoord(16 * 50, 0, 0), 1000);
    for slot in scene.active().iter().flatten() {
        assert!((49..51).contains(&slot.coord.0));
    }
    assert_eq!(loaded_count(&scene), 8);
}

#[test]
fn moving_back_evicts_the_edge_ahead_of_the_old_window() {
    let size = [4, 4, 4];
    let mut scene = Scene::new(size);
    scene.update(&WorldCoord(0, 0, 0), 1000);
    let changed = scene.update(&WorldCoord(-1, 0, 0), 1000);
    assert_eq!(loaded_count(&scene), 64);
    // the window now reaches from chunk -3 to chunk 0 along x
    assert_eq!(scene.get_block(&WorldCoord(16, 0, 0)), None);
    assert!(scene.get_block(&WorldCoord(-48, 0, 0)).is_some());
    assert_eq!(scene.get_block(&WorldCoord(-49, 0, 0)), None);
    for slot in scene.active().iter().flatten() {
        assert!((-3..1).contains(&slot.coord.0));
    }
    for slot in changed {
        assert_eq!(scene.active()[slot].as_ref().unwrap().coord.0, -3);
    }
}

#[test]
fn no_slot_ever_shows_another_chunk() {
    let generator = VoxelDensityGenerator::new();
    for size in [[3usize, 3, 3], [4, 2, 3], [2, 2, 2]] {
        let mut scene = Scene::new(size);
        let walk = [
            (0isize, 0isize, 0isize),
            (16, 0, 0),
            (16, 0, -16),
            (-20, 3, -16),
            (-20, 40, 30),
            (100, 40, 30),
            (99, 40, 30),
            (99, -7, 29),
            (0, 0, 0),
        ];
        for (step, (x, y, z)) in walk.iter().enumerate() {
            // now and then the budget ends the update early
            let budget = if step % 3 == 1 { 5 } else { 1000 };
            scene.update(&WorldCoord(*x, *y, *z), budget);
            let center = WorldCoord(*x, *y, *z).to_chunk_coord();
            let mut loaded = 0;
            for (i, slot) in scene.active().iter().enumerate() {
                if let Some(entry) = slot {
                    loaded += 1;
                    let c = entry.coord;
                    assert_eq!(slot_of(c, size), i);
                    let offsets = [c.0 - center.0, c.1 - center.1, c.2 - center.2];
                    for axis in 0..3 {
                        let lo = -((size[axis] / 2) as isize);
                        assert!(lo <= offsets[axis] && offsets[axis] < lo + size[axis] as isize);
                    }
                    let expected = Chunk::new_polulated(&generator, &c);
                    for (bx, by, bz) in [(0usize, 0usize, 0usize), (15, 15, 15), (7, 3, 11)] {
                        let w = WorldCoord(
                            c.0 * 16 + bx as isize,
                            c.1 * 16 + by as isize,
                            c.2 * 16 + bz as isize,
                        );
                        assert_eq!(
                            scene.get_block(&w),
                            Some(expected.get_block(&BlockCoord(bx, by, bz)))
                        );
                    }
                    match &entry.loaded {
                        Some((chunk, (lod, mesh))) => {
                            assert!(!chunk.is_empty());
                            let mut local = chunk.clone().get_mesh(*lod);
                            local.offset_vertices_by(&c);
                            assert_eq!(*mesh, local);
                        }
                        None => assert!(expected.is_empty()),
                    }
                }
            }
            if budget == 1000 {
                assert_eq!(loaded, size[0] * size[1] * size[2]);
            }
            assert!(scene.get_block(&WorldCoord(*x, *y, *z)).is_some());
        }
    }
}
