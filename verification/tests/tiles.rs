use backend2::tiles::{LevelInfo, TileTree};
use backend2::util::AABB;

/// builds a complete zoom pyramid
#[test]
fn pyramid() {
    assert_eq!(
        TileTree::new(4096, 2048, 512).build_levels().0,
        vec![
            LevelInfo {
                z: 0,
                width: 512,
                height: 256,
                columns: 1,
                rows: 1,
                scale: 8
            },
            LevelInfo {
                z: 1,
                width: 1024,
                height: 512,
                columns: 2,
                rows: 1,
                scale: 4
            },
            LevelInfo {
                z: 2,
                width: 2048,
                height: 1024,
                columns: 4,
                rows: 2,
                scale: 2
            },
            LevelInfo {
                z: 3,
                width: 4096,
                height: 2048,
                columns: 8,
                rows: 4,
                scale: 1
            },
        ]
    );
}

#[test]
fn tile_count_unaligned_dims() {
    let tree = TileTree::new(4624, 2604, 512);
    assert_eq!(84, tree.build_levels().tile_count());
}

#[test]
fn tile_count() {
    let tree = TileTree::new(4624, 2604, 512);
    let count: u32 = tree.build_levels().tile_count();

    assert_eq!(count as usize, tree.all_tiles().into_iter().count());
}

#[test]
fn zoom_depth_is_ceil_log2_of_ratio() {
    assert_eq!(TileTree::new(4624, 2604, 512).max_zoom_level, 4);
    assert_eq!(TileTree::new(4096, 2048, 512).max_zoom_level, 3);
    assert_eq!(TileTree::new(4097, 10, 512).max_zoom_level, 4);
    assert_eq!(TileTree::new(512, 512, 512).max_zoom_level, 0);
    assert_eq!(TileTree::new(100, 30, 512).max_zoom_level, 0);
    assert_eq!(TileTree::new(513, 1, 512).max_zoom_level, 1);
    assert_eq!(TileTree::new(0, 0, 512).max_zoom_level, 0);
    assert_eq!(TileTree::new(u32::MAX, 1, 1).max_zoom_level, 32);
}

#[test]
fn zoom_depth_with_zero_tile_size() {
    assert_eq!(TileTree::new(10, 20, 0).max_zoom_level, u32::MAX);
    assert_eq!(TileTree::new(0, 0, 0).max_zoom_level, 0);
}

#[test]
fn new_keeps_dimensions() {
    let tree = TileTree::new(4624, 2604, 512);
    assert_eq!((tree.width, tree.height, tree.tile_size), (4624, 2604, 512));
}

#[test]
fn unaligned_levels() {
    let levels = TileTree::new(4624, 2604, 512).build_levels().0;
    assert_eq!(levels.len(), 5);
    assert_eq!(
        levels[0],
        LevelInfo { z: 0, width: 289, height: 163, columns: 1, rows: 1, scale: 16 }
    );
    assert_eq!(
        levels[4],
        LevelInfo { z: 4, width: 4624, height: 2604, columns: 10, rows: 6, scale: 1 }
    );
    assert_eq!(levels[4].tile_count(), 60);
}

#[test]
fn empty_image_has_one_level_of_one_tile() {
    let tree = TileTree::new(0, 0, 256);
    let levels = tree.build_levels();
    assert_eq!(
        levels.0,
        vec![LevelInfo { z: 0, width: 1, height: 1, columns: 1, rows: 1, scale: 1 }]
    );
    let tiles = tree.all_tiles();
    assert_eq!(tiles.len(), 1);
    assert_eq!(tiles[0].1.src.w, 0);
    assert_eq!(tiles[0].1.dst_w, 1);
}

#[test]
fn tiles_come_level_by_level_row_by_row() {
    let tree = TileTree::new(4096, 2048, 512);
    let tiles = tree.all_tiles();
    let locs: Vec<(u32, u32, u32)> = tiles.iter().map(|(l, _)| (l.z, l.x, l.y)).collect();
    assert_eq!(&locs[0..4], &[(0, 0, 0), (1, 0, 0), (1, 1, 0), (2, 0, 0)]);
    assert_eq!(locs[11], (3, 0, 0));
    assert_eq!(locs[12], (3, 1, 0));
    assert_eq!(locs[19], (3, 0, 1));
    assert_eq!(locs.len(), 1 + 2 + 8 + 32);
}

#[test]
fn edge_tile_clip_is_cut_to_the_image() {
    let tree = TileTree::new(4624, 2604, 512);
    let tiles = tree.all_tiles();
    // last tile of the full-resolution level: column 9, row 5
    let (loc, clip) = tiles.last().unwrap();
    assert_eq!((loc.z, loc.x, loc.y), (4, 9, 5));
    assert_eq!((clip.src.x, clip.src.y, clip.src.w, clip.src.h), (4608, 2560, 16, 44));
    assert_eq!((clip.dst_w, clip.dst_h), (16, 44));
    // the single tile of the coarsest level shows the whole image
    let (loc, clip) = &tiles[0];
    assert_eq!((loc.z, loc.x, loc.y), (0, 0, 0));
    assert_eq!((clip.src.x, clip.src.y, clip.src.w, clip.src.h), (0, 0, 4624, 2604));
    assert_eq!((clip.dst_w, clip.dst_h), (289, 163));
}

#[test]
fn every_clip_stays_inside_the_image() {
    let tree = TileTree::new(1000, 777, 128);
    for (loc, clip) in tree.all_tiles() {
        assert!(clip.src.x + clip.src.w <= 1000, "{loc:?}");
        assert!(clip.src.y + clip.src.h <= 777, "{loc:?}");
        assert!(clip.src.w >= 1 && clip.src.h >= 1);
        assert!(clip.dst_w >= 1 && clip.dst_w <= 128);
        assert!(clip.dst_h >= 1 && clip.dst_h <= 128);
    }
}

#[test]
fn every_location_once() {
    let tree = TileTree::new(1000, 777, 128);
    let levels = tree.build_levels();
    let tiles = tree.all_tiles();
    let mut seen = std::collections::HashSet::new();
    for (loc, _) in &tiles {
        assert!(seen.insert((loc.z, loc.x, loc.y)));
    }
    let mut expected = 0;
    for l in &levels.0 {
        expected += (l.rows * l.columns) as usize;
    }
    assert_eq!(seen.len(), expected);
    assert_eq!(levels.tile_count() as usize, tiles.len());
}

#[test]
fn can_build_levels_checks_the_arithmetic() {
    assert!(TileTree::new(4624, 2604, 512).can_build_levels());
    assert!(!TileTree::new(10, 10, 0).can_build_levels());
    assert!(!TileTree::new(u32::MAX, 1, 1).can_build_levels());
    assert!(!TileTree::new(u32::MAX - 10, 1, 4096).can_build_levels());
}

#[test]
fn aabb_as_array() {
    let b = AABB { x: 1, y: 2, w: 3, h: 4 };
    assert_eq!(b.as_array(), [1, 2, 3, 4]);
}

#[test]
fn checked_tile_count_matches_or_refuses() {
    let tree = TileTree::new(4624, 2604, 512);
    assert_eq!(tree.build_levels().checked_tile_count(), Some(84));
    let level = LevelInfo { z: 0, width: 1, height: 1, columns: 70000, rows: 70000, scale: 1 };
    let many = backend2::tiles::Levels(vec![level]);
    assert_eq!(many.checked_tile_count(), None);
    let edge = LevelInfo { z: 0, width: 1, height: 1, columns: 65535, rows: 65537, scale: 1 };
    assert_eq!(backend2::tiles::Levels(vec![edge]).checked_tile_count(), Some(u32::MAX));
    let two = backend2::tiles::Levels(vec![edge, LevelInfo { columns: 1, rows: 1, ..edge }]);
    assert_eq!(two.checked_tile_count(), None);
}

#[test]
fn first_tile_is_the_whole_image() {
    let tree = TileTree::new(4624, 2604, 512);
    let levels = tree.build_levels();
    let tiles = tree.all_tiles();
    let (loc, clip) = &tiles[0];
    assert_eq!((loc.z, loc.x, loc.y), (0, 0, 0));
    assert_eq!(clip.src.as_array(), [0, 0, 4624, 2604]);
    assert_eq!((clip.dst_w, clip.dst_h), (levels.0[0].width, levels.0[0].height));
    assert!(levels.0[0].width <= 512 && levels.0[0].height <= 512);
    assert!(tiles[1..].iter().all(|(l, _)| l.z != 0));
}

#[test]
fn levels_halve_in_scale_and_grow() {
    let levels = TileTree::new(4624, 2604, 512).build_levels().0;
    for w in levels.windows(2) {
        assert_eq!(w[0].scale, 2 * w[1].scale);
        assert!(w[0].width <= w[1].width && w[0].height <= w[1].height);
        assert!(w[0].columns <= w[1].columns && w[0].rows <= w[1].rows);
    }
}

#[test]
fn levels_up_to_the_overflow_limit() {
    let tree = TileTree::new(1, 1, u32::MAX);
    assert!(tree.can_build_levels());
    assert_eq!(
        tree.build_levels().0,
        vec![LevelInfo { z: 0, width: 1, height: 1, columns: 1, rows: 1, scale: 1 }]
    );
    let tiles = tree.all_tiles();
    assert_eq!(tiles.len(), 1);
    assert_eq!(tiles[0].1.src.as_array(), [0, 0, 1, 1]);
    assert_eq!((tiles[0].1.dst_w, tiles[0].1.dst_h), (1, 1));
    assert!(!TileTree::new(2, 1, u32::MAX).can_build_levels());
    let wide = TileTree::new(1 << 31, 1, 1);
    assert_eq!(wide.max_zoom_level, 31);
    assert!(wide.can_build_levels());
    let levels = wide.build_levels().0;
    assert_eq!(levels.len(), 32);
    assert_eq!(levels[0], LevelInfo { z: 0, width: 1, height: 1, columns: 1, rows: 1, scale: 1 << 31 });
    assert_eq!(levels[31].width, 1 << 31);
}

#[test]
fn deepest_level_tiles_are_native() {
    let tree = TileTree::new(700, 300, 256);
    for (loc, clip) in tree.all_tiles().iter().filter(|(l, _)| l.z == tree.max_zoom_level) {
        assert_eq!((clip.src.x, clip.src.y), (loc.x * 256, loc.y * 256));
        assert_eq!((clip.src.w, clip.src.h), (clip.dst_w, clip.dst_h));
    }
}

#[test]
fn source_boxes_of_a_level_partition_the_image() {
    let tree = TileTree::new(700, 300, 256);
    let tiles = tree.all_tiles();
    for z in 0..=tree.max_zoom_level {
        let level: Vec<_> = tiles.iter().filter(|(l, _)| l.z == z).collect();
        let area: u64 = level.iter().map(|(_, c)| c.src.w as u64 * c.src.h as u64).sum();
        assert_eq!(area, 700 * 300);
        for (px, py) in [(0, 0), (699, 299), (255, 128), (511, 1)] {
            let n = level
                .iter()
                .filter(|(_, c)| c.src.x <= px && px < c.src.x + c.src.w && c.src.y <= py && py < c.src.y + c.src.h)
                .count();
            assert_eq!(n, 1);
        }
    }
}
