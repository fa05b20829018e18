use pathtracer::tiles::{partition, Tile};

fn tile(x0: u32, y0: u32, x1: u32, y1: u32) -> Tile {
    Tile { x0, y0, x1, y1 }
}

/// How many of the tiles hold each pixel of the image, row by row.
fn cover(width: u32, height: u32, tiles: &[Tile]) -> Vec<u32> {
    let mut counts = vec![0u32; (width * height) as usize];
    for t in tiles {
        for y in t.y0..t.y1 {
            for x in t.x0..t.x1 {
                assert!(x < width && y < height, "{:?} leaves the image", t);
                counts[(y * width + x) as usize] += 1;
            }
        }
    }
    counts
}

#[test]
fn one_worker_gets_the_whole_image() {
    assert_eq!(partition(640, 480, 1), vec![tile(0, 0, 640, 480)]);
}

#[test]
fn an_even_split_has_equal_tiles() {
    assert_eq!(
        partition(8, 4, 2),
        vec![
            tile(0, 0, 4, 2),
            tile(4, 0, 8, 2),
            tile(0, 2, 4, 4),
            tile(4, 2, 8, 4),
        ]
    );
}

#[test]
fn the_remainder_goes_to_the_last_column_and_row() {
    assert_eq!(
        partition(10, 7, 3),
        vec![
            tile(0, 0, 3, 2),
            tile(3, 0, 6, 2),
            tile(6, 0, 10, 2),
            tile(0, 2, 3, 4),
            tile(3, 2, 6, 4),
            tile(6, 2, 10, 4),
            tile(0, 4, 3, 7),
            tile(3, 4, 6, 7),
            tile(6, 4, 10, 7),
        ]
    );
}

#[test]
fn more_workers_than_pixels_leaves_all_to_the_last() {
    let tiles = partition(2, 1, 3);
    assert_eq!(tiles.len(), 9);
    assert_eq!(tiles[8], tile(0, 0, 2, 1));
    for t in &tiles[..8] {
        assert!(t.x0 == t.x1 || t.y0 == t.y1, "{:?} is not empty", t);
    }
}

#[test]
fn an_empty_image_has_only_empty_tiles() {
    for t in partition(0, 0, 2) {
        assert_eq!(t, tile(0, 0, 0, 0));
    }
    for t in partition(5, 0, 2) {
        assert_eq!(t.y0, t.y1);
    }
}

#[test]
fn there_are_workers_squared_tiles() {
    for workers in 1..9usize {
        assert_eq!(partition(100, 50, workers).len(), workers * workers);
    }
}

#[test]
fn every_pixel_lies_in_exactly_one_tile() {
    for workers in 1..7usize {
        for width in 0..14u32 {
            for height in 0..11u32 {
                let tiles = partition(width, height, workers);
                for count in cover(width, height, &tiles) {
                    assert_eq!(count, 1, "{} x {} for {}", width, height, workers);
                }
            }
        }
    }
}

#[test]
fn a_picture_of_ordinary_size_is_covered_once() {
    for workers in [1usize, 2, 3, 4, 6, 8, 12, 16, 24] {
        let tiles = partition(512, 384, workers);
        assert!(cover(512, 384, &tiles).iter().all(|count| *count == 1));
    }
}

#[test]
fn the_largest_image_is_cut_without_overflow() {
    let tiles = partition(u32::MAX, u32::MAX, 7);
    assert_eq!(tiles[0], tile(0, 0, 613566756, 613566756));
    assert_eq!(tiles[48], tile(3681400536, 3681400536, u32::MAX, u32::MAX));
}

#[test]
fn a_tile_holds_its_pixels_and_no_others() {
    let t = tile(3, 2, 6, 4);
    assert!(t.holds(3, 2));
    assert!(t.holds(5, 3));
    assert!(!t.holds(6, 3));
    assert!(!t.holds(5, 4));
    assert!(!t.holds(2, 2));
    assert!(!t.holds(3, 1));
    assert!(!tile(4, 4, 4, 9).holds(4, 4));
}
