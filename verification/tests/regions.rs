use sentinel::regions::{detect_changed_regions, grid_fits, merge_regions, regions_adjacent};

#[test]
fn detect_changed_regions_empty_for_no_change() {
    let mask = vec![false; 64 * 64];
    let regions = detect_changed_regions(&mask, 64, 64);
    assert!(regions.is_empty());
}

#[test]
fn detect_changed_regions_finds_changes() {
    let mask = vec![true; 64 * 64];
    let regions = detect_changed_regions(&mask, 64, 64);
    assert!(!regions.is_empty());
}

#[test]
fn detect_changed_regions_zero_dimensions() {
    let regions = detect_changed_regions(&[], 0, 0);
    assert!(regions.is_empty());
}

#[test]
fn regions_adjacent_touching() {
    assert!(regions_adjacent([0, 0, 10, 10], [10, 0, 10, 10]));
    assert!(regions_adjacent([0, 0, 10, 10], [0, 10, 10, 10]));
}

#[test]
fn regions_adjacent_separated() {
    assert!(!regions_adjacent([0, 0, 5, 5], [20, 20, 5, 5]));
}

#[test]
fn full_change_merges_into_one_region() {
    let mask = vec![true; 64 * 64];
    let regions = detect_changed_regions(&mask, 64, 64);
    assert_eq!(regions, vec![[0, 0, 64, 64]]);
}

#[test]
fn single_changed_cell_is_reported() {
    let mut mask = vec![false; 64 * 64];
    // Cell (1, 2) spans x 8..16, y 16..24; change 10 of its 64 pixels.
    for i in 0..10u32 {
        let x = 8 + i % 8;
        let y = 16 + i / 8;
        mask[(y * 64 + x) as usize] = true;
    }
    let regions = detect_changed_regions(&mask, 64, 64);
    assert_eq!(regions, vec![[8, 16, 8, 8]]);
}

#[test]
fn cell_at_ten_percent_is_not_reported() {
    let mut mask = vec![false; 80 * 80];
    // Cells are 10x10; exactly 10 of 100 pixels changed is not above 10%.
    for x in 0..10usize {
        mask[x] = true;
    }
    let regions = detect_changed_regions(&mask, 80, 80);
    assert!(regions.is_empty());
}

#[test]
fn short_mask_counts_missing_pixels_as_unchanged() {
    // Only the first row is covered: 8 of 64 pixels in each top cell.
    let mask = vec![true; 64];
    let regions = detect_changed_regions(&mask, 64, 64);
    assert_eq!(regions, vec![[0, 0, 64, 8]]);
}

#[test]
fn merge_joins_touching_regions() {
    let mut regions = vec![[0, 0, 10, 10], [10, 0, 10, 10], [50, 50, 5, 5]];
    merge_regions(&mut regions);
    assert_eq!(regions.len(), 2);
    assert!(regions.contains(&[0, 0, 20, 10]));
    assert!(regions.contains(&[50, 50, 5, 5]));
}

#[test]
fn merge_keeps_single_region() {
    let mut regions = vec![[3, 4, 5, 6]];
    merge_regions(&mut regions);
    assert_eq!(regions, vec![[3, 4, 5, 6]]);
}

#[test]
fn grid_is_defined_for_ordinary_sizes() {
    assert!(grid_fits(64, 64));
    assert!(grid_fits(0, 3));
    assert!(grid_fits(1920, 1080));
    assert!(grid_fits(5, 64));
    assert!(!grid_fits(70_000, 70_000));
}

#[test]
fn detected_regions_stay_inside_the_image() {
    let (width, height) = (20u32, 13u32);
    let mut mask = vec![false; (width * height) as usize];
    for y in 0..height {
        for x in 0..10 {
            mask[(y * width + x) as usize] = true;
        }
    }
    let regions = detect_changed_regions(&mask, width, height);
    assert!(regions.len() <= 64);
    for r in &regions {
        assert!(r[2] > 0 && r[3] > 0);
        assert!(r[0] + r[2] <= width && r[1] + r[3] <= height);
    }
    for i in 0..regions.len() {
        for j in (i + 1)..regions.len() {
            assert!(!regions_adjacent(regions[i], regions[j]));
        }
    }
    assert_eq!(regions, vec![[0, 0, 10, 8]]);
}

#[test]
fn detect_changed_regions_on_a_small_image() {
    let mask = vec![true; 5 * 3];
    let regions = detect_changed_regions(&mask, 5, 3);
    assert_eq!(regions, vec![[0, 0, 5, 3]]);
}
