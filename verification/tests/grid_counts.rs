use compute_dispatch::grid::{
    group_count, Grid, GroupCounts, SURFACE_HEIGHT, SURFACE_WIDTH, WORKGROUP_SIZE,
};

#[test]
fn stock_surface_needs_240_by_135_groups() {
    let grid = Grid::new(1920, 1080, 8).expect("a workgroup of 8 is accepted");
    assert_eq!(grid.groups(), GroupCounts { x: 240, y: 135, z: 1 });
}

#[test]
fn stock_grid_matches_the_constants() {
    assert_eq!(WORKGROUP_SIZE, 8);
    assert_eq!(SURFACE_WIDTH, 1920);
    assert_eq!(SURFACE_HEIGHT, 1080);
    let grid = Grid::stock();
    assert_eq!(grid.width(), 1920);
    assert_eq!(grid.height(), 1080);
    assert_eq!(grid.workgroup(), 8);
    assert_eq!(grid.groups(), GroupCounts { x: 240, y: 135, z: 1 });
}

#[test]
fn uneven_dimensions_round_up() {
    let grid = Grid::new(1921, 1081, 8).expect("a workgroup of 8 is accepted");
    assert_eq!(grid.groups(), GroupCounts { x: 241, y: 136, z: 1 });
}

#[test]
fn group_count_is_the_ceiling() {
    assert_eq!(group_count(0, 8), 0);
    assert_eq!(group_count(1, 8), 1);
    assert_eq!(group_count(7, 8), 1);
    assert_eq!(group_count(8, 8), 1);
    assert_eq!(group_count(9, 8), 2);
    assert_eq!(group_count(16, 8), 2);
    assert_eq!(group_count(17, 8), 3);
    assert_eq!(group_count(1920, 8), 240);
    assert_eq!(group_count(1081, 8), 136);
}

#[test]
fn group_count_covers_and_is_least() {
    for workgroup in 1u32..20 {
        for extent in 0u32..200 {
            let count = group_count(extent, workgroup) as u64;
            assert!(count * workgroup as u64 >= extent as u64);
            if extent > 0 {
                assert!((count - 1) * (workgroup as u64) < extent as u64);
            } else {
                assert_eq!(count, 0);
            }
        }
    }
}

#[test]
fn group_count_does_not_overflow_at_the_limits() {
    assert_eq!(group_count(u32::MAX, 1), u32::MAX);
    assert_eq!(group_count(u32::MAX, 2), 2_147_483_648);
    assert_eq!(group_count(u32::MAX, u32::MAX), 1);
    assert_eq!(group_count(u32::MAX - 1, u32::MAX), 1);
    assert_eq!(group_count(u32::MAX, 8), 536_870_912);
}

#[test]
fn zero_workgroup_is_refused() {
    assert!(Grid::new(1920, 1080, 0).is_none());
    assert!(Grid::new(0, 0, 0).is_none());
}

#[test]
fn empty_surface_needs_no_groups() {
    let grid = Grid::new(0, 0, 8).expect("a workgroup of 8 is accepted");
    assert_eq!(grid.groups(), GroupCounts { x: 0, y: 0, z: 1 });
}

#[test]
fn grid_keeps_its_dimensions() {
    let grid = Grid::new(640, 480, 16).expect("a workgroup of 16 is accepted");
    assert_eq!(grid.width(), 640);
    assert_eq!(grid.height(), 480);
    assert_eq!(grid.workgroup(), 16);
    assert_eq!(grid.groups(), GroupCounts { x: 40, y: 30, z: 1 });
}
