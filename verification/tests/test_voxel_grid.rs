use pointrain::filter::utility::is_finite;
use pointrain::filter::VoxelGrid;
use pointrain::pc::{
    PointCloud, PointCloudBase, PointCloudIntensityNormal, PointCloudWithIntensity,
    PointCloudWithNormal,
};
use pointrain::point::{Point, PointIntensityNormal};
use pointrain::types::{Normal, Position};

fn position(x: f32, y: f32, z: f32) -> Position {
    Position::new(x.to_bits(), y.to_bits(), z.to_bits())
}

fn leaf(grid: &VoxelGrid) -> (f32, f32, f32) {
    (
        f32::from_bits(grid.leaf_size.0),
        f32::from_bits(grid.leaf_size.1),
        f32::from_bits(grid.leaf_size.2),
    )
}

fn filter<PC: PointCloudBase>(grid: &VoxelGrid, pc: &PC) -> PC {
    let (lx, ly, lz) = leaf(grid);
    let inv = (1. / lx, 1. / ly, 1. / lz);
    let keys: Vec<(i32, i32, i32)> = pc
        .positions()
        .iter()
        .map(|p| {
            (
                (f32::from_bits(p.x) * inv.0).floor() as i32,
                (f32::from_bits(p.y) * inv.1).floor() as i32,
                (f32::from_bits(p.z) * inv.2).floor() as i32,
            )
        })
        .collect();
    let cells = grid.cells(pc, &keys);
    let centroids: Vec<Position> = cells
        .iter()
        .map(|cell| {
            let mut sum = (0f32, 0f32, 0f32);
            for &i in cell {
                let p = pc.positions()[i];
                sum.0 += f32::from_bits(p.x);
                sum.1 += f32::from_bits(p.y);
                sum.2 += f32::from_bits(p.z);
            }
            let n = cell.len() as f32;
            position(sum.0 / n, sum.1 / n, sum.2 / n)
        })
        .collect();
    grid.filter(&cells, &centroids)
}

fn four_points() -> PointCloud {
    PointCloud::from_iter(vec![
        Point { position: position(0.4, 0.1, 0.8) },
        Point { position: position(0.1, 0.1, 0.7) },
        Point { position: position(0.2, 0.2, 0.1) },
        Point { position: position(0.3, 0.5, 0.2) },
    ])
}

fn close(a: u32, b: f32) -> bool {
    (f32::from_bits(a) - b).abs() <= f32::EPSILON * b.abs()
}

#[test]
fn test_voxel_grid() {
    let voxel_grid = VoxelGrid::new();

    let pc = four_points();
    let filterd = filter(&voxel_grid, &pc);

    assert_eq!(filterd.len(), 1);
    let p = filterd.positions()[0];
    assert!(close(p.x, 1. / 4.));
    assert!(close(p.y, 0.9 / 4.));
    assert!(close(p.z, 1.8 / 4.));
    assert!(close(p.x, 0.25) && close(p.y, 0.225) && close(p.z, 0.45));
}

#[test]
fn test_voxel_grid_minimum() {
    let mut voxel_grid = VoxelGrid {
        min_poins_per_voxel: 5,
        ..Default::default()
    };

    let pc = four_points();

    assert_eq!(filter(&voxel_grid, &pc).len(), 0);

    voxel_grid.min_poins_per_voxel = 4;

    assert_eq!(filter(&voxel_grid, &pc).len(), 1);
}

#[test]
fn test_voxel_grid_invalid_points() {
    let voxel_grid = VoxelGrid::new();

    let pc = PointCloud::from_iter(vec![
        Point { position: position(f32::INFINITY, 100., 100.) },
        Point { position: position(f32::NEG_INFINITY, 100., 100.) },
        Point { position: position(100., f32::NAN, 100.) },
        Point { position: position(100., 100., f32::NAN) },
    ]);
    let filterd = filter(&voxel_grid, &pc);

    assert_eq!(filterd.len(), 0);
}

#[test]
fn voxel_grid_default_is_a_unit_grid() {
    let grid = VoxelGrid::default();
    assert_eq!(leaf(&grid), (1., 1., 1.));
    assert_eq!(grid.min_poins_per_voxel, 1);
    let grid = VoxelGrid::new();
    assert_eq!(leaf(&grid), (1., 1., 1.));
    assert_eq!(grid.min_poins_per_voxel, 1);
}

#[test]
fn finite_positions_are_told_apart() {
    assert!(is_finite(&position(0., -1.5, f32::MAX)));
    assert!(is_finite(&position(f32::MIN_POSITIVE / 2., -0., 1e-40)));
    assert!(!is_finite(&position(f32::INFINITY, 0., 0.)));
    assert!(!is_finite(&position(0., f32::NEG_INFINITY, 0.)));
    assert!(!is_finite(&position(0., 0., f32::NAN)));
    assert!(!is_finite(&position(0., 0., -f32::NAN)));
}

#[test]
fn cells_come_in_the_order_of_their_boxes() {
    let keys = vec![(1, 0, 0), (0, 0, 5), (0, 0, -5), (1, 0, 0), (-1, 9, 9), (0, 0, 5), (0, 0, 5)];
    let pc = PointCloud::from_iter(
        keys.iter().map(|_| Point { position: position(0., 0., 0.) }).collect(),
    );
    let grid = VoxelGrid::new();
    assert_eq!(
        grid.cells(&pc, &keys),
        vec![vec![4], vec![2], vec![1, 5, 6], vec![0, 3]]
    );
    let grid = VoxelGrid { min_poins_per_voxel: 2, ..Default::default() };
    assert_eq!(grid.cells(&pc, &keys), vec![vec![1, 5, 6], vec![0, 3]]);
    let grid = VoxelGrid { min_poins_per_voxel: 3, ..Default::default() };
    assert_eq!(grid.cells(&pc, &keys), vec![vec![1, 5, 6]]);
    let grid = VoxelGrid { min_poins_per_voxel: 4, ..Default::default() };
    assert_eq!(grid.cells(&pc, &keys), Vec::<Vec<usize>>::new());
    let grid = VoxelGrid { min_poins_per_voxel: 0, ..Default::default() };
    assert_eq!(grid.cells(&pc, &keys).len(), 4);
}

#[test]
fn points_that_are_no_numbers_are_left_out_of_their_box() {
    let pc = PointCloud::from_iter(vec![
        Point { position: position(0.5, 0.5, 0.5) },
        Point { position: position(f32::NAN, 0.5, 0.5) },
        Point { position: position(0.25, 0.5, 0.5) },
        Point { position: position(0.5, f32::INFINITY, 0.5) },
    ]);
    let keys = vec![(0, 0, 0); 4];
    let grid = VoxelGrid::new();
    assert_eq!(grid.cells(&pc, &keys), vec![vec![0, 2]]);
    let grid = VoxelGrid { min_poins_per_voxel: 3, ..Default::default() };
    assert!(grid.cells(&pc, &keys).is_empty());
    let filtered = filter(&VoxelGrid::new(), &pc);
    assert_eq!(filtered.len(), 1);
    assert_eq!(filtered.positions()[0], position(0.375, 0.5, 0.5));
}

#[test]
fn filtered_points_have_zero_attributes() {
    let mut pc = PointCloudIntensityNormal::new();
    for i in 0..6 {
        pc.push(PointIntensityNormal {
            position: position(i as f32 * 0.5, -0.25, 2.),
            intensity: 9f32.to_bits(),
            normal: Normal::new(1f32.to_bits(), 0, 0),
            curvature: 3f32.to_bits(),
        });
    }
    let grid = VoxelGrid { leaf_size: (1f32.to_bits(), 1f32.to_bits(), 1f32.to_bits()), min_poins_per_voxel: 2 };
    let out = filter(&grid, &pc);
    assert_eq!(out.len(), 3);
    assert_eq!(out.positions()[0], position(0.25, -0.25, 2.));
    assert_eq!(out.positions()[1], position(1.25, -0.25, 2.));
    assert_eq!(out.positions()[2], position(2.25, -0.25, 2.));
    assert_eq!(out.intensities(), &[0, 0, 0]);
    assert_eq!(out.curvatures(), &[0, 0, 0]);
    assert_eq!(out.normals()[1], Normal::new(0, 0, 0));
    let wide = VoxelGrid { leaf_size: (2f32.to_bits(), 1f32.to_bits(), 4f32.to_bits()), min_poins_per_voxel: 1 };
    let out = filter(&wide, &pc);
    assert_eq!(out.len(), 2);
    assert_eq!(out.positions()[0], position(0.75, -0.25, 2.));
    assert_eq!(out.positions()[1], position(2.25, -0.25, 2.));
}

#[test]
fn points_that_are_no_numbers_change_no_cell() {
    let grid = VoxelGrid { min_poins_per_voxel: 2, ..Default::default() };
    let all = vec![
        position(0.5, 0.5, 0.5),
        position(f32::NAN, 0.5, 0.5),
        position(1.5, 0.5, 0.5),
        position(0.25, f32::INFINITY, 0.5),
        position(0.25, 0.75, 0.5),
        position(1.25, 0.5, f32::NEG_INFINITY),
        position(-3., 0., 0.),
        position(1.75, 0.25, 0.75),
    ];
    let whole = PointCloud::from_iter(all.iter().map(|p| Point { position: *p }).collect());
    let part = PointCloud::from_iter(
        all.iter().filter(|p| is_finite(p)).map(|p| Point { position: *p }).collect(),
    );
    assert_eq!(part.len(), 5);
    let a = filter(&grid, &whole);
    let b = filter(&grid, &part);
    assert_eq!(a.len(), 2);
    assert_eq!(a.positions(), b.positions());
    assert_eq!(a.positions()[0], position(0.375, 0.625, 0.5));
    assert_eq!(a.positions()[1], position(1.625, 0.375, 0.625));
}
