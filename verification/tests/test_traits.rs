use pointrain::pc::{
    PointCloudXYZ, PointCloudXYZI, PointCloudXYZINormal, PointCloudXYZNormal, PointCloudXYZRgb,
    PointCloudXYZRgbNormal, PointXYZI, PointXYZINormal, PointXYZNormal, PointXYZRgb,
    PointXYZRgbNormal,
};
use pointrain::traits::{
    PointCloud, PointCloudWithColor, PointCloudWithIntensity, PointCloudWithNormal,
};
use pointrain::types::{Normal, Position, Rgb};

fn at(i: u32) -> Position {
    Position::new(i, i + 1, i + 2)
}

#[test]
fn containers_go_by_their_short_names() {
    let mut pc = <PointCloudXYZI as PointCloud>::with_capacity(2);
    assert!(PointCloud::is_empty(&pc));
    PointCloud::add_point(&mut pc, PointXYZI { position: at(1), intensity: 2 })
        .add_point(PointXYZI { position: at(3), intensity: 4 });
    assert_eq!(PointCloud::len(&pc), 2);
    assert_eq!(PointCloud::positions(&pc), &[at(1), at(3)]);
    assert_eq!(pc.intensities(), &[2, 4]);

    let mut pc = PointCloudXYZNormal::new();
    pc.add_point(PointXYZNormal { position: at(1), normal: Normal::new(1, 2, 3), curvature: 4 });
    assert_eq!(pc.normals(), &[Normal::new(1, 2, 3)]);
    let mut pc = PointCloudXYZRgb::new();
    pc.add_point(PointXYZRgb { position: at(1), color: Rgb::new(1, 2, 3) });
    assert_eq!(pc.colors(), &[Rgb::new(1, 2, 3)]);
    let mut pc = PointCloudXYZRgbNormal::new();
    pc.add_point(PointXYZRgbNormal {
        position: at(1),
        color: Rgb::new(1, 2, 3),
        normal: Normal::new(4, 5, 6),
        curvature: 7,
    });
    assert_eq!((pc.colors().len(), pc.normals().len(), pc.curvatures().len()), (1, 1, 1));
    let mut pc = PointCloudXYZINormal::new();
    pc.add_point(PointXYZINormal {
        position: at(1),
        intensity: 2,
        normal: Normal::new(4, 5, 6),
        curvature: 7,
    });
    assert_eq!(pc.curvatures(), &[7]);
    let mut pc = <PointCloudXYZ as PointCloud>::new();
    assert_eq!(PointCloud::len(pc.add_point(pointrain::point::Point { position: at(0) })), 1);
}
