use ripdoc::bbox::BBox;
use ripdoc::cluster::{cluster_values, find_grid_lines};
use ripdoc::edges::{snap_edges, merge_edges, find_intersections, Edge};
use ripdoc::matrix::Matrix;

#[test]
fn test_identity() {
    let m = Matrix::identity();
    let (x, y) = m.transform_point(10_000, 20_000);
    assert_eq!(x, 10_000);
    assert_eq!(y, 20_000);
}

#[test]
fn test_translate() {
    let m = Matrix::translate(5_000, 10_000);
    let (x, y) = m.transform_point(1_000, 2_000);
    assert_eq!(x, 6_000);
    assert_eq!(y, 12_000);
}

#[test]
fn test_multiply() {
    // Scale first, then translate: (1, 1) -> (2, 3) -> (12, 23).
    let a = Matrix::scale(2_000, 3_000);
    let b = Matrix::translate(10_000, 20_000);
    let c = a.multiply(&b);
    let (x, y) = c.transform_point(1_000, 1_000);
    assert_eq!(x, 12_000);
    assert_eq!(y, 23_000);
}

#[test]
fn test_matrix_composition_laws() {
    let m = Matrix { a: 2_500, b: 0, c: 0, d: 1_500, e: 7_000, f: -3_000 };
    assert_eq!(Matrix::identity().multiply(&m), m);
    assert_eq!(m.multiply(&Matrix::identity()), m);
    let t1 = Matrix::translate(5_000, -2_000);
    let t2 = Matrix::translate(1_000, 9_000);
    assert_eq!(t1.multiply(&t2), Matrix::translate(6_000, 7_000));
}

#[test]
fn test_bbox_basic() {
    let bbox = BBox::new(10_000, 20_000, 100_000, 80_000);
    assert_eq!(bbox.width(), 90_000);
    assert_eq!(bbox.height(), 60_000);
    assert!(bbox.contains_point(50_000, 50_000));
    assert!(!bbox.contains_point(5_000, 50_000));
}

#[test]
fn test_bbox_intersection() {
    let a = BBox::new(0, 0, 100_000, 100_000);
    let b = BBox::new(50_000, 50_000, 150_000, 150_000);
    let inter = a.intersection(&b).unwrap();
    assert_eq!(inter, BBox::new(50_000, 50_000, 100_000, 100_000));
}

#[test]
fn test_pdf_coord_conversion() {
    let bbox = BBox::from_pdf_coords(72_000, 700_000, 200_000, 750_000, 792_000);
    assert_eq!(bbox.top, 42_000);
    assert_eq!(bbox.bottom, 92_000);
}

#[test]
fn test_cluster_values() {
    let vals = vec![1_000, 1_500, 2_000, 10_000, 10_500, 11_000, 20_000];
    let clusters = cluster_values(&vals, 1_500);
    assert_eq!(clusters.len(), 3);
}

#[test]
fn test_cluster_zero_tolerance() {
    // With tolerance zero, distinct values never share a cluster.
    let vals = vec![1_000, 1_001, 1_001, 1_002];
    let clusters = cluster_values(&vals, 0);
    assert_eq!(clusters.len(), 3);
    for cluster in &clusters {
        let v0 = vals[cluster[0]];
        for &i in cluster {
            assert_eq!(vals[i], v0);
        }
    }
}

#[test]
fn test_find_grid_lines() {
    let positions = vec![10_000, 10_100, 10_200, 50_000, 50_100, 90_000, 90_200];
    let lines = find_grid_lines(&positions, 1_000);
    assert_eq!(lines.len(), 3);
}

#[test]
fn test_edge_creation() {
    let h = Edge::horizontal(10_000, 100_000, 50_000, 1_000);
    assert!(h.is_horizontal());
    assert_eq!(h.length(), 90_000);

    let v = Edge::vertical(50_000, 10_000, 100_000, 1_000);
    assert!(v.is_vertical());
    assert_eq!(v.length(), 90_000);
}

#[test]
fn test_find_intersections() {
    let edges = vec![
        Edge::horizontal(0, 100_000, 50_000, 1_000),
        Edge::vertical(50_000, 0, 100_000, 1_000),
    ];
    let pts = find_intersections(&edges, 3_000, 3_000);
    assert_eq!(pts.len(), 1);
    assert_eq!(pts[0], (50_000, 50_000));
}

#[test]
fn test_merge_edges() {
    let edges = vec![
        Edge::horizontal(0, 50_000, 10_000, 1_000),
        Edge::horizontal(48_000, 100_000, 10_000, 1_000),
    ];
    let merged = merge_edges(&edges, 3_000);
    assert_eq!(merged.len(), 1);
    assert_eq!(merged[0].x0, 0);
    assert_eq!(merged[0].x1, 100_000);
}

#[test]
fn test_snap_idempotent() {
    // Snapping an already snapped edge set changes nothing.
    let edges = vec![
        Edge::horizontal(0, 50_000, 10_000, 1_000),
        Edge::horizontal(10_000, 80_000, 11_000, 1_000),
        Edge::horizontal(0, 50_000, 30_000, 1_000),
        Edge::vertical(5_000, 0, 90_000, 1_000),
        Edge::vertical(6_500, 0, 90_000, 1_000),
    ];
    let once = snap_edges(&edges, 3_000, 3_000);
    let twice = snap_edges(&once, 3_000, 3_000);
    let mut a = once.clone();
    let mut b = twice.clone();
    let key = |e: &Edge| (e.x0, e.top, e.x1, e.bottom, e.width);
    a.sort_by_key(key);
    b.sort_by_key(key);
    assert_eq!(a, b);
}
