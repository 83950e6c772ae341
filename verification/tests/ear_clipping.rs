use bevy_garage::ear_clipping::{
    corner_orientation, point_in_triangle_from_orients, triangulate_ear_clipping, EarRing, Orient,
    VertexShape,
};
use std::cmp::Ordering;

type P = (f32, f32);

fn corner_direction(p1: P, p2: P, p3: P) -> Orient {
    let v1 = (p1.0 - p2.0, p1.1 - p2.1);
    let v2 = (p3.0 - p2.0, p3.1 - p2.1);
    let cross = v1.0 * v2.1 - v1.1 * v2.0;
    corner_orientation(cross.partial_cmp(&0.0).unwrap())
}

fn is_point_in_triangle(p: P, v1: P, v2: P, v3: P) -> Option<bool> {
    point_in_triangle_from_orients(
        corner_direction(p, v1, v2),
        corner_direction(p, v2, v3),
        corner_direction(p, v3, v1),
    )
}

fn pointiness_key(x: f32) -> u32 {
    let b = (x + 0.0).to_bits();
    if b >> 31 == 1 {
        !b
    } else {
        b | 0x8000_0000
    }
}

fn normalize(v: P) -> P {
    let l = (v.0 * v.0 + v.1 * v.1).sqrt();
    (v.0 / l, v.1 / l)
}

fn shape(points: &[P], idx: usize, prev: usize, next: usize) -> Option<VertexShape> {
    let p = points[idx];
    let p1 = points[prev];
    let p3 = points[next];
    let vec1 = normalize((p1.0 - p.0, p1.1 - p.1));
    let vec3 = normalize((p3.0 - p.0, p3.1 - p.1));
    let pointiness = vec1.0 * vec3.0 + vec1.1 * vec3.1;
    if pointiness.is_nan() {
        return None;
    }
    let mut error = false;
    let is_ear = corner_direction(p1, p, p3) == Orient::Ccw
        && (0..points.len())
            .filter(|&i| i != prev && i != idx && i != next)
            .all(|i| match is_point_in_triangle(points[i], p1, p, p3) {
                Some(is) => !is,
                None => {
                    error = true;
                    true
                },
            });
    if error {
        None
    } else {
        Some(VertexShape { is_ear, pointiness: pointiness_key(pointiness) })
    }
}

fn triangulate(points: &[P]) -> Option<Vec<[u32; 3]>> {
    triangulate_ear_clipping(points.len(), |i, p, q| shape(points, i, p, q))
}

#[test]
fn corner_orientation_follows_the_cross_product_sign() {
    assert_eq!(corner_orientation(Ordering::Less), Orient::Ccw);
    assert_eq!(corner_orientation(Ordering::Equal), Orient::Collinear);
    assert_eq!(corner_orientation(Ordering::Greater), Orient::Cw);
}

#[test]
fn point_in_triangle_cases() {
    assert_eq!(point_in_triangle_from_orients(Orient::Collinear, Orient::Collinear, Orient::Collinear), None);
    assert_eq!(point_in_triangle_from_orients(Orient::Cw, Orient::Cw, Orient::Cw), Some(true));
    assert_eq!(point_in_triangle_from_orients(Orient::Ccw, Orient::Collinear, Orient::Ccw), Some(true));
    assert_eq!(point_in_triangle_from_orients(Orient::Cw, Orient::Ccw, Orient::Cw), Some(false));
    assert_eq!(point_in_triangle_from_orients(Orient::Collinear, Orient::Ccw, Orient::Cw), Some(false));
}

#[test]
fn point_in_triangle_with_geometry() {
    let a = (0.0, 0.0);
    let b = (4.0, 0.0);
    let c = (0.0, 4.0);
    assert_eq!(is_point_in_triangle((1.0, 1.0), a, b, c), Some(true));
    assert_eq!(is_point_in_triangle((5.0, 5.0), a, b, c), Some(false));
}

#[test]
fn triangle_is_its_own_triangulation() {
    let t = triangulate(&[(0.0, 0.0), (0.0, 1.0), (1.0, 0.0)]);
    assert_eq!(t, Some(vec![[2, 0, 1]]));
}

#[test]
fn square_is_cut_at_its_last_corner_first() {
    let t = triangulate(&[(0.0, 0.0), (1.0, 0.0), (1.0, 1.0), (0.0, 1.0)]);
    assert_eq!(t, Some(vec![[2, 3, 0], [2, 0, 1]]));
}

#[test]
fn concave_polygon_is_cut_into_three_triangles() {
    let t = triangulate(&[(0.0, 0.0), (2.0, 0.0), (1.0, 1.0), (2.0, 2.0), (0.0, 2.0)]);
    assert_eq!(t, Some(vec![[2, 3, 4], [2, 4, 0], [2, 0, 1]]));
}

#[test]
fn clockwise_polygon_has_no_ear() {
    assert_eq!(triangulate(&[(0.0, 0.0), (0.0, 1.0), (1.0, 1.0), (1.0, 0.0)]), None);
}

#[test]
fn failed_measurement_gives_up() {
    assert_eq!(triangulate_ear_clipping(5, |i, _, _| if i == 3 { None } else { Some(VertexShape { is_ear: true, pointiness: 0 }) }), None);
}

#[test]
fn every_corner_an_ear_cuts_the_last_sharpest() {
    // all corners equally pointed: each step cuts the last active vertex
    let t = triangulate_ear_clipping(6, |_, _, _| Some(VertexShape { is_ear: true, pointiness: 7 }));
    assert_eq!(t, Some(vec![[4, 5, 0], [3, 4, 0], [2, 3, 0], [2, 0, 1]]));
}

#[test]
fn ear_decomposition_has_n_minus_two_triangles_with_distinct_middles() {
    let points: Vec<P> = (0..12)
        .map(|k| {
            let a = (k as f32) * std::f32::consts::TAU / 12.0;
            let r = if k % 2 == 0 { 2.0 } else { 1.0 };
            (r * a.cos(), r * a.sin())
        })
        .collect();
    let t = triangulate(&points).expect("a star polygon can be triangulated");
    assert_eq!(t.len(), points.len() - 2);
    let mut middles: Vec<u32> = t.iter().map(|x| x[1]).collect();
    middles.sort();
    middles.dedup();
    assert_eq!(middles.len(), t.len());
    for tri in &t {
        assert!(tri.iter().all(|&v| (v as usize) < points.len()));
        assert!(tri[0] != tri[1] && tri[1] != tri[2] && tri[0] != tri[2]);
    }
}

#[test]
fn ring_links_and_clipping() {
    let mut ring = EarRing::new(5);
    assert_eq!(ring.prev_of(0), 4);
    assert_eq!(ring.next_of(4), 0);
    assert_eq!(ring.select_ear(), None);
    ring.set_shape(1, VertexShape { is_ear: true, pointiness: 3 });
    ring.set_shape(3, VertexShape { is_ear: true, pointiness: 9 });
    ring.set_shape(4, VertexShape { is_ear: true, pointiness: 9 });
    assert_eq!(ring.select_ear(), Some(4));
    assert_eq!(ring.clip(4), [3, 4, 0]);
    assert_eq!(ring.next_of(3), 0);
    assert_eq!(ring.prev_of(0), 3);
    assert_eq!(ring.select_ear(), Some(3));
    assert_eq!(ring.first_active(), Some(0));
    assert_eq!(ring.clip(0), [3, 0, 1]);
    assert_eq!(ring.first_active(), Some(1));
}

#[test]
fn zero_length_edge_gives_up() {
    assert_eq!(triangulate(&[(0.0, 0.0), (0.0, 0.0), (1.0, 0.0), (0.0, 1.0)]), None);
}

fn area2(a: P, b: P, c: P) -> f32 {
    (b.0 - a.0) * (c.1 - a.1) - (b.1 - a.1) * (c.0 - a.0)
}

#[test]
fn star_triangles_turn_counter_clockwise_and_cover_the_polygon() {
    let points: Vec<P> = (0..12)
        .map(|k| {
            let a = (k as f32) * std::f32::consts::TAU / 12.0;
            let r = if k % 2 == 0 { 2.0 } else { 1.0 };
            (r * a.cos(), r * a.sin())
        })
        .collect();
    let t = triangulate(&points).expect("a star polygon can be triangulated");
    let mut sum = 0.0;
    for tri in &t {
        let (a, b, c) = (points[tri[0] as usize], points[tri[1] as usize], points[tri[2] as usize]);
        assert_eq!(corner_direction(a, b, c), Orient::Ccw);
        sum += area2(a, b, c).abs();
    }
    let mut polygon = 0.0;
    for i in 0..points.len() {
        let (p, q) = (points[i], points[(i + 1) % points.len()]);
        polygon += p.0 * q.1 - q.0 * p.1;
    }
    assert!((sum - polygon).abs() < 1e-3);
}

#[test]
fn convex_hexagon_is_triangulated() {
    let points: Vec<P> = (0..6)
        .map(|k| {
            let a = (k as f32) * std::f32::consts::TAU / 6.0;
            (a.cos(), a.sin())
        })
        .collect();
    let t = triangulate(&points).expect("a convex polygon can be triangulated");
    assert_eq!(t.len(), 4);
}

#[test]
fn cut_sharpest_ear_takes_the_last_of_the_sharpest() {
    let mut ring = EarRing::new(6);
    assert_eq!(ring.cut_sharpest_ear(), None);
    ring.set_shape(1, VertexShape { is_ear: true, pointiness: 5 });
    ring.set_shape(2, VertexShape { is_ear: false, pointiness: 50 });
    ring.set_shape(3, VertexShape { is_ear: true, pointiness: 5 });
    ring.set_shape(4, VertexShape { is_ear: true, pointiness: 2 });
    assert_eq!(ring.cut_sharpest_ear(), Some([2, 3, 4]));
    assert_eq!(ring.next_of(2), 4);
    assert_eq!(ring.prev_of(4), 2);
    assert_eq!(ring.cut_sharpest_ear(), Some([0, 1, 2]));
    assert_eq!(ring.cut_sharpest_ear(), Some([2, 4, 5]));
}

#[test]
fn a_corner_that_is_no_ear_is_never_cut() {
    // vertex 2 measures as the sharpest corner but never as an ear
    let t = triangulate_ear_clipping(5, |i, _, _| Some(VertexShape { is_ear: i != 2, pointiness: if i == 2 { 99 } else { i as u32 } }))
        .expect("ears remain");
    for tri in &t[..2] {
        assert_ne!(tri[1], 2);
    }
}

#[test]
fn measurement_failing_after_a_cut_gives_up() {
    // the corner at 0 fails once it is measured between 3 and 1
    let t = triangulate_ear_clipping(5, |i, p, _| {
        if i == 0 && p == 3 { None } else { Some(VertexShape { is_ear: true, pointiness: 1 }) }
    });
    assert_eq!(t, None);
}

#[test]
fn one_vertex_gives_up() {
    assert_eq!(triangulate_ear_clipping(1, |_, _, _| None), None);
    // a single point: the corner's two edges have no length
    assert_eq!(triangulate(&[(1.0, 1.0)]), None);
}

#[test]
fn two_vertices_with_a_failing_corner_give_up() {
    let t = triangulate_ear_clipping(2, |i, p, q| {
        assert!(p == 1 - i && q == 1 - i);
        if i == 1 { None } else { Some(VertexShape { is_ear: false, pointiness: 0 }) }
    });
    assert_eq!(t, None);
}
