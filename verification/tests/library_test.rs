use d3_delaunay_rs::delaunay::Delaunay;
use d3_delaunay_rs::scalar::{Coord, Op, NAN};
use d3_delaunay_rs::clip::{prune, MAX_CUTS};
use d3_delaunay_rs::colinear::{colinear, cross_of, Tri};
use d3_delaunay_rs::context::{replay, CanvasRenderingContext2d, Command};
use d3_delaunay_rs::delaunay::{extremes, jitter_all, needs_jitter};
use d3_delaunay_rs::walk::RingEnd;
use d3_delaunay_rs::jitter::jitter;
use d3_delaunay_rs::polygon::{outline_of, Polygon};
use d3_delaunay_rs::voronoi_render::polygon_path;
use d3_delaunay_rs::scalar::{distance2, is_le, is_lt, is_same, is_same_coord, minus, over, plus, run, times, whole};
use d3_delaunay_rs::delaunay::triangulation_of;
use d3_delaunay_rs::triangulation::{is_tame_bits, next_edge, Triangulation, EMPTY};
use d3_delaunay_rs::voronoi::{circumcenter_of, InvalidBounds};
use d3_delaunay_rs::path::Path;
use d3_delaunay_rs::voronoi::Voronoi;

fn enc(f: f64) -> i64 {
    if f.is_nan() {
        NAN
    } else if f == 0.0 {
        0
    } else {
        let b = f.to_bits() as i64;
        if b < 0 {
            b ^ i64::MAX
        } else {
            b
        }
    }
}

fn dec(c: i64) -> f64 {
    if c == NAN {
        f64::NAN
    } else if c < 0 {
        f64::from_bits((c ^ i64::MAX) as u64)
    } else {
        f64::from_bits(c as u64)
    }
}

fn kernel(op: Op) -> i64 {
    enc(match op {
        Op::Int(n) => n as f64,
        Op::Pi => std::f64::consts::PI,
        Op::Add(a, b) => dec(a) + dec(b),
        Op::Sub(a, b) => dec(a) - dec(b),
        Op::Mul(a, b) => dec(a) * dec(b),
        Op::Div(a, b) => dec(a) / dec(b),
        Op::Sin(a) => dec(a).sin(),
        Op::Cos(a) => dec(a).cos(),
        Op::Hypot(a, b) => dec(a).hypot(dec(b)),
    })
}

fn to_raw(c: Coord) -> delaunator::Point {
    delaunator::Point { x: dec(c.x), y: dec(c.y) }
}

fn fmt(x: i64) -> String {
    format!("{}", dec(x))
}

fn pt(x: f64, y: f64) -> Coord {
    Coord { x: enc(x), y: enc(y) }
}

fn delaunay(points: &[(f64, f64)]) -> Delaunay {
    let coords: Vec<Coord> = points.iter().map(|p| pt(p.0, p.1)).collect();
    Delaunay::new(&coords, &kernel, &to_raw)
}

fn voronoi(points: &[(f64, f64)], bounds: Option<(f64, f64, f64, f64)>) -> Voronoi {
    let b = bounds.map(|b| (enc(b.0), enc(b.1), enc(b.2), enc(b.3)));
    match delaunay(points).voronoi(b, &kernel) {
        Ok(v) => v,
        Err(_) => panic!("Invalid bounds"),
    }
}

fn floats(points: &[Coord]) -> Vec<(f64, f64)> {
    points.iter().map(|p| (dec(p.x), dec(p.y))).collect()
}


fn coords(points: &[(f64, f64)]) -> Vec<Coord> {
    points.iter().map(|p| pt(p.0, p.1)).collect()
}

fn square() -> Triangulation {
    Triangulation {
        triangles: vec![0, 2, 1, 2, 3, 1],
        halfedges: vec![EMPTY, 5, EMPTY, EMPTY, EMPTY, 1],
        hull: vec![2, 3, 1, 0],
    }
}

const SQUARE: [(f64, f64); 4] = [(0., 0.), (1., 0.), (0., 1.), (1., 1.)];

#[test]
fn codes_keep_the_order_of_numbers() {
    let values = [f64::NEG_INFINITY, -2.5, -1e-300, 0.0, 1e-300, 0.5, 960.0, f64::INFINITY];
    for w in values.windows(2) {
        assert!(enc(w[0]) < enc(w[1]));
        assert!(is_lt(enc(w[0]), enc(w[1])));
        assert!(is_le(enc(w[0]), enc(w[1])));
        assert!(!is_lt(enc(w[1]), enc(w[0])));
    }
    for v in values {
        assert_eq!(dec(enc(v)), v);
        assert!(is_same(enc(v), enc(v)));
        assert!(is_le(enc(v), enc(v)));
    }
    assert_eq!(enc(-0.0), enc(0.0));
}

#[test]
fn not_a_number_compares_with_nothing() {
    assert!(!is_lt(NAN, enc(1.)));
    assert!(!is_lt(enc(1.), NAN));
    assert!(!is_le(NAN, NAN));
    assert!(!is_same(NAN, NAN));
    assert!(!is_same_coord(&Coord { x: NAN, y: 0 }, &Coord { x: NAN, y: 0 }));
    assert!(is_same_coord(&pt(1., 2.), &pt(1., 2.)));
    assert!(!is_same_coord(&pt(1., 2.), &pt(1., 3.)));
}

#[test]
fn kernel_requests_give_the_results_of_the_kernel() {
    assert_eq!(dec(whole(&kernel, 960)), 960.);
    assert_eq!(dec(plus(&kernel, enc(1.5), enc(2.))), 3.5);
    assert_eq!(dec(minus(&kernel, enc(1.5), enc(2.))), -0.5);
    assert_eq!(dec(times(&kernel, enc(1.5), enc(2.))), 3.);
    assert_eq!(dec(over(&kernel, enc(1.), enc(4.))), 0.25);
    assert_eq!(dec(run(&kernel, Op::Hypot(enc(3.), enc(4.)))), 5.);
    assert_eq!(dec(distance2(&kernel, &pt(0., 0.), &pt(3., 4.))), 25.);
}

#[test]
fn next_edge_goes_round_the_triangle() {
    assert_eq!(next_edge(0), 1);
    assert_eq!(next_edge(1), 2);
    assert_eq!(next_edge(2), 0);
    assert_eq!(next_edge(5), 3);
}

#[test]
fn is_valid_accepts_a_triangulation() {
    assert!(square().is_valid(4));
    let none = Triangulation { triangles: vec![], halfedges: vec![], hull: vec![0, 1] };
    assert!(none.is_valid(2));
}

#[test]
fn is_valid_refuses_broken_arrays() {
    assert!(!square().is_valid(3));
    let mut t = square();
    t.halfedges[1] = 4;
    assert!(!t.is_valid(4));
    let mut t = square();
    t.halfedges[1] = 9;
    assert!(!t.is_valid(4));
    let mut t = square();
    t.hull = vec![0, 1];
    assert!(!t.is_valid(4));
    let mut t = square();
    t.hull = vec![0, 1, 7];
    assert!(!t.is_valid(4));
    let mut t = square();
    t.triangles.pop();
    assert!(!t.is_valid(4));
    let t = Triangulation { triangles: vec![0, 1], halfedges: vec![EMPTY, EMPTY], hull: vec![0, 1, 2] };
    assert!(!t.is_valid(4));
}

#[test]
fn from_triangulation_indexes_the_square() {
    let d = Delaunay::from_triangulation(coords(&SQUARE), square());
    assert_eq!(d.triangles, vec![0, 2, 1, 2, 3, 1]);
    assert_eq!(d.half_edges, vec![EMPTY, 5, EMPTY, EMPTY, EMPTY, 1]);
    assert_eq!(d.hull, vec![2, 3, 1, 0]);
    assert_eq!(d.inedges, vec![2, 4, 0, 3]);
    assert_eq!(d.hull_index, vec![3, 2, 0, 1]);
}

#[test]
fn from_triangulation_gives_stub_triangles_to_a_small_hull() {
    let one = Triangulation { triangles: vec![], halfedges: vec![], hull: vec![1] };
    let d = Delaunay::from_triangulation(coords(&[(0., 0.), (0., 0.)]), one);
    assert_eq!(d.triangles, vec![1, EMPTY, EMPTY]);
    assert_eq!(d.half_edges, vec![EMPTY, EMPTY, EMPTY]);
    assert_eq!(d.inedges, vec![EMPTY, 1]);
    assert_eq!(d.hull_index, vec![EMPTY, 0]);
    let two = Triangulation { triangles: vec![], halfedges: vec![], hull: vec![2, 0] };
    let d = Delaunay::from_triangulation(coords(&[(0., 0.), (0., 0.), (1., 0.)]), two);
    assert_eq!(d.triangles, vec![2, 0, 0]);
    assert_eq!(d.inedges, vec![0, EMPTY, 1]);
    assert_eq!(d.hull_index, vec![1, EMPTY, 0]);
    let none = Triangulation { triangles: vec![], halfedges: vec![], hull: vec![] };
    let d = Delaunay::from_triangulation(coords(&[]), none);
    assert!(d.triangles.is_empty());
    assert!(d.inedges.is_empty());
}

#[test]
fn every_twin_has_its_half_edge_for_twin() {
    let points: Vec<(f64, f64)> = (0..40).map(|i| (((i * 37) % 101) as f64, ((i * 53) % 89) as f64)).collect();
    let d = delaunay(&points);
    assert!(d.triangles.len() > 0);
    assert_eq!(d.triangles.len(), d.half_edges.len());
    assert_eq!(d.triangles.len() % 3, 0);
    for e in 0..d.half_edges.len() {
        let t = d.half_edges[e];
        if t != EMPTY {
            assert_eq!(d.half_edges[t], e);
        }
    }
}

#[test]
fn jittered_points_are_not_jittered_again() {
    let points = [(0., 0.), (1., 1.), (2., 2.), (3., 3.)];
    let d = delaunay(&points);
    assert_ne!(floats(&d.points), points.to_vec());
    assert!(d.triangles.len() >= 3);
    let again = Delaunay::new(&d.points, &kernel, &to_raw);
    assert_eq!(again.points, d.points);
    assert_eq!(again.triangles, d.triangles);
}

#[test]
fn points_off_a_line_are_kept_as_they_are() {
    let d = delaunay(&SQUARE);
    assert_eq!(floats(&d.points), SQUARE.to_vec());
}

#[test]
fn find_gives_the_nearest_point() {
    let points: Vec<(f64, f64)> = (0..60).map(|i| (((i * 37) % 101) as f64, ((i * 53) % 89) as f64)).collect();
    let d = delaunay(&points);
    for qx in 0..12 {
        for qy in 0..12 {
            let q = (qx as f64 * 9.3 - 4.1, qy as f64 * 8.1 - 3.7);
            let mut best = 0;
            for (i, p) in points.iter().enumerate() {
                let di = (p.0 - q.0).powi(2) + (p.1 - q.1).powi(2);
                let db = (points[best].0 - q.0).powi(2) + (points[best].1 - q.1).powi(2);
                if di < db {
                    best = i;
                }
            }
            for start in [None, Some(0), Some(17), Some(59)] {
                let c = d.find(&pt(q.0, q.1), start, &kernel);
                assert_eq!(d.step(c, &pt(q.0, q.1), &kernel), c);
                assert_eq!(points[c], points[best]);
            }
        }
    }
}

#[test]
fn step_leaves_an_unused_point_for_the_next_of_the_first_half() {
    let d = delaunay(&[(0., 0.), (1., 0.), (0., 1.), (1., 0.)]);
    assert_eq!(d.inedges[3], EMPTY);
    assert_eq!(d.step(3, &pt(1., 0.), &kernel), 0);
}

#[test]
fn step_goes_to_the_nearest_neighbour() {
    let d = delaunay(&[(0., 0.), (300., 0.), (0., 300.), (300., 300.), (100., 100.)]);
    assert_eq!(d.step(0, &pt(51., 51.), &kernel), 4);
    assert_eq!(d.step(4, &pt(51., 51.), &kernel), 4);
    assert_eq!(d.step(0, &pt(49., 49.), &kernel), 0);
}

#[test]
fn walk_goes_round_a_point() {
    let d = delaunay(&SQUARE);
    let (ring, end) = d.walk(0);
    assert_eq!(ring, vec![2]);
    assert_eq!(end, RingEnd::Hull);
    let (ring, end) = d.walk(1);
    assert_eq!(ring, vec![4, 1]);
    assert_eq!(end, RingEnd::Hull);
    let d = delaunay(&[(25., 25.), (25., 75.), (75., 75.), (75., 25.), (50., 50.)]);
    let (ring, end) = d.walk(4);
    assert_eq!(ring.len(), 4);
    assert_eq!(end, RingEnd::Closed);
    for e in ring {
        assert_eq!(d.triangles[next_edge(e)], 4);
    }
    let d = delaunay(&[(0., 0.), (1., 0.), (0., 1.), (1., 0.)]);
    let (ring, end) = d.walk(3);
    assert!(ring.is_empty());
    assert_eq!(end, RingEnd::Broken);
    let d = delaunay(&[(0., 0.), (1., 0.)]);
    let (ring, end) = d.walk(0);
    assert_eq!(ring, vec![1]);
    assert_eq!(end, RingEnd::Broken);
}

#[test]
fn cross_of_is_twice_the_signed_area() {
    assert_eq!(dec(cross_of(&kernel, &pt(0., 0.), &pt(1., 0.), &pt(0., 1.))), -1.);
    assert_eq!(dec(cross_of(&kernel, &pt(0., 0.), &pt(0., 1.), &pt(1., 0.))), 1.);
    assert_eq!(dec(cross_of(&kernel, &pt(0., 0.), &pt(1., 1.), &pt(2., 2.))), 0.);
}

#[test]
fn colinear_looks_for_a_triangle_with_an_area() {
    assert_eq!(colinear(&coords(&SQUARE), &square(), &kernel), Tri::NotCollinear);
    let flat = Triangulation { triangles: vec![0, 1, 2], halfedges: vec![EMPTY, EMPTY, EMPTY], hull: vec![0, 1, 2] };
    assert_eq!(colinear(&coords(&[(0., 0.), (1., 1.), (2., 2.)]), &flat, &kernel), Tri::Collinear);
    let thin = coords(&[(0., 0.), (1., 0.), (0., 1e-11)]);
    let turned = Triangulation { triangles: vec![0, 2, 1], halfedges: vec![EMPTY, EMPTY, EMPTY], hull: vec![0, 2, 1] };
    assert_eq!(colinear(&thin, &turned, &kernel), Tri::Collinear);
    let none = Triangulation { triangles: vec![], halfedges: vec![], hull: vec![0, 1, 2] };
    assert_eq!(colinear(&coords(&SQUARE), &none, &kernel), Tri::Collinear);
    let thicker = coords(&[(0., 0.), (1., 0.), (0., 1e-9)]);
    let turned = Triangulation { triangles: vec![0, 2, 1], halfedges: vec![EMPTY, EMPTY, EMPTY], hull: vec![0, 2, 1] };
    assert_eq!(colinear(&thicker, &turned, &kernel), Tri::NotCollinear);
}

#[test]
fn needs_jitter_asks_for_a_hull_of_three() {
    let line = coords(&[(0., 0.), (1., 1.), (2., 2.)]);
    let three = Triangulation { triangles: vec![], halfedges: vec![], hull: vec![0, 1, 2] };
    assert!(needs_jitter(&line, &three, &kernel));
    let two = Triangulation { triangles: vec![], halfedges: vec![], hull: vec![0, 1] };
    assert!(!needs_jitter(&line, &two, &kernel));
    assert!(!needs_jitter(&coords(&SQUARE), &square(), &kernel));
}

#[test]
fn extremes_are_the_first_and_last_by_x_and_y() {
    let (e, f) = extremes(&coords(&[(1., 5.), (0., 7.), (1., 2.), (0., 3.), (-1., 9.), (-1., 8.)]));
    assert_eq!((dec(e.x), dec(e.y)), (-1., 8.));
    assert_eq!((dec(f.x), dec(f.y)), (1., 5.));
}

#[test]
fn jitter_moves_a_point_by_sine_and_cosine() {
    let q = jitter(&pt(1., 2.), enc(0.5), &kernel);
    assert_eq!(dec(q.x), 1. + (3f64).sin() * 0.5);
    assert_eq!(dec(q.y), 2. + (-1f64).cos() * 0.5);
}

#[test]
fn jitter_all_moves_by_a_hundred_millionth_of_the_span() {
    let moved = jitter_all(&coords(&[(1., 1.), (0., 0.), (3., 4.)]), &kernel);
    let r = 1e-8 * (4f64).hypot(3.);
    assert_eq!(r, 5e-8);
    assert_eq!(dec(moved[1].x), 0.);
    assert_eq!(dec(moved[1].y), r);
    assert_eq!(dec(moved[0].x), 1. + (2f64).sin() * r);
    assert_eq!(dec(moved[2].y), 4. + (-1f64).cos() * r);
    assert!(jitter_all(&coords(&[]), &kernel).is_empty());
}

#[test]
fn circumcenter_of_a_right_triangle_is_the_middle_of_its_long_side() {
    let c = circumcenter_of(&kernel, Some(pt(0., 0.)), Some(pt(1., 0.)), Some(pt(0., 1.)), Some(pt(0., 0.)));
    assert_eq!((dec(c.x), dec(c.y)), (0.5, 0.5));
    let c = circumcenter_of(&kernel, Some(pt(0., 0.)), Some(pt(4., 0.)), Some(pt(0., 2.)), Some(pt(9., 9.)));
    assert_eq!((dec(c.x), dec(c.y)), (2., 1.));
}

#[test]
fn circumcenter_of_a_flat_triangle_is_far_away() {
    let c = circumcenter_of(&kernel, Some(pt(0., 0.)), Some(pt(1., 0.)), Some(pt(2., 0.)), Some(pt(0., 1.)));
    assert_eq!((dec(c.x), dec(c.y)), (1., -2e9));
    let c = circumcenter_of(&kernel, Some(pt(0., 0.)), Some(pt(1., 0.)), Some(pt(2., 0.)), Some(pt(0., -1.)));
    assert_eq!((dec(c.x), dec(c.y)), (1., 2e9));
    let c = circumcenter_of(&kernel, Some(pt(0., 0.)), Some(pt(1., 0.)), Some(pt(2., 0.)), Some(pt(0., 0.)));
    assert_eq!((dec(c.x), dec(c.y)), (1., 0.));
}

#[test]
fn circumcenter_of_a_thin_triangle_is_the_middle_of_two_corners() {
    let c = circumcenter_of(&kernel, Some(pt(0., 0.)), Some(pt(1., 0.)), Some(pt(2., 1e-9)), Some(pt(0., 0.)));
    assert_eq!((dec(c.x), dec(c.y)), (1., 5e-10));
}

#[test]
fn circumcenter_of_a_missing_corner_is_no_point() {
    let c = circumcenter_of(&kernel, Some(pt(0., 0.)), None, None, Some(pt(0., 0.)));
    assert_eq!((c.x, c.y), (NAN, NAN));
    let c = circumcenter_of(&kernel, None, Some(pt(0., 0.)), Some(pt(1., 0.)), Some(pt(0., 0.)));
    assert_eq!((c.x, c.y), (NAN, NAN));
    let c = circumcenter_of(&kernel, Some(pt(0., 0.)), Some(pt(1., 0.)), Some(pt(0., 1.)), None);
    assert_eq!((c.x, c.y), (NAN, NAN));
}

#[test]
fn invalid_bounds_are_refused() {
    let d = delaunay(&SQUARE);
    let r = d.voronoi(Some((enc(2.), enc(0.), enc(1.), enc(0.))), &kernel);
    assert!(matches!(r, Err(InvalidBounds)));
    let d = delaunay(&SQUARE);
    let r = Voronoi::new(d, Some((enc(0.), enc(2.), enc(0.), enc(1.))), &kernel);
    assert!(matches!(r, Err(InvalidBounds)));
    let d = delaunay(&SQUARE);
    let r = Voronoi::new(d, Some((enc(1.), enc(1.), enc(1.), enc(1.))), &kernel);
    assert!(r.is_ok());
}

#[test]
fn the_cell_of_a_single_point_is_the_rectangle() {
    let v = voronoi(&[(0., 0.)], Some((-1., -1., 2., 2.)));
    assert_eq!(
        floats(&v.cell_polygon(0, &kernel)),
        vec![(2., -1.), (2., 2.), (-1., 2.), (-1., -1.), (2., -1.)]
    );
    assert_eq!(floats(&v.clip(0, &kernel).unwrap()), vec![(2., -1.), (2., 2.), (-1., 2.), (-1., -1.)]);
}

#[test]
fn the_cell_of_a_coincident_point_is_empty() {
    let v = voronoi(&[(0., 0.), (1., 0.), (0., 1.), (1., 0.)], Some((-1., -1., 2., 2.)));
    assert!(v.cell_polygon(3, &kernel).is_empty());
    assert!(v.cell(3).is_none());
    assert!(v.clip(3, &kernel).is_none());
    assert!(v.cell_path(3, &kernel).is_empty());
}

#[test]
fn a_cell_polygon_repeats_no_point_but_the_first() {
    let v = voronoi(&[(10., 10.), (20., 10.)], Some((0., 0., 30., 20.)));
    let p = floats(&v.cell_polygon(0, &kernel));
    assert_eq!(p.len(), 5);
    for w in p.windows(2) {
        assert_ne!(w[0], w[1]);
    }
    assert_eq!(p[0], p[4]);
    let q = floats(&v.cell_polygon(1, &kernel));
    assert_eq!(q, vec![(30., 0.), (30., 20.), (15., 20.), (15., 0.), (30., 0.)]);
}

#[test]
fn cell_gives_the_centres_round_a_point() {
    let v = voronoi(&SQUARE, None);
    assert_eq!(floats(&v.cell(0).unwrap()), vec![(0.5, 0.5)]);
    assert_eq!(floats(&v.cell(1).unwrap()), vec![(0.5, 0.5), (0.5, 0.5)]);
}

#[test]
fn region_codes_name_the_sides_beyond_a_point() {
    let v = voronoi(&SQUARE, Some((0., 0., 10., 10.)));
    assert_eq!(v.regioncode(&pt(-1., 5.)), 0b0001);
    assert_eq!(v.regioncode(&pt(11., 5.)), 0b0010);
    assert_eq!(v.regioncode(&pt(5., -1.)), 0b0100);
    assert_eq!(v.regioncode(&pt(5., 11.)), 0b1000);
    assert_eq!(v.regioncode(&pt(-1., -1.)), 0b0101);
    assert_eq!(v.regioncode(&pt(11., -1.)), 0b0110);
    assert_eq!(v.regioncode(&pt(-1., 11.)), 0b1001);
    assert_eq!(v.regioncode(&pt(11., 11.)), 0b1010);
    assert_eq!(v.regioncode(&pt(5., 5.)), 0);
    assert_eq!(v.regioncode(&pt(0., 10.)), 0);
    assert_eq!(v.regioncode(&Coord { x: NAN, y: NAN }), 0);
}

#[test]
fn edge_codes_name_the_sides_under_a_point() {
    let v = voronoi(&SQUARE, Some((0., 0., 10., 10.)));
    assert_eq!(v.edgecode(&pt(0., 5.)), 0b0001);
    assert_eq!(v.edgecode(&pt(10., 5.)), 0b0010);
    assert_eq!(v.edgecode(&pt(5., 0.)), 0b0100);
    assert_eq!(v.edgecode(&pt(5., 10.)), 0b1000);
    assert_eq!(v.edgecode(&pt(0., 0.)), 0b0101);
    assert_eq!(v.edgecode(&pt(10., 0.)), 0b0110);
    assert_eq!(v.edgecode(&pt(0., 10.)), 0b1001);
    assert_eq!(v.edgecode(&pt(10., 10.)), 0b1010);
    assert_eq!(v.edgecode(&pt(5., 5.)), 0);
    assert_eq!(v.edgecode(&pt(-1., 11.)), 0);
    assert_eq!(v.edgecode(&Coord { x: NAN, y: NAN }), 0);
}

#[test]
fn project_follows_a_ray_to_the_boundary() {
    let v = voronoi(&SQUARE, Some((0., 0., 10., 20.)));
    let at = |p: Option<Coord>| p.map(|c| (dec(c.x), dec(c.y)));
    assert_eq!(at(v.project(&pt(5., 5.), enc(0.), enc(-1.), &kernel)), Some((5., 0.)));
    assert_eq!(at(v.project(&pt(5., 5.), enc(0.), enc(3.), &kernel)), Some((5., 20.)));
    assert_eq!(at(v.project(&pt(5., 5.), enc(2.), enc(0.), &kernel)), Some((10., 5.)));
    assert_eq!(at(v.project(&pt(4., 5.), enc(-2.), enc(0.), &kernel)), Some((0., 5.)));
    assert_eq!(at(v.project(&pt(4., 5.), enc(-2.), enc(1.), &kernel)), Some((0., 7.)));
    assert_eq!(at(v.project(&pt(5., 5.), enc(1.), enc(1.), &kernel)), Some((10., 10.)));
    assert_eq!(at(v.project(&pt(5., 15.), enc(1.), enc(1.), &kernel)), Some((10., 20.)));
    assert_eq!(at(v.project(&pt(5., 5.), enc(0.), enc(0.), &kernel)), Some((0., 0.)));
    assert_eq!(at(v.project(&pt(5., 0.), enc(0.), enc(-1.), &kernel)), None);
    assert_eq!(at(v.project(&pt(5., 20.), enc(0.), enc(1.), &kernel)), None);
    assert_eq!(at(v.project(&pt(10., 5.), enc(1.), enc(0.), &kernel)), None);
    assert_eq!(at(v.project(&pt(-1., 5.), enc(-1.), enc(0.), &kernel)), None);
}

#[test]
fn clip_segment_keeps_the_part_inside() {
    let v = voronoi(&SQUARE, Some((0., 0., 10., 10.)));
    let cut = |a: (f64, f64), b: (f64, f64)| {
        let (p0, p1) = (pt(a.0, a.1), pt(b.0, b.1));
        v.clip_segment(&p0, &p1, v.regioncode(&p0), v.regioncode(&p1), &kernel)
            .map(|s| ((dec(s.0.x), dec(s.0.y)), (dec(s.1.x), dec(s.1.y))))
    };
    assert_eq!(cut((5., 5.), (6., 7.)), Some(((5., 5.), (6., 7.))));
    assert_eq!(cut((5., 5.), (15., 5.)), Some(((5., 5.), (10., 5.))));
    assert_eq!(cut((-5., 5.), (15., 5.)), Some(((0., 5.), (10., 5.))));
    assert_eq!(cut((5., -5.), (5., 15.)), Some(((5., 0.), (5., 10.))));
    assert_eq!(cut((-5., -5.), (15., 15.)), Some(((0., 0.), (10., 10.))));
    assert_eq!(cut((-5., -5.), (-1., -1.)), None);
    assert_eq!(cut((-5., 5.), (5., 25.)), None);
    assert!(MAX_CUTS >= 4);
}

#[test]
fn prune_takes_the_middle_of_three_in_a_row() {
    let mut p = coords(&[(0., 0.), (0., 1.), (0., 2.), (1., 2.)]);
    prune(&mut p);
    assert_eq!(floats(&p), vec![(0., 0.), (0., 2.), (1., 2.)]);
    let mut p = coords(&[(0., 0.), (0., 1.)]);
    prune(&mut p);
    assert_eq!(floats(&p), vec![(0., 0.), (0., 1.)]);
    let mut p = coords(&[(0., 0.), (0., 20.), (0., 500.)]);
    prune(&mut p);
    assert!(p.is_empty());
}

#[test]
fn edge_puts_in_the_corners_on_the_way() {
    let v = voronoi(&[(5., 5.)], Some((0., 0., 10., 10.)));
    let mut p = coords(&[(3., 0.)]);
    let j = v.edge(0, 0b0100, 0b1000, &mut p, 1, &kernel);
    assert_eq!(j, 3);
    assert_eq!(floats(&p), vec![(3., 0.), (10., 0.), (10., 10.)]);
    let mut p = coords(&[(3., 0.), (7., 10.)]);
    let j = v.edge(0, 0b1000, 0b0100, &mut p, 0, &kernel);
    assert_eq!(j, 2);
    assert_eq!(floats(&p), vec![(0., 10.), (0., 0.), (3., 0.), (7., 10.)]);
    let mut p = coords(&[(3., 0.), (7., 0.)]);
    let j = v.edge(0, 0b0100, 0b0100, &mut p, 1, &kernel);
    assert_eq!(j, 1);
    assert_eq!(floats(&p), vec![(3., 0.), (7., 0.)]);
}

#[test]
fn clip_finite_cuts_a_closed_cell() {
    let v = voronoi(&[(5., 5.)], Some((0., 0., 10., 10.)));
    let inside = coords(&[(1., 1.), (9., 1.), (5., 9.)]);
    assert_eq!(floats(&v.clip_finite(0, &inside, &kernel)), vec![(1., 1.), (9., 1.), (5., 9.)]);
    let around = coords(&[(-5., -5.), (15., -5.), (15., 15.), (-5., 15.)]);
    assert_eq!(
        floats(&v.clip_finite(0, &around, &kernel)),
        vec![(10., 0.), (10., 10.), (0., 10.), (0., 0.)]
    );
    let across = coords(&[(5., 5.), (15., 5.), (15., 8.), (5., 8.)]);
    assert_eq!(
        floats(&v.clip_finite(0, &across, &kernel)),
        vec![(5., 5.), (10., 5.), (10., 8.), (5., 8.)]
    );
}

#[test]
fn polygon_path_skips_repeated_points() {
    let path = polygon_path(&coords(&[(0., 0.), (0., 0.), (1., 0.), (1., 1.), (0., 0.)]));
    assert_eq!(
        path,
        vec![
            Command::MoveTo(pt(0., 0.)),
            Command::LineTo(pt(1., 0.)),
            Command::LineTo(pt(1., 1.)),
            Command::ClosePath
        ]
    );
    assert_eq!(floats(&outline_of(&path)), vec![(0., 0.), (1., 0.), (1., 1.), (0., 0.)]);
    assert!(polygon_path(&[].to_vec()).is_empty());
    assert_eq!(polygon_path(&coords(&[(2., 3.)])), vec![Command::MoveTo(pt(2., 3.)), Command::ClosePath]);
}

#[test]
fn path_writes_moves_lines_and_closings() {
    let mut path = Path::new();
    path.close_path();
    assert_eq!(path.to_string(&kernel, &fmt), "");
    path.move_to(&pt(0., 0.));
    path.line_to(&pt(1.5, -1.));
    path.close_path();
    assert_eq!(path.to_string(&kernel, &fmt), "M0,0L1.5,-1Z");
}

#[test]
fn path_writes_arcs() {
    let mut path = Path::new();
    path.arc(&pt(0., 0.), enc(2.), enc(0.), enc(6.));
    assert_eq!(path.to_string(&kernel, &fmt), "M2,0");
    let mut path = Path::new();
    path.move_to(&pt(1., 1.));
    path.arc(&pt(1., 1.), enc(0.), enc(0.), enc(6.));
    assert_eq!(path.to_string(&kernel, &fmt), "M1,1");
    let mut path = Path::new();
    path.move_to(&pt(0., 0.));
    path.arc(&pt(5., 5.), enc(1.), enc(0.), enc(6.));
    assert_eq!(path.to_string(&kernel, &fmt), "M0,0L6,5A1,1,0,1,1,4,5A1,1,0,1,1,0,0");
    let mut path = Path::new();
    path.move_to(&pt(6.0000001, 5.));
    path.arc(&pt(5., 5.), enc(1.), enc(0.), enc(6.));
    assert_eq!(path.to_string(&kernel, &fmt), "M6.0000001,5A1,1,0,1,1,4,5A1,1,0,1,1,6.0000001,5");
    let mut path = Path::new();
    path.move_to(&pt(6.00001, 5.));
    path.arc(&pt(5., 5.), enc(1.), enc(0.), enc(6.));
    assert_eq!(path.to_string(&kernel, &fmt), "M6.00001,5L6,5A1,1,0,1,1,4,5A1,1,0,1,1,6.00001,5");
    let mut path = Path::new();
    path.move_to(&pt(6., 5.000002));
    path.arc(&pt(5., 5.), enc(1.), enc(0.), enc(6.));
    assert_eq!(path.to_string(&kernel, &fmt), "M6,5.000002L6,5A1,1,0,1,1,4,5A1,1,0,1,1,6,5.000002");
}

#[test]
fn path_writes_rectangles() {
    let mut path = Path::new();
    path.rect(&pt(1., 2.), enc(3.), enc(4.));
    path.close_path();
    assert_eq!(path.to_string(&kernel, &fmt), "M1,2h3v4h-3ZZ");
}

#[test]
fn polygon_keeps_the_points() {
    let mut polygon = Polygon::new();
    polygon.close_path();
    assert!(polygon.points.is_empty());
    polygon.move_to(&pt(0., 0.));
    polygon.line_to(&pt(1., 0.));
    polygon.arc(&pt(5., 5.), enc(1.), enc(0.), enc(6.));
    polygon.rect(&pt(5., 5.), enc(1.), enc(1.));
    polygon.close_path();
    assert_eq!(floats(&polygon.points), vec![(0., 0.), (1., 0.), (0., 0.)]);
    assert!(Polygon::default().points.is_empty());
}

#[test]
fn replay_draws_what_was_drawn() {
    let mut path = Path::new();
    path.move_to(&pt(0., 0.));
    path.line_to(&pt(1., 0.));
    path.close_path();
    let mut polygon = Polygon::new();
    replay(&mut polygon, &path.items);
    assert_eq!(floats(&polygon.points), vec![(0., 0.), (1., 0.), (0., 0.)]);
    let mut copy = Path::default();
    replay(&mut copy, &path.items);
    assert_eq!(copy.items, path.items);
}

#[test]
fn hull_polygon_is_closed() {
    let d = delaunay(&SQUARE);
    assert_eq!(floats(&d.hull_polygon()), vec![(0., 1.), (1., 1.), (1., 0.), (0., 0.), (0., 1.)]);
    assert!(delaunay(&[]).hull_polygon().is_empty());
    assert_eq!(delaunay(&[]).render_hull_to_string(&kernel, &fmt), "");
    assert_eq!(delaunay(&[]).render_to_string(&kernel, &fmt), "");
}

#[test]
fn triangles_are_drawn_by_their_corners() {
    let d = delaunay(&SQUARE);
    assert_eq!(d.render_triangle_to_string(0, &kernel, &fmt), "M0,0M0,1M1,0Z");
    assert_eq!(floats(&d.triangle_polygon(1).points), vec![(0., 1.), (1., 1.), (1., 0.), (0., 1.)]);
    let all = d.triangle_polygons_generator();
    assert_eq!(all.len(), 2);
    assert_eq!(floats(&all[0].points), vec![(0., 0.), (0., 1.), (1., 0.), (0., 0.)]);
    let mut path = Path::new();
    d.render_triangle(1, &mut path);
    assert_eq!(path.to_string(&kernel, &fmt), "M0,1M1,1M1,0Z");
}

#[test]
fn render_draws_onto_what_is_there() {
    let d = delaunay(&SQUARE);
    let mut path = Path::new();
    path.move_to(&pt(9., 9.));
    d.render_hull(&mut path);
    d.render(&mut path);
    assert_eq!(path.to_string(&kernel, &fmt), "M9,9M0,1L1,1L1,0L0,0ZM0,1L1,0M0,1L1,1L1,0L0,0Z");
}

#[test]
fn contains_asks_for_the_nearest_of_the_neighbours() {
    let v = voronoi(&SQUARE, Some((-1., -1., 2., 2.)));
    assert!(v.contains(0, &pt(0.1, 0.2), &kernel));
    assert!(!v.contains(0, &pt(0.9, 0.2), &kernel));
    assert!(v.contains(1, &pt(0.9, 0.2), &kernel));
}

#[test]
fn neighbors_are_the_points_round_a_point() {
    let d = delaunay(&SQUARE);
    assert_eq!(d.neighbors(0), vec![1, 2]);
    assert_eq!(d.neighbors(1), vec![3, 2, 0]);
    assert_eq!(d.neighbors(3), vec![2, 1]);
    let d = delaunay(&[(0., 0.), (1., 0.), (0., 1.), (1., 0.)]);
    assert!(d.neighbors(3).is_empty());
    let d = delaunay(&[(25., 25.), (25., 75.), (75., 75.), (75., 25.), (50., 50.)]);
    let mut all = d.neighbors(4);
    all.sort();
    assert_eq!(all, vec![0, 1, 2, 3]);
}

#[test]
fn a_clipped_cell_lies_in_the_rectangle() {
    let points: Vec<(f64, f64)> = (0..30).map(|i| (((i * 37) % 101) as f64, ((i * 53) % 89) as f64)).collect();
    let v = voronoi(&points, Some((10., 20., 70., 60.)));
    let mut cells = 0;
    for i in 0..points.len() {
        let cell = floats(&v.cell_polygon(i, &kernel));
        if !cell.is_empty() {
            cells += 1;
            assert_eq!(cell[0], cell[cell.len() - 1]);
        }
        for p in cell {
            assert!(10. <= p.0 && p.0 <= 70. && 20. <= p.1 && p.1 <= 60.);
        }
    }
    assert!(cells > 5);
}

#[test]
fn find_ends_where_no_neighbour_is_nearer() {
    let points = [(0., 0.), (1., 0.), (0., 1.), (1., 0.), (5., 5.), (0., 0.), (5., 0.), (0., 5.)];
    let d = delaunay(&points);
    assert!(d.inedges.iter().any(|e| *e == EMPTY));
    for start in 0..points.len() {
        for q in [(0.2, 0.1), (4., 4.), (-3., 9.), (2.5, 2.5), (1., 0.)] {
            let c = d.find(&pt(q.0, q.1), Some(start), &kernel);
            let dc = (points[c].0 - q.0).powi(2) + (points[c].1 - q.1).powi(2);
            for t in d.neighbors(c) {
                let dt = (points[t].0 - q.0).powi(2) + (points[t].1 - q.1).powi(2);
                assert!(!(dt < dc));
            }
        }
    }
}

#[test]
fn the_default_rectangle_reaches_from_the_origin() {
    let v = voronoi(&SQUARE, None);
    assert_eq!((dec(v.xmin), dec(v.ymin), dec(v.xmax), dec(v.ymax)), (0., 0., 960., 500.));
}

#[test]
fn settle_keeps_a_triangulation_and_drops_triangles_without_a_hull() {
    let kept = square().settle();
    assert_eq!(kept.triangles, vec![0, 2, 1, 2, 3, 1]);
    assert_eq!(kept.halfedges, vec![EMPTY, 5, EMPTY, EMPTY, EMPTY, 1]);
    assert_eq!(kept.hull, vec![2, 3, 1, 0]);
    let line = Triangulation { triangles: vec![], halfedges: vec![], hull: vec![0, 1] }.settle();
    assert!(line.triangles.is_empty());
    assert_eq!(line.hull, vec![0, 1]);
    let mut broken = square();
    broken.hull = vec![2, 3];
    let dropped = broken.settle();
    assert!(dropped.triangles.is_empty());
    assert!(dropped.halfedges.is_empty());
    assert!(dropped.hull.is_empty());
    assert!(dropped.is_valid(4));
}

fn mesh(points: &[(f64, f64)]) -> Triangulation {
    let raw: Vec<delaunator::Point> =
        points.iter().map(|p| delaunator::Point { x: p.0, y: p.1 }).collect();
    Triangulation::of(&raw)
}

fn arrays(t: &Triangulation) -> (Vec<usize>, Vec<usize>, Vec<usize>) {
    (t.triangles.clone(), t.halfedges.clone(), t.hull.clone())
}

const E: usize = EMPTY;

#[test]
fn the_mesh_of_the_cross_pattern() {
    let points = [(25., 25.), (25., 75.), (75., 75.), (75., 25.), (50., 50.)];
    let t = mesh(&points);
    assert_eq!(
        arrays(&t),
        (
            vec![0, 1, 4, 1, 2, 4, 4, 3, 0, 2, 3, 4],
            vec![E, 5, 8, E, 11, 1, 10, E, 2, E, 6, 4],
            vec![2, 3, 0, 1]
        )
    );
    assert!(t.is_valid(5));
    let d = Delaunay::from_triangulation(coords(&points), t);
    assert_eq!(d.inedges, vec![7, 0, 3, 9, 1]);
    assert_eq!(d.hull_index, vec![2, 3, 0, 1, E]);
    assert_eq!(
        d.render_to_string(&kernel, &fmt),
        "M25,75L50,50M50,50L25,25M75,75L50,50M50,50L75,25M75,75L75,25L25,25L25,75Z"
    );
    let v = Voronoi::new(d, Some((enc(0.), enc(0.), enc(100.), enc(100.))), &kernel).unwrap();
    assert_eq!(floats(&v.circumcenters), vec![(25., 50.), (50., 75.), (50., 25.), (75., 50.)]);
    assert_eq!(
        v.render_to_string(&kernel, &fmt),
        "M25,50L50,75M25,50L50,25M50,75L75,50M50,25L75,50M50,75L50,100M75,50L100,50M50,25L50,0M25,50L0,50"
    );
}

#[test]
fn the_mesh_of_three_points() {
    let points = [(0., 0.), (1., 0.), (0., 1.)];
    let t = mesh(&points);
    assert_eq!(arrays(&t), (vec![0, 2, 1], vec![E, E, E], vec![0, 2, 1]));
    let d = Delaunay::from_triangulation(coords(&points), t);
    assert_eq!(d.inedges, vec![2, 1, 0]);
    assert_eq!(d.hull_index, vec![0, 2, 1]);
    let v = Voronoi::new(d, Some((enc(-1.), enc(-1.), enc(2.), enc(2.))), &kernel).unwrap();
    assert_eq!(floats(&v.circumcenters), vec![(0.5, 0.5)]);
    assert_eq!(
        floats(&v.vectors),
        vec![(0., -1.), (-1., 0.), (1., 1.), (0., -1.), (-1., 0.), (1., 1.)]
    );
    assert_eq!(v.render_cell_to_string(0, &kernel, &fmt), "M-1,-1L0.5,-1L0.5,0.5L-1,0.5Z");
    assert_eq!(v.render_cell_to_string(1, &kernel, &fmt), "M2,-1L2,2L0.5,0.5L0.5,-1Z");
    assert_eq!(v.render_cell_to_string(2, &kernel, &fmt), "M-1,2L-1,0.5L0.5,0.5L2,2Z");
}

#[test]
fn the_mesh_of_three_points_and_one_again() {
    let points = [(0., 0.), (1., 0.), (0., 1.), (1., 0.)];
    let t = mesh(&points);
    assert_eq!(arrays(&t), (vec![0, 2, 1], vec![E, E, E], vec![0, 2, 1]));
    let d = Delaunay::from_triangulation(coords(&points), t);
    assert_eq!(d.inedges, vec![2, 1, 0, E]);
    assert_eq!(d.hull_index, vec![0, 2, 1, E]);
}

#[test]
fn the_mesh_of_the_square() {
    let t = mesh(&SQUARE);
    assert_eq!(arrays(&t), arrays(&square()));
}

#[test]
fn the_mesh_of_two_points() {
    let points = [(10., 10.), (20., 10.)];
    let t = mesh(&points);
    assert_eq!(arrays(&t), (vec![], vec![], vec![0, 1]));
    let d = Delaunay::from_triangulation(coords(&points), t);
    assert_eq!(d.triangles, vec![0, 1, 1]);
    assert_eq!(d.inedges, vec![1, 0]);
    let v = Voronoi::new(d, Some((enc(0.), enc(0.), enc(30.), enc(20.))), &kernel).unwrap();
    assert_eq!(floats(&v.circumcenters), vec![(15., 10.)]);
    assert_eq!(floats(&v.vectors), vec![(0., -10.), (0., 10.), (0., 10.), (0., -10.)]);
    assert_eq!(floats(&v.cell(0).unwrap()), vec![(15., 10.)]);
}

#[test]
fn the_mesh_of_the_points_to_find_among() {
    let points = [(0., 0.), (300., 0.), (0., 300.), (300., 300.), (100., 100.)];
    let t = mesh(&points);
    assert_eq!(
        arrays(&t),
        (
            vec![4, 1, 0, 0, 2, 4, 4, 3, 1, 2, 3, 4],
            vec![8, E, 5, E, 11, 2, 10, E, 0, E, 6, 4],
            vec![2, 3, 1, 0]
        )
    );
    let d = Delaunay::from_triangulation(coords(&points), t);
    assert_eq!(d.inedges, vec![1, 7, 3, 9, 2]);
    assert_eq!(d.neighbors(0), vec![1, 4, 2]);
    assert_eq!(d.find(&pt(49., 49.), None, &kernel), 0);
    assert_eq!(d.find(&pt(51., 51.), None, &kernel), 4);
}

#[test]
fn the_mesh_of_four_points_in_a_wide_rectangle() {
    let points = [(50., 10.), (10., 50.), (10., 10.), (200., 100.)];
    let t = mesh(&points);
    assert_eq!(
        arrays(&t),
        (vec![0, 2, 1, 1, 3, 0], vec![E, E, 5, E, E, 2], vec![1, 3, 0, 2])
    );
    let d = Delaunay::from_triangulation(coords(&points), t);
    assert_eq!(d.inedges, vec![4, 1, 0, 3]);
}

#[test]
fn the_mesh_of_an_almost_flat_triangle() {
    let points = [(90., 73.), (7., 87.), (33., 85.)];
    let t = mesh(&points);
    assert_eq!(arrays(&t), (vec![2, 0, 1], vec![E, E, E], vec![2, 0, 1]));
}

#[test]
fn a_point_that_is_no_number_leaves_the_points_without_a_mesh() {
    let points = [(0., 0.), (1., 0.), (0., 1.), (f64::NAN, f64::NAN)];
    let t = mesh(&points);
    assert_eq!(arrays(&t), (vec![], vec![], vec![]));
    let d = delaunay(&points);
    assert!(d.triangles.is_empty());
    assert!(d.hull.is_empty());
    assert_eq!(d.inedges, vec![E, E, E, E]);
    assert_eq!(d.points.len(), 4);
    assert_eq!(d.render_to_string(&kernel, &fmt), "");
    let c = d.find(&pt(0.2, 0.1), Some(3), &kernel);
    assert!(c < 4);
    let v = d.voronoi(None, &kernel).unwrap();
    assert!(v.cell_polygon(0, &kernel).is_empty());
    assert_eq!(v.render_to_string(&kernel, &fmt), "");
}

#[test]
fn points_out_of_range_are_left_without_a_mesh() {
    for odd in [1e200, -1e200, 1e-200, f64::INFINITY, f64::NEG_INFINITY, 5e-324] {
        let t = mesh(&[(0., 0.), (1., 0.), (0., 1.), (odd, 0.5)]);
        assert_eq!(arrays(&t), (vec![], vec![], vec![]));
        let t = mesh(&[(0., 0.), (1., 0.), (0., 1.), (0.5, odd)]);
        assert_eq!(arrays(&t), (vec![], vec![], vec![]));
    }
    let t = mesh(&[(0., 0.), (-1e100, 0.), (-0., 1e-100)]);
    assert_eq!(t.triangles.len(), 3);
}

#[test]
fn tame_bits_are_those_of_zero_or_a_number_of_middle_size() {
    assert!(is_tame_bits(0f64.to_bits()));
    assert!(is_tame_bits((-0f64).to_bits()));
    assert!(is_tame_bits(1f64.to_bits()));
    assert!(is_tame_bits((-960.5f64).to_bits()));
    assert!(is_tame_bits(2f64.powi(400).to_bits()));
    assert!(is_tame_bits((2f64.powi(401) * (1. - f64::EPSILON)).to_bits()));
    assert!(!is_tame_bits(2f64.powi(401).to_bits()));
    assert!(is_tame_bits(2f64.powi(-400).to_bits()));
    assert!(!is_tame_bits((2f64.powi(-400) * (1. - f64::EPSILON)).to_bits()));
    assert!(!is_tame_bits((-2f64.powi(-401)).to_bits()));
    assert!(!is_tame_bits(f64::NAN.to_bits()));
    assert!(!is_tame_bits(f64::INFINITY.to_bits()));
    assert!(!is_tame_bits(f64::NEG_INFINITY.to_bits()));
    assert!(!is_tame_bits(f64::MIN_POSITIVE.to_bits()));
    assert!(!is_tame_bits(5e-324f64.to_bits()));
    assert!(!is_tame_bits(f64::MAX.to_bits()));
}

#[test]
fn triangulation_of_hands_the_points_over_as_they_are_converted() {
    let t = triangulation_of(&coords(&SQUARE), &to_raw);
    assert_eq!(arrays(&t), arrays(&square()));
    let none = triangulation_of(&vec![Coord { x: NAN, y: 0 }, pt(0., 0.), pt(1., 0.), pt(0., 1.)], &to_raw);
    assert_eq!(arrays(&none), (vec![], vec![], vec![]));
    assert!(Triangulation::empty().triangles.is_empty());
}

#[test]
fn is_valid_refuses_a_hull_that_repeats_or_misses_the_triangles() {
    let mut t = square();
    t.hull = vec![2, 3, 1, 2];
    assert!(!t.is_valid(4));
    let mut t = square();
    t.hull = vec![2, 3, 1, 4];
    assert!(!t.is_valid(5));
    assert!(square().is_valid(5));
    let line = Triangulation { triangles: vec![], halfedges: vec![], hull: vec![0, 1, 1] };
    assert!(!line.is_valid(2));
    let line = Triangulation { triangles: vec![], halfedges: vec![], hull: vec![0, 2, 1] };
    assert!(line.is_valid(3));
}

#[test]
fn a_step_from_an_unused_point_among_fewer_than_two_stays() {
    let none = Triangulation { triangles: vec![], halfedges: vec![], hull: vec![] };
    let d = Delaunay::from_triangulation(coords(&[(3., 4.)]), none);
    assert_eq!(d.inedges, vec![E]);
    assert_eq!(d.step(0, &pt(0., 0.), &kernel), 0);
    assert_eq!(d.find(&pt(0., 0.), None, &kernel), 0);
    assert!(d.neighbors(0).is_empty());
    let v = Voronoi::new(d, None, &kernel).unwrap();
    assert!(v.contains(0, &pt(9., 9.), &kernel));
    assert!(v.cell_polygon(0, &kernel).is_empty());
    let none = Triangulation { triangles: vec![], halfedges: vec![], hull: vec![] };
    let d = Delaunay::from_triangulation(coords(&[(3., 4.), (5., 6.), (7., 8.)]), none);
    assert_eq!(d.step(0, &pt(0., 0.), &kernel), 0);
    assert_eq!(d.step(2, &pt(0., 0.), &kernel), 0);
    let none = Triangulation { triangles: vec![], halfedges: vec![], hull: vec![] };
    let d = Delaunay::from_triangulation(coords(&[(3., 4.), (5., 6.), (7., 8.), (9., 9.)]), none);
    assert_eq!(d.step(0, &pt(0., 0.), &kernel), 1);
    assert_eq!(d.step(1, &pt(0., 0.), &kernel), 0);
    assert_eq!(d.step(3, &pt(0., 0.), &kernel), 0);
}

#[test]
fn hull_index_undoes_the_hull() {
    let points: Vec<(f64, f64)> = (0..40).map(|i| (((i * 37) % 101) as f64, ((i * 53) % 89) as f64)).collect();
    let d = delaunay(&points);
    assert!(d.hull.len() >= 3);
    for (j, h) in d.hull.iter().enumerate() {
        assert_eq!(d.hull_index[*h], j);
        assert_ne!(d.inedges[*h], EMPTY);
    }
}
