use boids::{Boid, Line, Ray, Scalar, Triangle, Vec2d};

fn s(x: f64) -> Scalar {
    Scalar { raw: (x * 1_000_000.0).round() as i64 }
}

fn raw(x: i64, y: i64) -> Vec2d {
    Vec2d { x: Scalar { raw: x }, y: Scalar { raw: y } }
}

fn sloped(slope: f64, y_intercept: f64) -> Line {
    Line::Sloped { slope: s(slope), y_intercept: s(y_intercept) }
}

#[test]
fn it_can_create_new_triangle() {
    let p0 = Vec2d::new(s(0.), s(0.));
    let v0 = Vec2d::new(s(1.), s(1.));
    let boid = Boid::new(s(1.), p0, v0);
    let tri = Triangle::new(&boid.position, (s(50.), s(50.)));

    let vertices = tri.vertices;
    let edges = tri.edges;

    // Calculate edge lengths from the sprite size
    let base = s(50.);
    let sides = s(((50. / 2_f64).powi(2) + 50_f64.powi(2)).sqrt());
    let edge_lengths = vec![sides, base, sides];

    let vertex1 = Vec2d::new(p0.x, p0.y + s(25.));
    let vertex2 = Vec2d::new(p0.x + s(25.), p0.y - s(25.));
    let vertex3 = Vec2d::new(p0.x - s(25.), p0.y - s(25.));

    let expected_edges = Ray::from_vertices(&[vertex1, vertex2, vertex3], edge_lengths);

    assert_eq!(vertex1, vertices[0]);
    assert_eq!(vertex2, vertices[1]);
    assert_eq!(vertex3, vertices[2]);

    assert_eq!(edges.to_vec(), expected_edges);
}

#[test]
fn it_can_check_ray_overlap() {
    let start_pos1 = Vec2d::new(s(0.), s(0.));
    let final_pos1 = Vec2d::new(s(0.), s(5.));
    let start_pos2 = Vec2d::new(s(0.), s(3.));
    let final_pos2 = Vec2d::new(s(0.), s(9.));
    assert!(Ray::overlap(&start_pos1, &start_pos2, &final_pos1, &final_pos2));
}

#[test]
fn it_can_check_ray_intersection() {
    // y = 3x
    let line1 = Ray::new(Some(s(3.)), Some(s(0.)), Vec2d::new(s(0.), s(0.)), s(10.));

    // y = 5x + 10, which crosses y = 3x at x = -5, behind the start of line1
    let line2 = Ray::new(Some(s(5.)), Some(s(10.)), Vec2d::new(s(1.), s(1.)), s(10.));

    // x = 3
    let line3 = Ray::vertical_line(Vec2d::new(s(3.), s(0.)), s(100.));

    // x = 5
    let line4 = Ray::vertical_line(Vec2d::new(s(5.), s(0.)), s(10.));

    assert!(line1.intersects(&line2).is_none());
    assert!(line1.intersects(&line3).is_some());
    assert!(line3.intersects(&line4).is_none());
}

#[test]
fn it_can_check_if_ray_contains_point() {
    let ray1 = Ray::vertical_line(Vec2d::new(s(3.), s(0.)), s(10.));
    let ray2 = Ray::new(Some(s(3.)), Some(s(0.)), Vec2d::new(s(0.), s(0.)), s(10.));
    let point = Vec2d::new(s(3.), s(9.));

    assert!(ray1.contains(point));
    assert!(ray2.contains(point));
}

#[test]
fn a_ray_keeps_what_it_is_made_from() {
    let start = Vec2d::new(s(1.), s(2.));
    let ray = Ray::new(Some(s(0.5)), Some(s(-4.)), start, s(7.));
    assert_eq!(ray.line, sloped(0.5, -4.));
    assert_eq!(ray.start_position, start);
    assert_eq!(ray.length, s(7.));
    let upright = Ray::new(None, None, start, s(7.));
    assert_eq!(upright.line, Line::Vertical);
    assert_eq!(upright, Ray::vertical_line(start, s(7.)));
    // Without a slope an intercept means nothing.
    assert_eq!(Ray::new(None, Some(s(3.)), start, s(7.)), upright);
}

#[test]
fn triangle_has_its_vertices_and_edge_lengths() {
    let tri = Triangle::new(&Vec2d { x: s(3.), y: s(4.) }, (s(10.), s(20.)));
    // nose, right corner, left corner, each handed to Vec2d::new
    assert_eq!(tri.vertices[0], Vec2d::new(s(3.), s(4. + 10.)));
    assert_eq!(tri.vertices[1], Vec2d::new(s(3. + 5.), s(4. - 10.)));
    assert_eq!(tri.vertices[2], Vec2d::new(s(3. - 5.), s(4. - 10.)));
    assert_eq!(tri.vertices[0], raw(3_000_000, -14_000_000));
    assert_eq!(tri.vertices[1], raw(8_000_000, 6_000_000));
    assert_eq!(tri.vertices[2], raw(-2_000_000, 6_000_000));
    // sqrt(5^2 + 20^2) = 20.615528128...
    assert_eq!(tri.edges[0].length.raw, 20_615_528);
    assert_eq!(tri.edges[1].length, s(10.));
    assert_eq!(tri.edges[2].length.raw, 20_615_528);
    for i in 0..3 {
        assert_eq!(tri.edges[i].start_position, tri.vertices[i]);
    }
    assert_eq!(tri.edges[0].line, sloped(-4., 26.));
    assert_eq!(tri.edges[1].line, sloped(0., -6.));
    assert_eq!(tri.edges[2].line, sloped(4., 2.));
}

#[test]
fn triangle_of_the_usual_footprint() {
    let tri = Triangle::new(&Vec2d::new(s(0.), s(0.)), (s(50.), s(50.)));
    assert_eq!(tri.vertices, [raw(0, -25_000_000), raw(25_000_000, 25_000_000), raw(-25_000_000, 25_000_000)]);
    // sqrt(25^2 + 50^2) = 55.901699437...
    assert_eq!(tri.edges[0], Ray { line: sloped(-2., 25.), start_position: tri.vertices[0], length: Scalar { raw: 55_901_699 } });
    assert_eq!(tri.edges[1], Ray { line: sloped(0., -25.), start_position: tri.vertices[1], length: s(50.) });
    assert_eq!(tri.edges[2], Ray { line: sloped(2., 25.), start_position: tri.vertices[2], length: Scalar { raw: 55_901_699 } });
    // Every vertex lies on the two edges that meet in it.
    for i in 0..3 {
        assert!(tri.edges[i].contains(tri.vertices[i]));
        assert!(tri.edges[i].contains(tri.vertices[(i + 1) % 3]));
    }
}

#[test]
fn an_odd_width_is_halved_downwards() {
    let tri = Triangle::new(&Vec2d { x: s(0.), y: s(0.) }, (Scalar { raw: 5 }, Scalar { raw: -3 }));
    // 5 / 2 = 2 and -3 / 2 = -2, both rounded down.
    assert_eq!(tri.vertices[0], raw(0, 2));
    assert_eq!(tri.vertices[1], raw(2, -2));
    assert_eq!(tri.vertices[2], raw(-2, -2));
    // sqrt(2^2 + 3^2) = 3.6...
    assert_eq!(tri.edges[0].length.raw, 3);
    assert_eq!(tri.edges[1].length.raw, 5);
}

#[test]
fn edges_follow_the_vertices_and_close_the_figure() {
    let a = Vec2d::new(s(0.), s(0.));
    let b = Vec2d::new(s(4.), s(2.));
    let c = Vec2d::new(s(4.), s(6.));
    let d = Vec2d::new(s(0.), s(3.));
    let edges = Ray::from_vertices(&[a, b, c, d], vec![s(1.), s(2.), s(3.), s(4.), s(5.)]);
    assert_eq!(edges.len(), 4);
    assert_eq!(edges[0], Ray { line: sloped(0.5, 0.), start_position: a, length: s(1.) });
    // b and c share their x
    assert_eq!(edges[1], Ray { line: Line::Vertical, start_position: b, length: s(2.) });
    assert_eq!(edges[2], Ray { line: sloped(0.75, 3.), start_position: c, length: s(3.) });
    // the last edge runs back to the first vertex
    assert_eq!(edges[3], Ray { line: Line::Vertical, start_position: d, length: s(4.) });
    assert_eq!(edges[3], Ray::edge(&d, &a, s(4.)));
    assert!(Ray::from_vertices(&[], vec![]).is_empty());
    assert_eq!(Ray::from_vertices(&[a], vec![s(9.)]), vec![Ray::vertical_line(a, s(9.))]);
}

#[test]
fn an_edge_runs_along_the_line_through_both_points() {
    let from = Vec2d::new(s(0.), s(1.));
    assert_eq!(Ray::edge(&from, &Vec2d::new(s(3.), s(2.)), s(4.)).line, Line::Sloped {
        slope: Scalar { raw: 333_333 },
        y_intercept: s(1.),
    });
    assert_eq!(Ray::edge(&from, &Vec2d::new(s(-3.), s(2.)), s(4.)).line, Line::Sloped {
        slope: Scalar { raw: -333_333 },
        y_intercept: s(1.),
    });
    assert_eq!(Ray::edge(&from, &Vec2d::new(s(0.), s(7.)), s(4.)).line, Line::Vertical);
    assert_eq!(Ray::edge(&from, &from, s(4.)).line, Line::Vertical);
}

#[test]
fn an_edge_too_steep_to_hold_is_vertical() {
    // A rise of 2^63 raw steps over a run of one raw step.
    let edge = Ray::edge(&raw(0, 0), &raw(1, i64::MIN), s(4.));
    assert_eq!(edge, Ray::vertical_line(raw(0, 0), s(4.)));
    // The slope can be held, the intercept cannot.
    let edge = Ray::edge(&raw(i64::MAX - 1, 0), &raw(i64::MAX, -4_000_000), s(4.));
    assert_eq!(edge.line, Line::Vertical);
}

#[test]
fn boxes_overlap_when_they_share_a_point_on_both_axes() {
    let a0 = Vec2d::new(s(0.), s(0.));
    let a1 = Vec2d::new(s(4.), s(4.));
    // touching in one corner counts
    assert!(Ray::overlap(&a0, &Vec2d::new(s(4.), s(4.)), &a1, &Vec2d::new(s(6.), s(9.))));
    // apart on the first axis only
    assert!(!Ray::overlap(&a0, &Vec2d::new(s(5.), s(1.)), &a1, &Vec2d::new(s(6.), s(2.))));
    // apart on the second axis only
    assert!(!Ray::overlap(&a0, &Vec2d::new(s(1.), s(5.)), &a1, &Vec2d::new(s(2.), s(6.))));
    // apart on both
    assert!(!Ray::overlap(&a0, &Vec2d::new(s(5.), s(5.)), &a1, &Vec2d::new(s(6.), s(6.))));
    // one box inside the other, ends given in either order
    assert!(Ray::overlap(&a1, &Vec2d::new(s(2.), s(1.)), &a0, &Vec2d::new(s(1.), s(2.))));
    assert!(Ray::overlap(&a0, &a0, &a0, &a0));
}

#[test]
fn sloped_rays_meet_where_their_lines_cross() {
    // y = x from the origin and y = 4 - x from (0, 4): they cross in (2, 2).
    let up = Ray::new(Some(s(1.)), Some(s(0.)), Vec2d::new(s(0.), s(0.)), s(10.));
    let down = Ray::new(Some(s(-1.)), Some(s(4.)), Vec2d::new(s(0.), s(4.)), s(10.));
    assert_eq!(up.intersects(&down), Some(Vec2d::new(s(2.), s(2.))));
    assert_eq!(down.intersects(&up), Some(Vec2d::new(s(2.), s(2.))));
    // A ray of length 2 ends at x = 1.41 and does not get there.
    let short = Ray::new(Some(s(1.)), Some(s(0.)), Vec2d::new(s(0.), s(0.)), s(2.));
    assert_eq!(short.intersects(&down), None);
    assert_eq!(down.intersects(&short), None);
    // A ray that starts in the crossing does not hold it: the box has no border.
    let late = Ray::new(Some(s(1.)), Some(s(0.)), Vec2d::new(s(2.), s(2.)), s(10.));
    assert_eq!(late.intersects(&down), None);
    // Rays run towards growing x only: a negative length turns one around.
    let back = Ray::new(Some(s(1.)), Some(s(0.)), Vec2d::new(s(3.), s(3.)), s(-10.));
    assert_eq!(back.intersects(&down), Some(Vec2d::new(s(2.), s(2.))));
}

#[test]
fn a_level_ray_meets_nothing() {
    // Its box has no height.
    let level = Ray::new(Some(s(0.)), Some(s(2.)), Vec2d::new(s(0.), s(2.)), s(10.));
    let down = Ray::new(Some(s(-1.)), Some(s(4.)), Vec2d::new(s(0.), s(4.)), s(10.));
    let upright = Ray::vertical_line(Vec2d::new(s(3.), s(0.)), s(100.));
    assert_eq!(level.intersects(&down), None);
    assert_eq!(down.intersects(&level), None);
    assert_eq!(level.intersects(&upright), None);
}

#[test]
fn parallel_rays_report_the_difference_of_their_far_ends() {
    let first = Ray::new(Some(s(1.)), Some(s(0.)), Vec2d::new(s(0.), s(0.)), s(10.));
    let second = Ray::new(Some(s(1.)), Some(s(1.)), Vec2d::new(s(1.), s(2.)), s(10.));
    // The far ends lie at (7.07107, 7.07107) and (8.07107, 9.07107).
    assert_eq!(first.intersects(&second), Some(raw(1_000_000, -2_000_000)));
    assert_eq!(second.intersects(&first), Some(raw(-1_000_000, 2_000_000)));
    let far = Ray::new(Some(s(1.)), Some(s(100.)), Vec2d::new(s(100.), s(200.)), s(10.));
    assert_eq!(first.intersects(&far), None);
    // One raw step of difference in slope still counts as parallel, whatever its sign.
    let nearly = Ray::new(Some(Scalar { raw: 1_000_001 }), Some(s(1.)), Vec2d::new(s(1.), s(2.)), s(10.));
    assert!(first.intersects(&nearly).is_some());
    assert!(nearly.intersects(&first).is_some());
    assert_eq!(first.intersects(&first), Some(raw(0, 0)));
}

#[test]
fn slopes_two_raw_steps_apart_are_not_parallel() {
    // y = x and y = 1.000002 x - 0.000004 cross in (2, 2).
    let first = Ray::new(Some(s(1.)), Some(s(0.)), Vec2d::new(s(0.), s(0.)), s(10.));
    let second = Ray::new(Some(Scalar { raw: 1_000_002 }), Some(Scalar { raw: -4 }), Vec2d::new(s(1.), s(1.)), s(10.));
    assert_eq!(first.intersects(&second), Some(Vec2d::new(s(2.), s(2.))));
    assert_eq!(second.intersects(&first), Some(Vec2d::new(s(2.), s(2.))));
}

#[test]
fn a_sloped_ray_meets_a_vertical_one_at_its_x() {
    let line1 = Ray::new(Some(s(3.)), Some(s(0.)), Vec2d::new(s(0.), s(0.)), s(10.));
    let line3 = Ray::vertical_line(Vec2d::new(s(3.), s(0.)), s(100.));
    assert_eq!(line1.intersects(&line3), Some(Vec2d::new(s(3.), s(9.))));
    assert_eq!(line3.intersects(&line1), Some(Vec2d::new(s(3.), s(9.))));
    // The vertical ray ends at a height of 9 and does not hold its far end.
    let low = Ray::vertical_line(Vec2d::new(s(3.), s(0.)), s(9.));
    assert_eq!(line1.intersects(&low), None);
    // The sloped ray ends at x = 3.162278.
    let beyond = Ray::vertical_line(Vec2d::new(s(3.2), s(0.)), s(100.));
    assert_eq!(line1.intersects(&beyond), None);
    // A vertical ray runs upwards only.
    let below = Ray::vertical_line(Vec2d::new(s(3.), s(-100.)), s(50.));
    assert_eq!(line1.intersects(&below), None);
}

#[test]
fn vertical_rays_never_meet() {
    let a = Ray::vertical_line(Vec2d::new(s(3.), s(0.)), s(100.));
    let b = Ray::vertical_line(Vec2d::new(s(5.), s(0.)), s(10.));
    let c = Ray::vertical_line(Vec2d::new(s(3.), s(50.)), s(100.));
    assert_eq!(a.intersects(&b), None);
    assert_eq!(b.intersects(&a), None);
    // not even on the same line
    assert_eq!(a.intersects(&c), None);
    assert_eq!(a.intersects(&a), None);
}

#[test]
fn a_meeting_point_that_cannot_be_held_is_none() {
    // Parallel rays that touch and whose far ends are more than the whole range apart.
    let left = Ray::new(Some(s(0.)), Some(s(0.)), raw(i64::MIN, 0), Scalar { raw: i64::MIN });
    let right = Ray::new(Some(s(0.)), Some(s(0.)), raw(i64::MIN, 0), Scalar { raw: i64::MAX });
    assert_eq!(left.intersects(&right), None);
    assert_eq!(right.intersects(&left), None);
    // With far ends that are closer the same pair of lines reports a point.
    let short = Ray::new(Some(s(0.)), Some(s(0.)), raw(i64::MIN, 0), Scalar { raw: 5 });
    assert_eq!(short.intersects(&right), Some(raw(i64::MAX - 5, 0)));
}

#[test]
fn a_sloped_ray_holds_the_points_of_its_line() {
    let ray = Ray::new(Some(s(3.)), Some(s(0.)), Vec2d::new(s(0.), s(0.)), s(10.));
    assert!(ray.contains(raw(3_000_000, -9_000_000)));
    // one raw step off is still on it, two are not
    assert!(ray.contains(raw(3_000_000, -8_999_999)));
    assert!(ray.contains(raw(3_000_000, -9_000_001)));
    assert!(!ray.contains(raw(3_000_000, -8_999_998)));
    assert!(!ray.contains(raw(3_000_000, -9_000_002)));
    // the line is what counts, not the stretch of it
    assert!(ray.contains(Vec2d::new(s(-100.), s(-300.))));
    // the second axis is the one as drawn
    assert!(!ray.contains(Vec2d { x: s(3.), y: s(9.) }));
}

#[test]
fn a_vertical_ray_holds_what_lies_strictly_between_its_ends() {
    let ray = Ray::vertical_line(Vec2d::new(s(3.), s(0.)), s(10.));
    assert!(ray.contains(Vec2d::new(s(3.), s(9.))));
    assert!(ray.contains(Vec2d::new(s(3.), s(0.000001))));
    assert!(!ray.contains(Vec2d::new(s(3.), s(10.))));
    assert!(!ray.contains(Vec2d::new(s(3.), s(0.))));
    assert!(!ray.contains(Vec2d::new(s(3.), s(-1.))));
    assert!(!ray.contains(Vec2d::new(s(3.000001), s(5.))));
    let higher = Ray::vertical_line(Vec2d::new(s(3.), s(5.)), s(10.));
    assert!(higher.contains(Vec2d::new(s(3.), s(14.9))));
    assert!(!higher.contains(Vec2d::new(s(3.), s(4.9))));
    let downwards = Ray::vertical_line(Vec2d::new(s(3.), s(5.)), s(-10.));
    assert!(downwards.contains(Vec2d::new(s(3.), s(4.9))));
    assert!(downwards.contains(Vec2d::new(s(3.), s(-4.9))));
    assert!(!downwards.contains(Vec2d::new(s(3.), s(5.1))));
}

#[test]
fn a_hitbox_is_checked_against_the_range_of_the_coordinates() {
    let most = Scalar { raw: i64::MAX };
    let least = Scalar { raw: i64::MIN };
    assert!(Triangle::check_fit(&Vec2d::new(s(0.), s(0.)), (s(50.), s(50.))));
    assert!(Triangle::check_fit(&raw(i64::MAX - 1, 0), (Scalar { raw: 2 }, s(0.))));
    assert!(!Triangle::check_fit(&raw(i64::MAX, 0), (Scalar { raw: 2 }, s(0.))));
    assert!(!Triangle::check_fit(&raw(i64::MIN, 0), (Scalar { raw: 2 }, s(0.))));
    assert!(Triangle::check_fit(&raw(0, i64::MAX - 1), (s(0.), Scalar { raw: 2 })));
    assert!(!Triangle::check_fit(&raw(0, i64::MAX), (s(0.), Scalar { raw: 2 })));
    // the stored y is negated once more
    assert!(!Triangle::check_fit(&raw(0, i64::MIN), (s(0.), s(0.))));
    assert!(Triangle::check_fit(&raw(0, i64::MIN + 1), (s(0.), s(0.))));
    assert!(!Triangle::check_fit(&raw(0, 0), (most, most)));
    assert_eq!(Triangle::side(most, most), None);
    assert_eq!(Triangle::side(least, s(0.)), Some(Scalar { raw: 1 << 62 }));
    assert_eq!(Triangle::side(s(50.), s(50.)), Some(Scalar { raw: 55_901_699 }));
    assert_eq!(Triangle::side(s(6.), s(-4.)), Some(s(5.)));
}

#[test]
fn scaling_is_checked_against_the_range_of_the_coordinates() {
    let v = Vec2d { x: s(1e6), y: s(-2.) };
    assert!(v.check_scale(s(9.2e6)));
    assert!(!v.check_scale(s(1e7)));
    assert!(!v.check_scale(s(-1e7)));
    assert!(Vec2d { x: s(-2.), y: s(1e6) }.check_scale(s(9.2e6)));
    assert!(!Vec2d { x: s(-2.), y: s(1e6) }.check_scale(s(1e7)));
}
