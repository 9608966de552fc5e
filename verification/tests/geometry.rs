use vector_operations::error::VecError;
use vector_operations::segment::Collision;
use vector_operations::segment::LineSegment;
use vector_operations::vector::Vector;

fn point(x: i32, y: i32) -> Vector {
    Vector::new(vec![x, y], 1)
}

fn segment(ax: i32, ay: i32, bx: i32, by: i32) -> LineSegment {
    LineSegment::new(point(ax, ay), point(bx, by))
}

#[test]
fn crossing_segments_intersect() {
    let a = segment(0, 0, 4, 4);
    let b = segment(0, 4, 4, 0);
    assert_eq!(a.intersects(&b).unwrap(), true);
    assert_eq!(b.intersects(&a).unwrap(), true);
}

#[test]
fn collinear_disjoint_segments_do_not_intersect() {
    let a = segment(0, 0, 1, 1);
    let b = segment(2, 2, 3, 3);
    assert_eq!(a.intersects(&b).unwrap(), false);
}

#[test]
fn parallel_segments_do_not_intersect() {
    let a = segment(0, 0, 4, 0);
    let b = segment(0, 1, 4, 1);
    assert_eq!(a.intersects(&b).unwrap(), false);
}

#[test]
fn touching_endpoints_count_as_non_intersecting() {
    let a = segment(0, 0, 2, 2);
    let b = segment(2, 2, 4, 0);
    assert_eq!(a.intersects(&b).unwrap(), false);
}

#[test]
fn one_dimensional_endpoints_never_intersect() {
    let a = LineSegment::new(Vector::new(vec![0], 1), Vector::new(vec![1], 1));
    let b = LineSegment::new(Vector::new(vec![2], 1), Vector::new(vec![3], 1));
    assert_eq!(a.intersects(&b).unwrap(), false);
}

#[test]
fn vec_from_seg_is_terminus_minus_origin() {
    let s = segment(1, 2, 4, 6);
    let d = s.vec_from_seg().unwrap();
    assert_eq!(d.coords(), &vec![3, 4]);
    assert_eq!(d.denominator(), 1);
}

#[test]
fn to_line_segment_keeps_both_endpoints() {
    let x = point(1, 2);
    let y = point(3, 4);
    let s = x.to_line_segment(&y);
    let d = s.vec_from_seg().unwrap();
    assert_eq!(d.coords(), &vec![2, 2]);
}

#[test]
fn get_normal_of_horizontal_segment() {
    let s = segment(0, 0, 4, 0);
    let n = s.get_normal().unwrap();
    assert_eq!(n.coords(), &vec![-4, 0]);
    assert_eq!(n.denominator(), 4);
    assert!(n.equals(&point(-1, 0)));
}

#[test]
fn get_normal_of_degenerate_segment_has_no_result() {
    let s = segment(2, 3, 2, 3);
    assert!(matches!(s.get_normal(), Err(VecError::DegenerateReference)));
}

#[test]
fn collide_reports_miss_for_disjoint_segments() {
    let a = segment(0, 0, 1, 1);
    let b = segment(2, 2, 3, 3);
    assert!(matches!(a.collide(&b).unwrap(), Collision::Miss));
}

#[test]
fn collide_bounces_crossing_segments() {
    let a = segment(0, 0, 4, 4);
    let b = segment(0, 4, 4, 0);
    match a.collide(&b).unwrap() {
        Collision::Bounce(v) => {
            assert!(v.equals(&point(-4, -4)));
        },
        Collision::Miss => panic!("segments cross"),
    }
}
