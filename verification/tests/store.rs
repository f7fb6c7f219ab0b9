use painting::canvas::{Canvas, Size, StrokeError};
use painting::line::point_v_to_vertex_v;
use painting::point::Point;

fn size(width: u32, height: u32) -> Size {
    Size { width, height }
}

fn pt(detail: u32) -> Point {
    Point { detail }
}

#[test]
fn fresh_canvas_is_empty_and_starts_at_id_one() {
    let canvas = Canvas::create(size(1024, 768));
    assert_eq!(*canvas.get_size(), size(1024, 768));
    assert_eq!(canvas.next_id(), 1);
    assert!(canvas.s_line().is_none());
    assert!(canvas.line(1).is_none());
    assert!(canvas.render().is_empty());
}

#[test]
fn stroke_is_stored_under_its_id_while_it_is_drawn() {
    let mut canvas = Canvas::create(size(100, 100));
    assert_eq!(canvas.start_line(pt(2)), Ok(()));
    assert_eq!(canvas.s_line().unwrap().points(), &vec![pt(2)]);
    assert!(canvas.line(1).is_none());
    assert_eq!(canvas.push_point(pt(3)), Ok(()));
    assert_eq!(canvas.next_id(), 1);
    assert_eq!(canvas.line(1).unwrap().vertices(), &point_v_to_vertex_v(&vec![pt(2), pt(3)]));
    assert_eq!(canvas.push_point(pt(4)), Ok(()));
    assert_eq!(
        canvas.line(1).unwrap().vertices(),
        &point_v_to_vertex_v(&vec![pt(2), pt(3), pt(4)])
    );
    assert_eq!(canvas.line(1).unwrap().count(), 12 + 24 + 6 + 48 + 6);
    assert_eq!(canvas.render(), vec![1]);
    assert_eq!(canvas.end_line(), Ok(()));
    assert_eq!(canvas.next_id(), 2);
    assert!(canvas.s_line().is_none());
    assert_eq!(canvas.line(1).unwrap().count(), 96);
    assert!(canvas.line(2).is_none());
}

#[test]
fn second_stroke_cannot_be_begun_before_the_first_has_ended() {
    let mut canvas = Canvas::create(size(100, 100));
    assert_eq!(canvas.start_line(pt(2)), Ok(()));
    assert_eq!(canvas.push_point(pt(2)), Ok(()));
    assert_eq!(canvas.start_line(pt(9)), Err(StrokeError::AlreadyOpen));
    assert_eq!(canvas.s_line().unwrap().points(), &vec![pt(2), pt(2)]);
    assert_eq!(canvas.next_id(), 1);
    assert_eq!(canvas.line(1).unwrap().count(), 30);
}

#[test]
fn point_cannot_be_added_without_a_stroke() {
    let mut canvas = Canvas::create(size(100, 100));
    assert_eq!(canvas.push_point(pt(2)), Err(StrokeError::NoOpenStroke));
    assert!(canvas.render().is_empty());
    assert!(canvas.s_line().is_none());
    assert_eq!(canvas.start_line(pt(2)), Ok(()));
    assert_eq!(canvas.end_line(), Ok(()));
    assert_eq!(canvas.push_point(pt(2)), Err(StrokeError::NoOpenStroke));
    assert!(canvas.render().is_empty());
}

#[test]
fn stroke_cannot_be_ended_twice() {
    let mut canvas = Canvas::create(size(100, 100));
    assert_eq!(canvas.end_line(), Err(StrokeError::NoOpenStroke));
    assert_eq!(canvas.next_id(), 1);
    assert_eq!(canvas.start_line(pt(2)), Ok(()));
    assert_eq!(canvas.end_line(), Ok(()));
    assert_eq!(canvas.end_line(), Err(StrokeError::NoOpenStroke));
    assert_eq!(canvas.next_id(), 2);
}

#[test]
fn cancel_right_after_start_leaves_no_trace_and_frees_the_id() {
    let mut canvas = Canvas::create(size(100, 100));
    assert_eq!(canvas.start_line(pt(2)), Ok(()));
    assert_eq!(canvas.push_point(pt(2)), Ok(()));
    assert_eq!(canvas.end_line(), Ok(()));
    let id = canvas.next_id();
    let order = canvas.render();
    assert_eq!(canvas.start_line(pt(5)), Ok(()));
    canvas.cancle_line();
    assert_eq!(canvas.next_id(), id);
    assert!(canvas.s_line().is_none());
    assert!(canvas.line(id).is_none());
    assert_eq!(canvas.render(), order);
    assert_eq!(canvas.start_line(pt(6)), Ok(()));
    assert_eq!(canvas.push_point(pt(6)), Ok(()));
    assert_eq!(canvas.next_id(), id);
    assert_eq!(canvas.line(id).unwrap().vertices(), &point_v_to_vertex_v(&vec![pt(6), pt(6)]));
}

#[test]
fn cancel_removes_the_mesh_of_the_stroke_being_drawn() {
    let mut canvas = Canvas::create(size(100, 100));
    assert_eq!(canvas.start_line(pt(2)), Ok(()));
    assert_eq!(canvas.push_point(pt(3)), Ok(()));
    assert_eq!(canvas.end_line(), Ok(()));
    assert_eq!(canvas.start_line(pt(4)), Ok(()));
    assert_eq!(canvas.push_point(pt(4)), Ok(()));
    assert_eq!(canvas.push_point(pt(4)), Ok(()));
    assert_eq!(canvas.render(), vec![1, 2]);
    canvas.cancle_line();
    assert_eq!(canvas.render(), vec![1]);
    assert!(canvas.line(2).is_none());
    assert_eq!(canvas.line(1).unwrap().count(), 12 + 24 + 6);
    assert_eq!(canvas.next_id(), 2);
    assert_eq!(canvas.push_point(pt(4)), Err(StrokeError::NoOpenStroke));
}

#[test]
fn cancel_without_a_stroke_changes_nothing() {
    let mut canvas = Canvas::create(size(100, 100));
    canvas.cancle_line();
    assert_eq!(canvas.next_id(), 1);
    assert_eq!(canvas.start_line(pt(2)), Ok(()));
    assert_eq!(canvas.push_point(pt(2)), Ok(()));
    assert_eq!(canvas.end_line(), Ok(()));
    canvas.cancle_line();
    assert_eq!(canvas.next_id(), 2);
    assert_eq!(canvas.render(), vec![1]);
    assert_eq!(canvas.line(1).unwrap().count(), 30);
}

#[test]
fn stroke_without_a_second_point_uses_up_its_id_but_stores_nothing() {
    let mut canvas = Canvas::create(size(100, 100));
    assert_eq!(canvas.start_line(pt(2)), Ok(()));
    assert_eq!(canvas.end_line(), Ok(()));
    assert_eq!(canvas.next_id(), 2);
    assert!(canvas.line(1).is_none());
    assert!(canvas.render().is_empty());
}

#[test]
fn clear_empties_the_store_and_leaves_the_open_stroke_alone() {
    let mut canvas = Canvas::create(size(100, 100));
    for _ in 0..3 {
        assert_eq!(canvas.start_line(pt(2)), Ok(()));
        assert_eq!(canvas.push_point(pt(2)), Ok(()));
        assert_eq!(canvas.end_line(), Ok(()));
    }
    assert_eq!(canvas.start_line(pt(3)), Ok(()));
    assert_eq!(canvas.push_point(pt(3)), Ok(()));
    assert_eq!(canvas.render(), vec![1, 2, 3, 4]);
    canvas.clear();
    assert!(canvas.render().is_empty());
    assert!(canvas.line(2).is_none());
    assert!(canvas.line(4).is_none());
    assert_eq!(canvas.next_id(), 4);
    assert_eq!(canvas.s_line().unwrap().points(), &vec![pt(3), pt(3)]);
    assert_eq!(canvas.push_point(pt(3)), Ok(()));
    assert_eq!(canvas.render(), vec![4]);
    assert_eq!(
        canvas.line(4).unwrap().vertices(),
        &point_v_to_vertex_v(&vec![pt(3), pt(3), pt(3)])
    );
    assert_eq!(canvas.end_line(), Ok(()));
    assert_eq!(canvas.next_id(), 5);
}

#[test]
fn strokes_are_drawn_in_the_order_of_their_ids() {
    let mut canvas = Canvas::create(size(100, 100));
    for round in 0..40u32 {
        assert_eq!(canvas.start_line(pt(round % 5)), Ok(()));
        if round % 3 != 0 {
            assert_eq!(canvas.push_point(pt(2)), Ok(()));
        }
        if round % 7 == 0 {
            canvas.cancle_line();
        } else {
            assert_eq!(canvas.end_line(), Ok(()));
        }
    }
    let order = canvas.render();
    assert!(!order.is_empty());
    for pair in order.windows(2) {
        assert!(pair[0] < pair[1]);
    }
    for id in 0..canvas.next_id() + 2 {
        assert_eq!(order.contains(&id), canvas.line(id).is_some());
    }
    assert!(order.iter().all(|&id| 1 <= id && id < canvas.next_id()));
}

#[test]
fn ids_are_never_given_out_twice() {
    let mut canvas = Canvas::create(size(100, 100));
    let mut seen = Vec::new();
    for round in 0..20u32 {
        assert_eq!(canvas.start_line(pt(2)), Ok(()));
        assert_eq!(canvas.push_point(pt(2)), Ok(()));
        let id = canvas.next_id();
        assert!(seen.iter().all(|&before| before < id));
        seen.push(id);
        assert_eq!(canvas.end_line(), Ok(()));
        if round % 4 == 0 {
            canvas.clear();
        }
    }
}

#[test]
fn resize_takes_only_sizes_that_can_be_drawn_on() {
    let mut canvas = Canvas::create(size(1024, 1024));
    assert!(canvas.resize(size(640, 480)));
    assert_eq!(*canvas.get_size(), size(640, 480));
    assert!(!canvas.resize(size(0, 480)));
    assert_eq!(*canvas.get_size(), size(640, 480));
    assert!(!canvas.resize(size(640, 0)));
    assert!(!canvas.resize(size(0, 0)));
    assert_eq!(*canvas.get_size(), size(640, 480));
    assert!(canvas.resize(size(1, 1)));
    assert_eq!(*canvas.get_size(), size(1, 1));
    assert!(canvas.resize(size(u32::MAX, u32::MAX)));
    assert_eq!(*canvas.get_size(), size(u32::MAX, u32::MAX));
}

#[test]
fn resize_does_not_touch_the_strokes() {
    let mut canvas = Canvas::create(size(10, 10));
    assert_eq!(canvas.start_line(pt(2)), Ok(()));
    assert_eq!(canvas.push_point(pt(2)), Ok(()));
    assert!(canvas.resize(size(20, 30)));
    assert!(!canvas.resize(size(0, 30)));
    assert_eq!(canvas.next_id(), 1);
    assert_eq!(canvas.s_line().unwrap().points(), &vec![pt(2), pt(2)]);
    assert_eq!(canvas.render(), vec![1]);
}

#[test]
fn size_can_be_drawn_on_if_neither_side_is_zero() {
    assert!(size(1, 1).is_drawable());
    assert!(size(1024, 1).is_drawable());
    assert!(!size(0, 1).is_drawable());
    assert!(!size(1, 0).is_drawable());
    assert!(!size(0, 0).is_drawable());
}
