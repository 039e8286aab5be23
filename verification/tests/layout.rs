use ctrlr::layout::{
    anchor_rect, center_rect, hits, resized_side, row_index, split_content, Rect, MAX_SIDE_WIDTH, MIN_LIST_WIDTH,
    MIN_SIDE_WIDTH, RESIZE_STEP,
};

fn area() -> Rect {
    Rect::new(0, 0, 40, 12)
}

#[test]
fn test_layout_row_index_skips_border() {
    assert_eq!(row_index(area(), 0, 0, 5), None);
    assert_eq!(row_index(area(), 0, 1, 5), Some(0));
    assert_eq!(row_index(area(), 0, 2, 5), Some(1));
}

#[test]
fn test_layout_row_index_skips_bottom_border() {
    assert_eq!(row_index(area(), 0, 10, 20), Some(9));
    assert_eq!(row_index(area(), 0, 11, 20), None);
    assert_eq!(row_index(area(), 0, 30, 20), None);
}

#[test]
fn test_layout_row_index_applies_offset() {
    assert_eq!(row_index(area(), 7, 1, 20), Some(7));
    assert_eq!(row_index(area(), 7, 3, 20), Some(9));
}

#[test]
fn test_layout_row_index_empty_list() {
    assert_eq!(row_index(area(), 0, 1, 0), None);
}

#[test]
fn test_layout_row_index_past_last_item() {
    assert_eq!(row_index(area(), 0, 3, 2), None);
}

#[test]
fn test_layout_row_index_offset_area() {
    let rect = Rect::new(5, 4, 20, 6);
    assert_eq!(row_index(rect, 0, 4, 10), None);
    assert_eq!(row_index(rect, 0, 5, 10), Some(0));
    assert_eq!(row_index(rect, 0, 9, 10), None);
}

#[test]
fn test_layout_anchor_rect_fits() {
    assert_eq!(anchor_rect(3, 2, 10, 4, area()), Rect::new(3, 2, 10, 4));
}

#[test]
fn test_layout_anchor_rect_flips_at_edges() {
    let r = anchor_rect(38, 11, 10, 4, area());
    assert_eq!(r, Rect::new(28, 7, 10, 4));
}

#[test]
fn test_layout_anchor_rect_clamps_when_oversized() {
    let r = anchor_rect(30, 8, 80, 40, area());
    assert_eq!(r, area());
}

#[test]
fn test_layout_split_content_honours_requested_widths() {
    let areas = split_content(Rect::new(0, 4, 100, 20), None, Some(35));
    assert_eq!(areas.collections, None);
    assert_eq!(areas.list, Rect::new(0, 4, 65, 20));
    assert_eq!(areas.details, Some(Rect::new(65, 4, 35, 20)));
}

#[test]
fn test_layout_split_content_three_panes_are_adjacent() {
    let areas = split_content(Rect::new(2, 4, 120, 20), Some(24), Some(35));
    let coll = areas.collections.unwrap();
    let det = areas.details.unwrap();
    assert_eq!(coll, Rect::new(2, 4, 24, 20));
    assert_eq!(areas.list, Rect::new(26, 4, 61, 20));
    assert_eq!(det, Rect::new(87, 4, 35, 20));
    assert_eq!(coll.width + areas.list.width + det.width, 120);
}

#[test]
fn test_layout_split_content_raises_undersized_request() {
    let areas = split_content(Rect::new(0, 0, 100, 10), None, Some(3));
    assert_eq!(areas.details.unwrap().width, MIN_SIDE_WIDTH);
}

#[test]
fn test_layout_split_content_trims_details_before_collections() {
    let areas = split_content(Rect::new(0, 0, 100, 10), Some(24), Some(60));
    assert_eq!(areas.collections.unwrap().width, 24);
    assert_eq!(areas.details.unwrap().width, 52);
    assert_eq!(areas.list.width, MIN_LIST_WIDTH);
}

#[test]
fn test_layout_split_content_drops_details_when_trimming_is_not_enough() {
    let areas = split_content(Rect::new(0, 0, 55, 10), Some(24), Some(20));
    assert_eq!(areas.details, None);
    assert_eq!(areas.collections.unwrap().width, 24);
    assert_eq!(areas.list.width, 31);
}

#[test]
fn test_layout_split_content_drops_both_on_a_tiny_terminal() {
    let areas = split_content(Rect::new(0, 0, 30, 10), Some(24), Some(20));
    assert_eq!(areas.collections, None);
    assert_eq!(areas.details, None);
    assert_eq!(areas.list, Rect::new(0, 0, 30, 10));
}

#[test]
fn test_layout_split_content_dividers_sit_on_the_seams() {
    let areas = split_content(Rect::new(0, 4, 120, 20), Some(24), Some(35));
    assert_eq!(areas.dividers[0], Rect::new(23, 4, 2, 20));
    assert_eq!(areas.details.unwrap().x, 85);
    assert_eq!(areas.dividers[1], Rect::new(84, 4, 2, 20));
}

#[test]
fn test_layout_split_content_hidden_panes_have_no_divider() {
    let areas = split_content(Rect::new(0, 0, 100, 10), None, Some(30));
    assert_eq!(areas.dividers[0], Rect::default());
    assert!(!hits(areas.dividers[0], 0, 0));
    assert_ne!(areas.dividers[1], Rect::default());
    let cramped = split_content(Rect::new(0, 0, 30, 10), Some(24), Some(20));
    assert_eq!(cramped.dividers, [Rect::default(), Rect::default()]);
}

#[test]
fn test_layout_split_content_without_side_panes() {
    let areas = split_content(Rect::new(0, 0, 80, 10), None, None);
    assert_eq!(areas.list, Rect::new(0, 0, 80, 10));
}

#[test]
fn test_layout_hits() {
    let rect = Rect::new(2, 2, 4, 4);
    assert!(hits(rect, 2, 2));
    assert!(hits(rect, 5, 5));
    assert!(!hits(rect, 6, 5));
    assert!(!hits(rect, 1, 2));
    assert!(!hits(Rect::default(), 0, 0));
}

#[test]
fn layout_center_rect_centres_and_shrinks() {
    assert_eq!(center_rect(20, 6, Rect::new(0, 0, 40, 12)), Rect::new(10, 3, 20, 6));
    assert_eq!(center_rect(80, 40, Rect::new(5, 5, 40, 12)), Rect::new(5, 5, 40, 12));
}

#[test]
fn layout_new_cuts_at_the_coordinate_limit() {
    let r = Rect::new(65530, 65530, 100, 100);
    assert_eq!(r.width, 5);
    assert_eq!(r.height, 5);
}

#[test]
fn layout_resize_moves_by_one_step_within_bounds() {
    assert_eq!(resized_side(48, true), 52);
    assert_eq!(resized_side(48, false), 44);
    assert_eq!(resized_side(118, true), MAX_SIDE_WIDTH);
    assert_eq!(resized_side(MAX_SIDE_WIDTH, true), MAX_SIDE_WIDTH);
    assert_eq!(resized_side(MIN_SIDE_WIDTH + 1, false), MIN_SIDE_WIDTH);
    assert_eq!(resized_side(0, false), MIN_SIDE_WIDTH);
    assert_eq!(resized_side(u16::MAX, true), MAX_SIDE_WIDTH);
}

#[test]
fn layout_resize_steps_back() {
    let w = 40;
    assert_eq!(resized_side(resized_side(w, true), false), w);
    assert_eq!(resized_side(resized_side(w, false), true), w);
    assert_eq!(RESIZE_STEP, 4);
}
