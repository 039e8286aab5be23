//! Screen geometry: centring popups, splitting the content row into panes,
//! and hit-testing the pointer.
use vstd::prelude::*;

verus! {

/// A rectangle of terminal cells.
#[derive(Clone, Copy, Debug, Default, PartialEq, Eq, Structural)]
pub struct Rect {
    pub x: u16,
    pub y: u16,
    pub width: u16,
    pub height: u16,
}

/// Columns the command list keeps for itself before a side pane may have any.
pub const MIN_LIST_WIDTH: u16 = 24;

/// Narrowest a side pane may be and still be worth drawing.
pub const MIN_SIDE_WIDTH: u16 = 16;

/// Columns one press of `<` or `>` moves a pane border by.
pub const RESIZE_STEP: u16 = 4;

/// The widest a side pane is made from the keyboard.
pub const MAX_SIDE_WIDTH: u16 = 120;

/// The width of a side pane after one press of `>` (`grow`) or `<`: a step
/// wider, but no wider than `MAX_SIDE_WIDTH`; or a step narrower, but no
/// narrower than `MIN_SIDE_WIDTH`.
pub open spec fn resized_spec(width: u16, grow: bool) -> int {
    if grow {
        if width + RESIZE_STEP > MAX_SIDE_WIDTH {
            MAX_SIDE_WIDTH as int
        } else {
            width + RESIZE_STEP
        }
    } else {
        if width < MIN_SIDE_WIDTH + RESIZE_STEP {
            MIN_SIDE_WIDTH as int
        } else {
            width - RESIZE_STEP
        }
    }
}

/// Moves a side pane's border by one step.
pub fn resized_side(width: u16, grow: bool) -> (r: u16)
    ensures
        r == resized_spec(width, grow),
        MIN_SIDE_WIDTH <= width <= MAX_SIDE_WIDTH ==> MIN_SIDE_WIDTH <= r <= MAX_SIDE_WIDTH,
{
    if grow {
        if width > MAX_SIDE_WIDTH - RESIZE_STEP {
            MAX_SIDE_WIDTH
        } else {
            width + RESIZE_STEP
        }
    } else {
        if width < MIN_SIDE_WIDTH + RESIZE_STEP {
            MIN_SIDE_WIDTH
        } else {
            width - RESIZE_STEP
        }
    }
}

/// Within the bounds, one step narrower undoes one step wider, and one
/// step wider undoes one step narrower.
pub proof fn law_resize_steps_back(width: u16)
    ensures
        MIN_SIDE_WIDTH <= width && width + RESIZE_STEP <= MAX_SIDE_WIDTH
            ==> resized_spec(resized_spec(width, true) as u16, false) == width,
        MIN_SIDE_WIDTH + RESIZE_STEP <= width <= MAX_SIDE_WIDTH
            ==> resized_spec(resized_spec(width, false) as u16, true) == width,
{
}

pub open spec fn min_u16(a: u16, b: u16) -> u16 {
    if a < b {
        a
    } else {
        b
    }
}

pub open spec fn max_u16(a: u16, b: u16) -> u16 {
    if a > b {
        a
    } else {
        b
    }
}

pub open spec fn sat_sub(a: u16, b: u16) -> u16 {
    if a > b {
        (a - b) as u16
    } else {
        0
    }
}

/// A rectangle whose width and height are cut so it ends within the screen's
/// coordinate range.
pub open spec fn rect_of(x: u16, y: u16, width: u16, height: u16) -> Rect {
    Rect {
        x,
        y,
        width: min_u16(width, (u16::MAX - x) as u16),
        height: min_u16(height, (u16::MAX - y) as u16),
    }
}

/// The rectangle ends within the coordinate range, as every one made by
/// `Rect::new` does.
pub open spec fn fits(r: Rect) -> bool {
    r.x + r.width <= u16::MAX && r.y + r.height <= u16::MAX
}

pub open spec fn sat_add(a: u16, b: u16) -> int {
    if a + b > u16::MAX {
        u16::MAX as int
    } else {
        a + b
    }
}

/// Whether the cell `(x, y)` lies in the rectangle, whose right and bottom
/// edges are cut at the end of the coordinate range.
pub open spec fn rect_contains(r: Rect, x: u16, y: u16) -> bool {
    r.x <= x && x < sat_add(r.x, r.width) && r.y <= y && y < sat_add(r.y, r.height)
}

impl Rect {
    /// A rectangle, with width and height cut to end within the coordinate
    /// range.
    pub fn new(x: u16, y: u16, width: u16, height: u16) -> (r: Rect)
        ensures
            r == rect_of(x, y, width, height),
            fits(r),
    {
        let max_width = u16::MAX - x;
        let max_height = u16::MAX - y;
        let width = if width > max_width {
            max_width
        } else {
            width
        };
        let height = if height > max_height {
            max_height
        } else {
            height
        };
        Rect { x, y, width, height }
    }

    /// The empty rectangle at the origin.
    pub fn empty() -> (r: Rect)
        ensures
            r == (Rect { x: 0, y: 0, width: 0, height: 0 }),
    {
        Rect { x: 0, y: 0, width: 0, height: 0 }
    }
}

/// `width`×`height` centred in `area`, and no larger than it.
pub open spec fn centered(width: u16, height: u16, area: Rect) -> Rect {
    let vy = (area.y + sat_sub(area.height, height) / 2) as u16;
    let vertical = rect_of(area.x, vy, min_u16(area.width, width), min_u16(height, area.height));
    rect_of(
        (area.x + sat_sub(area.width, width) / 2) as u16,
        vertical.y,
        vertical.width,
        vertical.height,
    )
}

pub fn center_rect(width: u16, height: u16, area: Rect) -> (r: Rect)
    requires
        fits(area),
    ensures
        r == centered(width, height, area),
{
    let dy = if area.height > height {
        area.height - height
    } else {
        0
    };
    let vw = if area.width < width {
        area.width
    } else {
        width
    };
    let vh = if height < area.height {
        height
    } else {
        area.height
    };
    let vertical = Rect::new(area.x, area.y + dy / 2, vw, vh);
    let dx = if area.width > width {
        area.width - width
    } else {
        0
    };
    Rect::new(area.x + dx / 2, vertical.y, vertical.width, vertical.height)
}

/// The horizontal split of the content row.
#[derive(Clone, Copy, Debug, Default, PartialEq, Eq)]
pub struct ContentAreas {
    pub collections: Option<Rect>,
    pub list: Rect,
    pub details: Option<Rect>,
    /// Grab targets for resizing: the seam after the collections pane and
    /// the one after the list. A pane not shown leaves an empty rectangle.
    pub dividers: [Rect; 2],
}

/// The two-column seam where a pane's right border meets the next pane.
pub open spec fn seam_of(left: Rect) -> Rect {
    rect_of((left.x + sat_sub(left.width, 1)) as u16, left.y, 2, left.height)
}

fn seam(left: Rect) -> (r: Rect)
    requires
        fits(left),
    ensures
        r == seam_of(left),
{
    let w = if left.width > 1 {
        left.width - 1
    } else {
        0
    };
    Rect::new(left.x + w, left.y, 2, left.height)
}

pub open spec fn width_or_zero(w: Option<u16>) -> int {
    match w {
        Some(v) => v as int,
        None => 0,
    }
}

/// Columns the side panes must give back for the list to keep its minimum.
pub open spec fn shortfall_spec(total: u16, collections: Option<u16>, details: Option<u16>) -> int {
    let need = width_or_zero(collections) + width_or_zero(details) + MIN_LIST_WIDTH;
    if need > total {
        need - total
    } else {
        0
    }
}

fn shortfall(total: u16, collections: Option<u16>, details: Option<u16>) -> (r: u16)
    requires
        width_or_zero(collections) + width_or_zero(details) + MIN_LIST_WIDTH <= u16::MAX,
    ensures
        r == shortfall_spec(total, collections, details),
{
    let side = match collections {
        Some(w) => w,
        None => 0,
    } + match details {
        Some(w) => w,
        None => 0,
    };
    let need = side + MIN_LIST_WIDTH;
    if need > total {
        need - total
    } else {
        0
    }
}

/// What one pane gives back toward `over`, down to its minimum.
pub open spec fn give(over: int, w: Option<u16>) -> int {
    match w {
        Some(v) => {
            let spare = if v > MIN_SIDE_WIDTH {
                v - MIN_SIDE_WIDTH
            } else {
                0
            };
            if over < spare {
                over
            } else {
                spare
            }
        },
        None => 0,
    }
}

pub open spec fn shrunk(w: Option<u16>, by: int) -> Option<u16> {
    match w {
        Some(v) => Some((v - by) as u16),
        None => None,
    }
}

/// Shrinking the side panes toward their minimum, details first, until the
/// list has its own: whether that was enough, and the widths after.
pub open spec fn trimmed(total: u16, collections: Option<u16>, details: Option<u16>) -> (bool, Option<u16>, Option<u16>) {
    let over = shortfall_spec(total, collections, details);
    let gd = give(over, details);
    let gc = give(over - gd, collections);
    (over - gd - gc == 0, shrunk(collections, gc), shrunk(details, gd))
}

fn trim_to_fit(total: u16, collections: &mut Option<u16>, details: &mut Option<u16>) -> (r: bool)
    requires
        width_or_zero(*old(collections)) + width_or_zero(*old(details)) + MIN_LIST_WIDTH <= u16::MAX,
    ensures
        (r, *final(collections), *final(details)) == trimmed(total, *old(collections), *old(details)),
{
    let mut over = shortfall(total, *collections, *details);
    if over > 0 {
        if let Some(w) = *details {
            let spare = if w > MIN_SIDE_WIDTH {
                w - MIN_SIDE_WIDTH
            } else {
                0
            };
            let g = if over < spare {
                over
            } else {
                spare
            };
            *details = Some(w - g);
            over = over - g;
        }
    }
    if over > 0 {
        if let Some(w) = *collections {
            let spare = if w > MIN_SIDE_WIDTH {
                w - MIN_SIDE_WIDTH
            } else {
                0
            };
            let g = if over < spare {
                over
            } else {
                spare
            };
            *collections = Some(w - g);
            over = over - g;
        }
    }
    over == 0
}

pub open spec fn raised(w: Option<u16>) -> Option<u16> {
    match w {
        Some(v) => Some(max_u16(v, MIN_SIDE_WIDTH)),
        None => None,
    }
}

/// The side-pane widths after trimming: both kept if trimming pays for the
/// list; else details dropped and collections tried again from its
/// requested width; else both dropped.
pub open spec fn pane_widths(total: u16, collections: Option<u16>, details: Option<u16>) -> (Option<u16>, Option<u16>) {
    let first = trimmed(total, raised(collections), raised(details));
    if first.0 {
        (first.1, first.2)
    } else {
        let second = trimmed(total, raised(collections), None);
        if second.0 {
            (second.1, None)
        } else {
            (None, None)
        }
    }
}

/// The content row laid out from the requested side-pane widths, in
/// columns; `None` is a pane not shown.
pub open spec fn content_areas(area: Rect, collections: Option<u16>, details: Option<u16>) -> ContentAreas {
    let w = pane_widths(area.width, collections, details);
    let cw = width_or_zero(w.0);
    let dw = width_or_zero(w.1);
    let lw = if cw + dw < area.width {
        area.width - cw - dw
    } else {
        0
    };
    let coll = match w.0 {
        Some(v) => Some(rect_of(area.x, area.y, v, area.height)),
        None => None,
    };
    let list = rect_of((area.x + cw) as u16, area.y, lw as u16, area.height);
    let det = match w.1 {
        Some(v) => Some(rect_of((area.x + cw + lw) as u16, area.y, v, area.height)),
        None => None,
    };
    ContentAreas {
        collections: coll,
        list,
        details: det,
        dividers: [
            match coll {
                Some(c) => seam_of(c),
                None => Rect { x: 0, y: 0, width: 0, height: 0 },
            },
            match det {
                Some(_) => seam_of(list),
                None => Rect { x: 0, y: 0, width: 0, height: 0 },
            },
        ],
    }
}

fn widths(total: u16, collections: Option<u16>, details: Option<u16>) -> (r: (Option<u16>, Option<u16>))
    requires
        width_or_zero(raised(collections)) + width_or_zero(raised(details)) + MIN_LIST_WIDTH <= u16::MAX,
    ensures
        r == pane_widths(total, collections, details),
{
    let req_coll = match collections {
        Some(w) => Some(if w > MIN_SIDE_WIDTH {
            w
        } else {
            MIN_SIDE_WIDTH
        }),
        None => None,
    };
    let req_det = match details {
        Some(w) => Some(if w > MIN_SIDE_WIDTH {
            w
        } else {
            MIN_SIDE_WIDTH
        }),
        None => None,
    };
    let mut coll = req_coll;
    let mut det = req_det;
    if !trim_to_fit(total, &mut coll, &mut det) {
        det = None;
        coll = req_coll;
        if !trim_to_fit(total, &mut coll, &mut det) {
            coll = None;
        }
    }
    (coll, det)
}

/// Lays out the content row. A side pane that cannot keep its minimum
/// without pushing the list under its own is trimmed, and dropped only when
/// trimming is not enough, details first.
pub fn split_content(area: Rect, collections: Option<u16>, details: Option<u16>) -> (r: ContentAreas)
    requires
        fits(area),
        width_or_zero(raised(collections)) + width_or_zero(raised(details)) + MIN_LIST_WIDTH <= u16::MAX,
    ensures
        r.collections == content_areas(area, collections, details).collections,
        r.list == content_areas(area, collections, details).list,
        r.details == content_areas(area, collections, details).details,
        r.dividers[0] == content_areas(area, collections, details).dividers[0],
        r.dividers[1] == content_areas(area, collections, details).dividers[1],
{
    let (coll, det) = widths(area.width, collections, details);
    let cw: u16 = match coll {
        Some(w) => w,
        None => 0,
    };
    let dw: u16 = match det {
        Some(w) => w,
        None => 0,
    };
    let side = cw + dw;
    let lw = if side < area.width {
        area.width - side
    } else {
        0
    };
    let coll_rect = match coll {
        Some(w) => Some(Rect::new(area.x, area.y, w, area.height)),
        None => None,
    };
    let list = Rect::new(area.x + cw, area.y, lw, area.height);
    let det_rect = match det {
        Some(w) => Some(Rect::new(area.x + cw + lw, area.y, w, area.height)),
        None => None,
    };
    let d0 = match coll_rect {
        Some(c) => seam(c),
        None => Rect::empty(),
    };
    let d1 = match det_rect {
        Some(_) => seam(list),
        None => Rect::empty(),
    };
    ContentAreas { collections: coll_rect, list, details: det_rect, dividers: [d0, d1] }
}


/// The panes of the content row sit side by side and fill it exactly; a side
/// pane that is shown keeps its minimum width, and then so does the list.
pub proof fn law_panes_fill_the_row(area: Rect, collections: Option<u16>, details: Option<u16>)
    requires
        fits(area),
        width_or_zero(raised(collections)) + width_or_zero(raised(details)) + MIN_LIST_WIDTH <= u16::MAX,
    ensures
        ({
            let a = content_areas(area, collections, details);
            let w = pane_widths(area.width, collections, details);
            &&& width_or_zero(w.0) + a.list.width + width_or_zero(w.1) == area.width
            &&& a.list.x == area.x + width_or_zero(w.0)
            &&& (a.details matches Some(d) ==> d.x == a.list.x + a.list.width)
            &&& (w.0 matches Some(c) ==> c >= MIN_SIDE_WIDTH)
            &&& (w.1 matches Some(d) ==> d >= MIN_SIDE_WIDTH)
            &&& (w.0 is Some || w.1 is Some) ==> a.list.width >= MIN_LIST_WIDTH
        }),
{
}

/// The item under row `y` of a bordered list scrolled by `offset` and
/// holding `len` items, or `None` on a border, outside, or past the last
/// item (an empty list's placeholder row is no item).
pub open spec fn row_at(area: Rect, offset: int, y: u16, len: int) -> Option<int> {
    if len == 0 || area.y + 1 > u16::MAX || area.y + area.height < 1 {
        None
    } else {
        let top = area.y + 1;
        let bottom = (if area.y + area.height > u16::MAX {
            u16::MAX as int
        } else {
            area.y + area.height
        }) - 1;
        if y < top || y >= bottom {
            None
        } else if offset + (y - top) < len {
            Some(offset + (y - top))
        } else {
            None
        }
    }
}

pub fn row_index(area: Rect, offset: usize, y: u16, len: usize) -> (r: Option<usize>)
    requires
        offset + u16::MAX <= usize::MAX,
    ensures
        match row_at(area, offset as int, y, len as int) {
            Some(i) => r == Some(i as usize),
            None => r is None,
        },
{
    if len == 0 {
        return None;
    }
    if area.y == u16::MAX {
        return None;
    }
    let inner_top = area.y + 1;
    let end: u16 = if area.height > u16::MAX - area.y {
        u16::MAX
    } else {
        area.y + area.height
    };
    if end == 0 {
        return None;
    }
    let inner_bottom = end - 1;
    if y < inner_top || y >= inner_bottom {
        return None;
    }
    let index = offset + (y - inner_top) as usize;
    if index < len {
        Some(index)
    } else {
        None
    }
}

/// A `width`×`height` rectangle at `(x, y)`, flipped above or left of the
/// pointer when there is no room after it, then kept inside `area`.
pub open spec fn anchored(x: u16, y: u16, width: u16, height: u16, area: Rect) -> Rect {
    let w = min_u16(width, area.width);
    let h = min_u16(height, area.height);
    let left = if x + w > area.x + area.width {
        sat_sub(x, w)
    } else {
        x
    };
    let top = if y + h > area.y + area.height {
        sat_sub(y, h)
    } else {
        y
    };
    let max_left = (area.x + area.width - w) as u16;
    let max_top = (area.y + area.height - h) as u16;
    let l = if left < area.x {
        area.x
    } else if left > max_left {
        max_left
    } else {
        left
    };
    let t = if top < area.y {
        area.y
    } else if top > max_top {
        max_top
    } else {
        top
    };
    rect_of(l, t, w, h)
}

pub fn anchor_rect(x: u16, y: u16, width: u16, height: u16, area: Rect) -> (r: Rect)
    requires
        fits(area),
        x + min_u16(width, area.width) <= u16::MAX,
        y + min_u16(height, area.height) <= u16::MAX,
    ensures
        r == anchored(x, y, width, height, area),
{
    let width = if width < area.width {
        width
    } else {
        area.width
    };
    let height = if height < area.height {
        height
    } else {
        area.height
    };
    let mut left = if x + width > area.x + area.width {
        if x > width {
            x - width
        } else {
            0
        }
    } else {
        x
    };
    let mut top = if y + height > area.y + area.height {
        if y > height {
            y - height
        } else {
            0
        }
    } else {
        y
    };
    let max_left = area.x + area.width - width;
    let max_top = area.y + area.height - height;
    left = if left < area.x {
        area.x
    } else if left > max_left {
        max_left
    } else {
        left
    };
    top = if top < area.y {
        area.y
    } else if top > max_top {
        max_top
    } else {
        top
    };
    Rect::new(left, top, width, height)
}

/// Whether the cell `(x, y)` falls inside `rect`.
pub fn hits(rect: Rect, x: u16, y: u16) -> (r: bool)
    ensures
        r == rect_contains(rect, x, y),
{
    let right: u16 = if rect.width > u16::MAX - rect.x {
        u16::MAX
    } else {
        rect.x + rect.width
    };
    let bottom: u16 = if rect.height > u16::MAX - rect.y {
        u16::MAX
    } else {
        rect.y + rect.height
    };
    x >= rect.x && x < right && y >= rect.y && y < bottom
}

} // verus!
