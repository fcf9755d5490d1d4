//! The highlight frame drawn around an element: four thin bars along the
//! edges of its rectangle.

use vstd::prelude::*;
use crate::models::RectDto;

verus! {

/// The thickness of each bar of the frame.
pub const FRAME_SIZE: i32 = 3;

/// One bar of the frame: position and size.
#[derive(Debug, Clone, Copy, PartialEq, Eq, Structural)]
pub struct FramePiece {
    pub x: i32,
    pub y: i32,
    pub width: i32,
    pub height: i32,
}

/// What showing the frame around a rectangle does with the frame windows.
#[derive(Debug)]
pub enum OverlayPlan {
    /// The rectangle is empty: the frame is hidden.
    Hide,
    /// The frame windows are (re)created at these places, after any old ones
    /// are destroyed.
    Create(Vec<FramePiece>),
    /// The four existing frame windows move to these places.
    Move(Vec<FramePiece>),
}

/// The bars can be computed without overflow.
pub open spec fn frame_fits(r: RectDto) -> bool {
    &&& i32::MIN <= r.x + r.width <= i32::MAX
    &&& i32::MIN <= r.y + r.height <= i32::MAX
    &&& i32::MIN <= r.x + r.width - FRAME_SIZE
    &&& i32::MIN <= r.y + r.height - FRAME_SIZE
}

/// The four bars around `r`: top, bottom, left, right.
pub open spec fn frame_of(r: RectDto) -> Seq<FramePiece> {
    seq![
        FramePiece { x: r.x, y: r.y, width: r.width, height: FRAME_SIZE },
        FramePiece { x: r.x, y: (r.y + r.height - FRAME_SIZE) as i32, width: r.width, height: FRAME_SIZE },
        FramePiece { x: r.x, y: r.y, width: FRAME_SIZE, height: r.height },
        FramePiece { x: (r.x + r.width - FRAME_SIZE) as i32, y: r.y, width: FRAME_SIZE, height: r.height },
    ]
}

/// The four bars of the frame around `rect`.
pub fn frame_pieces(rect: &RectDto) -> (res: Vec<FramePiece>)
    requires
        frame_fits(*rect),
    ensures
        res@ == frame_of(*rect),
{
    let mut res: Vec<FramePiece> = Vec::new();
    res.push(FramePiece { x: rect.x, y: rect.y, width: rect.width, height: FRAME_SIZE });
    res.push(
        FramePiece {
            x: rect.x,
            y: rect.y + rect.height - FRAME_SIZE,
            width: rect.width,
            height: FRAME_SIZE,
        },
    );
    res.push(FramePiece { x: rect.x, y: rect.y, width: FRAME_SIZE, height: rect.height });
    res.push(
        FramePiece {
            x: rect.x + rect.width - FRAME_SIZE,
            y: rect.y,
            width: FRAME_SIZE,
            height: rect.height,
        },
    );
    assert(res@ =~= frame_of(*rect));
    res
}

/// What showing the frame around `rect` does, when `window_count` frame
/// windows exist: an empty rectangle hides the frame; four existing windows
/// are moved; otherwise the windows are created anew.
pub fn overlay_plan(rect: &RectDto, window_count: usize) -> (res: OverlayPlan)
    requires
        rect.width > 0 && rect.height > 0 ==> frame_fits(*rect),
    ensures
        rect.width <= 0 || rect.height <= 0 ==> res is Hide,
        rect.width > 0 && rect.height > 0 && window_count == 4 ==> (res matches OverlayPlan::Move(
            p,
        ) && p@ == frame_of(*rect)),
        rect.width > 0 && rect.height > 0 && window_count != 4 ==> (res matches OverlayPlan::Create(
            p,
        ) && p@ == frame_of(*rect)),
{
    if rect.width <= 0 || rect.height <= 0 {
        return OverlayPlan::Hide;
    }
    let pieces = frame_pieces(rect);
    if window_count != 4 {
        OverlayPlan::Create(pieces)
    } else {
        OverlayPlan::Move(pieces)
    }
}

} // verus!
