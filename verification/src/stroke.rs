//! The decision made for every stroked path: re-emit it with the page's
//! replacement width, or keep it as it is.
use vstd::prelude::*;

verus! {

/// One operation of a path, without its coordinates.
#[derive(Clone, Copy, Debug, PartialEq, Eq, Structural)]
pub enum PathOp {
    MoveTo,
    LineTo,
    CurveTo,
    Close,
    Rect,
}

/// A path encloses a region when some subpath is closed or it holds a rectangle.
pub open spec fn encloses(ops: Seq<PathOp>) -> bool {
    exists|i: int| 0 <= i < ops.len() && (ops[i] == PathOp::Close || ops[i] == PathOp::Rect)
}

/// Whether PDF can fill the path as an enclosed region: some subpath is
/// closed, or the path holds a rectangle. Open polylines and curves are not.
pub fn is_closed_fillable(ops: &Vec<PathOp>) -> (r: bool)
    ensures
        r == encloses(ops@),
{
    let mut i: usize = 0;
    while i < ops.len()
        invariant
            0 <= i <= ops.len(),
            forall|k: int| 0 <= k < i ==> ops@[k] != PathOp::Close && ops@[k] != PathOp::Rect,
        decreases ops.len() - i,
    {
        match ops[i] {
            PathOp::Close | PathOp::Rect => {
                return true;
            },
            _ => {},
        }
        i = i + 1;
    }
    false
}

/// What becomes of one stroked path.
#[derive(Clone, Copy, Debug, PartialEq, Eq, Structural)]
pub enum StrokeAction {
    /// Re-emitted with the page's replacement width.
    Substitute,
    /// Kept because it outlines a filled shape that is to be left alone.
    KeepFilledShape,
    /// Kept: the page has no replacement, or the stroke is wider than the threshold.
    Keep,
}

/// The action for one stroke, given whether its page has a replacement width,
/// whether its device-space width is at or below the threshold, whether
/// filled shapes are to be left alone, and whether its path encloses a region.
pub open spec fn stroke_action(
    has_replacement: bool,
    within_threshold: bool,
    ignore_filled_shapes: bool,
    closed_fillable: bool,
) -> StrokeAction {
    let filled_skip = ignore_filled_shapes && closed_fillable;
    if has_replacement && within_threshold && !filled_skip {
        StrokeAction::Substitute
    } else if filled_skip {
        StrokeAction::KeepFilledShape
    } else {
        StrokeAction::Keep
    }
}

/// Decides what becomes of one stroke: it is substituted exactly when its
/// page has a replacement width, it is no wider than the threshold, and it
/// is not a filled shape that is to be left alone.
pub fn decide_stroke(
    has_replacement: bool,
    within_threshold: bool,
    ignore_filled_shapes: bool,
    closed_fillable: bool,
) -> (r: StrokeAction)
    ensures
        r == stroke_action(has_replacement, within_threshold, ignore_filled_shapes, closed_fillable),
        (r == StrokeAction::Substitute) == (has_replacement && within_threshold && !(
        ignore_filled_shapes && closed_fillable)),
{
    let filled_skip = ignore_filled_shapes && closed_fillable;
    if has_replacement && within_threshold && !filled_skip {
        StrokeAction::Substitute
    } else if filled_skip {
        StrokeAction::KeepFilledShape
    } else {
        StrokeAction::Keep
    }
}

/// Only hairlines on selected pages are re-emitted: a stroke is substituted
/// only when its page has a replacement width and it is no wider than the
/// threshold, so wider strokes and strokes on pages that pass through keep
/// their geometry.
pub proof fn law_only_selected_hairlines_change(
    has_replacement: bool,
    within_threshold: bool,
    ignore_filled_shapes: bool,
    closed_fillable: bool,
)
    ensures
        stroke_action(has_replacement, within_threshold, ignore_filled_shapes, closed_fillable)
            == StrokeAction::Substitute ==> has_replacement && within_threshold,
        !ignore_filled_shapes ==> (stroke_action(
            has_replacement,
            within_threshold,
            ignore_filled_shapes,
            closed_fillable,
        ) == StrokeAction::Substitute) == (has_replacement && within_threshold),
{
}

/// Every stroke gets exactly one of the three actions: it is kept as a
/// filled shape exactly when filled shapes are to be left alone and its
/// path encloses a region; otherwise it is substituted exactly when its
/// page has a replacement width and it is no wider than the threshold, and
/// kept as it is in every other case.
pub proof fn law_stroke_actions(
    has_replacement: bool,
    within_threshold: bool,
    ignore_filled_shapes: bool,
    closed_fillable: bool,
)
    ensures
        (stroke_action(has_replacement, within_threshold, ignore_filled_shapes, closed_fillable)
            == StrokeAction::KeepFilledShape) == (ignore_filled_shapes && closed_fillable),
        (stroke_action(has_replacement, within_threshold, ignore_filled_shapes, closed_fillable)
            == StrokeAction::Substitute) == (has_replacement && within_threshold && !(
        ignore_filled_shapes && closed_fillable)),
        (stroke_action(has_replacement, within_threshold, ignore_filled_shapes, closed_fillable)
            == StrokeAction::Keep) == (!(has_replacement && within_threshold) && !(
        ignore_filled_shapes && closed_fillable)),
{
}

} // verus!
