use vstd::prelude::*;

verus! {

/// One report of a mouse: button state and relative motion.
#[derive(Clone, Copy, Debug, PartialEq, Eq, Structural)]
pub struct MouseEvent {
    pub buttons: u8,
    pub displacement_x: i8,
    pub displacement_y: i8,
}

impl MouseEvent {
    pub fn new(buttons: u8, displacement_x: i8, displacement_y: i8) -> (r: Self)
        ensures
            r == (MouseEvent { buttons, displacement_x, displacement_y }),
    {
        MouseEvent { buttons, displacement_x, displacement_y }
    }
}

/// `x` kept within `0..=limit`.
pub open spec fn clamp(x: int, limit: int) -> int {
    if x < 0 {
        0
    } else if x > limit {
        limit
    } else {
        x
    }
}

/// One coordinate moved by `delta` and kept within `0..=limit`.
pub fn move_coordinate(current: usize, delta: i8, limit: usize) -> (r: usize)
    ensures
        r == clamp(current + delta, limit as int),
{
    if delta < 0 {
        let back = (-(delta as i16)) as usize;
        if current < back {
            0
        } else if current - back > limit {
            limit
        } else {
            current - back
        }
    } else {
        let forward = delta as usize;
        if current > limit || limit - current < forward {
            limit
        } else {
            current + forward
        }
    }
}

/// The cursor position after `event`, starting at `current`: each
/// coordinate moves by the event's displacement and is kept within
/// `0..=limit`.
pub fn move_position(current: (usize, usize), event: &MouseEvent, limit: (usize, usize)) -> (r: (
    usize,
    usize,
))
    ensures
        r.0 == clamp(current.0 + event.displacement_x, limit.0 as int),
        r.1 == clamp(current.1 + event.displacement_y, limit.1 as int),
{
    (
        move_coordinate(current.0, event.displacement_x, limit.0),
        move_coordinate(current.1, event.displacement_y, limit.1),
    )
}

} // verus!
