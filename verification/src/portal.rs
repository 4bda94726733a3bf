//! Requests of the web portal: moving the view and cycling the fractal.
use vstd::prelude::*;
use vstd::string::StringExecFns;
use crate::codec::str_equals;

verus! {

/// The body of a request to move the view.
#[derive(Debug)]
pub struct DirectionQuery {
    pub direction: String,
}

/// The body of a request to cycle the fractal.
#[derive(Debug)]
pub struct CycleQuery {
    pub direction: String,
}

/// A direction the view can move in.
#[derive(Debug, Clone, Copy, PartialEq, Eq, Structural)]
pub enum Direction {
    Up,
    Right,
    Down,
    Left,
}

/// A direction the fractal can be cycled in.
#[derive(Debug, Clone, Copy, PartialEq, Eq, Structural)]
pub enum CycleDirection {
    Previous,
    Next,
}

/// Names what `str::to_lowercase` makes of a text (its Unicode lowercase
/// mapping).
pub uninterp spec fn lowercase(text: Seq<char>) -> Seq<char>;

/// The lowercase form of `text` (`str::to_lowercase`).
#[verifier::external_body]
fn to_lowercase(text: &str) -> (lower: String)
    ensures
        lower@ == lowercase(text@),
{
    text.to_lowercase()
}

/// The direction that a lowercase name stands for.
pub open spec fn direction_named(name: Seq<char>) -> Option<Direction> {
    if name == "up"@ {
        Some(Direction::Up)
    } else if name == "right"@ {
        Some(Direction::Right)
    } else if name == "down"@ {
        Some(Direction::Down)
    } else if name == "left"@ {
        Some(Direction::Left)
    } else {
        None
    }
}

/// The direction that the lowercase name `name` stands for, if any.
pub fn parse_direction(name: &str) -> (d: Option<Direction>)
    ensures
        d == direction_named(name@),
{
    if str_equals(name, "up") {
        Some(Direction::Up)
    } else if str_equals(name, "right") {
        Some(Direction::Right)
    } else if str_equals(name, "down") {
        Some(Direction::Down)
    } else if str_equals(name, "left") {
        Some(Direction::Left)
    } else {
        None
    }
}

/// The cycling direction that a lowercase name stands for: `previous` goes
/// back, anything else goes forward.
pub fn parse_cycle_direction(name: &str) -> (d: CycleDirection)
    ensures
        d == if name@ == "previous"@ {
            CycleDirection::Previous
        } else {
            CycleDirection::Next
        },
{
    if str_equals(name, "previous") {
        CycleDirection::Previous
    } else {
        CycleDirection::Next
    }
}

/// The answer to a request to move in an unknown direction.
pub fn unsupported_direction_message(direction: &str) -> (message: String)
    ensures
        message@ == "The direction "@ + direction@
            + " is not supported, please enter one of `top`, `left`, `right`, `bottom`."@,
{
    let mut message = "The direction ".to_owned();
    message.append(direction);
    message.append(" is not supported, please enter one of `top`, `left`, `right`, `bottom`.");
    message
}

impl DirectionQuery {
    /// The direction asked for, matched without regard to case.
    pub fn requested_direction(&self) -> (d: Option<Direction>)
        ensures
            d == direction_named(lowercase(self.direction@)),
    {
        let lower = to_lowercase(self.direction.as_str());
        parse_direction(lower.as_str())
    }
}

impl CycleQuery {
    /// The cycling direction asked for, matched without regard to case.
    pub fn requested_cycle(&self) -> (d: CycleDirection)
        ensures
            d == if lowercase(self.direction@) == "previous"@ {
                CycleDirection::Previous
            } else {
                CycleDirection::Next
            },
    {
        let lower = to_lowercase(self.direction.as_str());
        parse_cycle_direction(lower.as_str())
    }
}

} // verus!
