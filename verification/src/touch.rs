//! Touchscreen sampling and two-finger gesture recognition.
//!
//! The video core fills a buffer with raw touch points and the driver polls
//! it from an interrupt handler.  Everything here works on whole numbers:
//! coordinates are counted in steps of which [`UNIT`] make up the shorter
//! side of the sensor, and what the recognizer reports is left unscaled, so
//! that no rounding takes part in a decision.

use vstd::prelude::*;

verus! {

/// Interrupt line that announces new touch data.  The touchscreen has no
/// line of its own and shares the one of the video core.
pub const TOUCH_IRQ: u32 = 142;

/// Maximum number of touch points tracked by the video core.
pub const MAX_POINTS: usize = 10;

/// Point count that marks the buffer as consumed.  The video core only
/// writes a buffer in this state.
pub const INVALID_POINTS: u8 = 99;

/// Width of the sensor in raw coordinates.
pub const WIDTH: i16 = 800;

/// Height of the sensor in raw coordinates.
pub const HEIGHT: i16 = 480;

/// Number of steps that make up one unit of length: the shorter side of the
/// sensor.
pub const UNIT: i16 = HEIGHT;

/// A touch point as the video core lays it out.
#[derive(Clone, Copy, Debug, PartialEq, Eq)]
pub struct Point {
    /// Most significant byte of the horizontal coordinate.
    pub x_msb: u8,
    /// Least significant byte of the horizontal coordinate.
    pub x_lsb: u8,
    /// Most significant byte of the vertical coordinate.
    pub y_msb: u8,
    /// Least significant byte of the vertical coordinate.
    pub y_lsb: u8,
    /// Touch force (unused).
    pub force: u8,
    /// Touch area (unused).
    pub area: u8,
}

/// Contents of the touch buffer shared with the video core.
#[derive(Clone, Copy, Debug, PartialEq, Eq)]
pub struct State {
    /// Device mode (unused).
    pub mode: u8,
    /// Gesture identifier (unused).
    pub gesture: u8,
    /// Number of valid entries in `points`.
    pub points_len: u8,
    /// Touch points.
    pub points: [Point; MAX_POINTS],
}

/// Position of a finger, in steps from the centre of the sensor.
#[derive(Clone, Copy, Debug, PartialEq, Eq, Structural)]
pub struct Contact {
    /// Horizontal position.
    pub x: i16,
    /// Vertical position.
    pub y: i16,
}

/// Difference of two positions.
#[derive(Clone, Copy, Debug, PartialEq, Eq, Structural)]
pub struct Offset {
    /// Horizontal component.
    pub dx: i32,
    /// Vertical component.
    pub dy: i32,
}

/// A rotation in the plane of the sensor, given by a direction and what the
/// rotation turns it into.  Only the directions of the two offsets count,
/// not their lengths.
#[derive(Clone, Copy, Debug, PartialEq, Eq, Structural)]
pub struct Turn {
    /// Direction before the rotation.
    pub from: Offset,
    /// Direction after the rotation.
    pub to: Offset,
}

/// The ten-bit raw coordinate held in a pair of bytes: the low two bits of
/// `msb` above the eight bits of `lsb`.
pub open spec fn raw_coordinate(msb: u8, lsb: u8) -> int {
    (msb % 4) * 256 + lsb
}

/// A raw coordinate along a side of the given length, in steps from the
/// centre of that side.
pub open spec fn centred(raw: int, side: int) -> int {
    2 * raw - side
}

/// Reads the ten-bit coordinate out of a pair of bytes.
fn coordinate(msb: u8, lsb: u8) -> (raw: i16)
    ensures
        raw == raw_coordinate(msb, lsb),
{
    let raw: i16 = (lsb as i16) | (((msb as i16) & 0x3) << 8);
    assert(((lsb as i16) | (((msb as i16) & 0x3) << 8)) == (msb % 4) * 256 + lsb) by (bit_vector);
    raw
}

impl Point {
    /// Where the finger is, in steps from the centre of the sensor.
    pub open spec fn spec_contact(self) -> Contact {
        Contact {
            x: centred(raw_coordinate(self.x_msb, self.x_lsb), WIDTH as int) as i16,
            y: centred(raw_coordinate(self.y_msb, self.y_lsb), HEIGHT as int) as i16,
        }
    }

    /// Where the finger is, in steps from the centre of the sensor.
    #[verifier::when_used_as_spec(spec_contact)]
    pub fn contact(self) -> (c: Contact)
        ensures
            c == self.spec_contact(),
            -(WIDTH as int) <= c.x < 2 * 1024 - WIDTH,
            -(HEIGHT as int) <= c.y < 2 * 1024 - HEIGHT,
    {
        let x: i16 = coordinate(self.x_msb, self.x_lsb);
        let y: i16 = coordinate(self.y_msb, self.y_lsb);
        Contact { x: x * 2 - WIDTH, y: y * 2 - HEIGHT }
    }
}

/// The pair of contacts that a poll leaves behind, given the pair saved
/// before it and the buffer that it finds.
pub open spec fn polled(saved: Option<(Contact, Contact)>, state: State) -> Option<
    (Contact, Contact),
> {
    if state.points_len > MAX_POINTS {
        saved
    } else if state.points_len == 2 {
        Some((state.points[0].contact(), state.points[1].contact()))
    } else {
        None
    }
}

/// The buffer that a poll leaves behind: untouched while the video core is
/// still writing it, marked as consumed otherwise.
pub open spec fn released(state: State) -> State {
    if state.points_len > MAX_POINTS {
        state
    } else {
        State { points_len: INVALID_POINTS, ..state }
    }
}

/// Touchscreen driver state.
#[derive(Clone, Copy, Debug)]
pub struct Touch {
    /// The two contacts of the latest two-finger sample, if the latest
    /// sample had two fingers.
    saved: Option<(Contact, Contact)>,
}

impl Touch {
    /// The two contacts of the latest two-finger sample.
    pub closed spec fn view(&self) -> Option<(Contact, Contact)> {
        self.saved
    }

    /// Creates the driver state and marks `state`, the buffer that is about
    /// to be handed to the video core, as consumed.
    pub fn new(state: &mut State) -> (touch: Self)
        ensures
            touch@ is None,
            *final(state) == (State { points_len: INVALID_POINTS, ..*old(state) }),
    {
        state.points_len = INVALID_POINTS;
        Touch { saved: None }
    }

    /// The two contacts of the latest two-finger sample.
    pub fn saved(&self) -> (saved: Option<(Contact, Contact)>)
        ensures
            saved == self@,
    {
        self.saved
    }

    /// Polls the touch buffer.
    ///
    /// A point count above [`MAX_POINTS`] means that the video core has not
    /// finished writing: nothing changes.  Otherwise the buffer is handed
    /// back to the video core and the saved pair is replaced: by the first
    /// two points if exactly two fingers touch the sensor, by nothing
    /// otherwise.
    pub fn poll(&mut self, state: &mut State)
        ensures
            final(self)@ == polled(old(self)@, *old(state)),
            *final(state) == released(*old(state)),
    {
        let seen: State = *state;
        if seen.points_len as usize > MAX_POINTS {
            return ;
        }
        state.points_len = INVALID_POINTS;
        if seen.points_len != 2 {
            self.saved = None;
            return ;
        }
        self.saved = Some((seen.points[0].contact(), seen.points[1].contact()));
    }
}

/// Squared distance between two contacts, in squared steps.
pub open spec fn sq_distance(a: Contact, b: Contact) -> int {
    (a.x - b.x) * (a.x - b.x) + (a.y - b.y) * (a.y - b.y)
}

/// The new pair in the order of the old one: its first contact is the one
/// at least as close to the old first contact as the other is.
pub open spec fn paired(old: (Contact, Contact), new: (Contact, Contact)) -> (Contact, Contact) {
    if sq_distance(old.0, new.0) <= sq_distance(old.0, new.1) {
        new
    } else {
        (new.1, new.0)
    }
}

/// Twice the offset from the midpoint of `old` to the midpoint of `new`.
pub open spec fn shift(old: (Contact, Contact), new: (Contact, Contact)) -> Offset {
    Offset {
        dx: ((new.0.x + new.1.x) - (old.0.x + old.1.x)) as i32,
        dy: ((new.0.y + new.1.y) - (old.0.y + old.1.y)) as i32,
    }
}

/// The offset from the first contact of a pair to the second.
pub open spec fn span(pair: (Contact, Contact)) -> Offset {
    Offset { dx: (pair.1.x - pair.0.x) as i32, dy: (pair.1.y - pair.0.y) as i32 }
}

/// The rotation that turns the line through `old` into the line through
/// `new`.
pub open spec fn turn(old: (Contact, Contact), new: (Contact, Contact)) -> Turn {
    Turn { from: span(old), to: span(new) }
}

/// Computes the squared distance between two contacts.
fn measure(a: Contact, b: Contact) -> (d: i64)
    ensures
        d == sq_distance(a, b),
{
    let dx: i64 = a.x as i64 - b.x as i64;
    let dy: i64 = a.y as i64 - b.y as i64;
    assert(0 <= dx * dx <= 0xFFFF * 0xFFFF) by (nonlinear_arith)
        requires
            -0xFFFF <= dx <= 0xFFFF,
    ;
    assert(0 <= dy * dy <= 0xFFFF * 0xFFFF) by (nonlinear_arith)
        requires
            -0xFFFF <= dy <= 0xFFFF,
    ;
    dx * dx + dy * dy
}

/// Two-finger gesture recognizer: what moved and turned between the two
/// latest samples.
#[derive(Clone, Copy, Debug)]
pub struct Recognizer {
    /// Last saved sample.
    saved: Option<(Contact, Contact)>,
    /// Movement of the midpoint between the fingers since the sample before,
    /// in half steps.
    pub trans: Offset,
    /// Rotation of the line through the fingers since the sample before;
    /// `None` stands for no rotation.
    pub rot: Option<Turn>,
}

impl Recognizer {
    /// The sample that the next one is compared with.
    pub closed spec fn last(&self) -> Option<(Contact, Contact)> {
        self.saved
    }

    /// The movement that the recognizer reports.
    pub closed spec fn spec_translated(&self) -> Offset {
        self.trans
    }

    /// The rotation that the recognizer reports.
    pub closed spec fn spec_rotated(&self) -> Option<Turn> {
        self.rot
    }

    /// The recognizer's state after it has sampled `seen`.
    pub open spec fn sampled(self, seen: Option<(Contact, Contact)>, next: Recognizer) -> bool {
        match seen {
            None => {
                &&& next.last() is None
                &&& next.translated() == Offset { dx: 0, dy: 0 }
                &&& next.rotated() is None
            },
            Some(new) => {
                let old = match self.last() {
                    Some(old) => old,
                    None => new,
                };
                &&& next.last() == Some(new)
                &&& next.translated() == shift(old, paired(old, new))
                &&& next.rotated() == Some(turn(old, paired(old, new)))
            },
        }
    }

    /// Creates a recognizer that has seen no sample and reports no motion.
    pub fn new() -> (r: Self)
        ensures
            r.last() is None,
            r.translated() == (Offset { dx: 0, dy: 0 }),
            r.rotated() is None,
    {
        Recognizer { saved: None, trans: Offset { dx: 0, dy: 0 }, rot: None }
    }

    /// Returns the movement between the two latest samples, in half steps.
    #[verifier::when_used_as_spec(spec_translated)]
    pub fn translated(&self) -> (t: Offset)
        ensures
            t == self.spec_translated(),
    {
        self.trans
    }

    /// Returns the rotation between the two latest samples; `None` stands
    /// for no rotation.
    #[verifier::when_used_as_spec(spec_rotated)]
    pub fn rotated(&self) -> (r: Option<Turn>)
        ensures
            r == self.spec_rotated(),
    {
        self.rot
    }

    /// Samples the touch sensor and computes the deltas since the last
    /// sample.
    ///
    /// Without two fingers on the sensor the recognizer forgets its sample
    /// and reports no motion.  With two, the new pair is compared with the
    /// sample before it, or with itself if there is none, after its contacts
    /// have been put in the order of the old pair.
    pub fn sample(&mut self, touch: &Touch)
        ensures
            old(self).sampled(touch@, *final(self)),
    {
        let new = match touch.saved() {
            Some(new) => new,
            None => {
                self.saved = None;
                self.trans = Offset { dx: 0, dy: 0 };
                self.rot = None;
                return ;
            },
        };
        let old = match self.saved {
            Some(old) => old,
            None => new,
        };
        self.saved = Some(new);
        let new = if measure(old.0, new.0) <= measure(old.0, new.1) {
            new
        } else {
            (new.1, new.0)
        };
        self.trans = Offset {
            dx: (new.0.x as i32 + new.1.x as i32) - (old.0.x as i32 + old.1.x as i32),
            dy: (new.0.y as i32 + new.1.y as i32) - (old.0.y as i32 + old.1.y as i32),
        };
        self.rot = Some(
            Turn {
                from: Offset {
                    dx: old.1.x as i32 - old.0.x as i32,
                    dy: old.1.y as i32 - old.0.y as i32,
                },
                to: Offset {
                    dx: new.1.x as i32 - new.0.x as i32,
                    dy: new.1.y as i32 - new.0.y as i32,
                },
            },
        );
    }
}

/// A pair compared with itself shows no motion: the midpoint stays where it
/// is and the line through the fingers keeps its direction.  This is what a
/// recognizer reports for the first sample after it had none.
pub proof fn lemma_same_pair_is_still(pair: (Contact, Contact))
    ensures
        paired(pair, pair) == pair,
        shift(pair, paired(pair, pair)) == (Offset { dx: 0, dy: 0 }),
        turn(pair, paired(pair, pair)).from == turn(pair, paired(pair, pair)).to,
{
    assert(sq_distance(pair.0, pair.0) == 0);
    assert(sq_distance(pair.0, pair.1) >= 0) by (nonlinear_arith)
        requires
            sq_distance(pair.0, pair.1) == (pair.0.x - pair.1.x) * (pair.0.x - pair.1.x) + (
            pair.0.y - pair.1.y) * (pair.0.y - pair.1.y),
    ;
}

/// Unless both new contacts are equally far from the old first contact, the
/// order in which the video core lists them does not matter.
pub proof fn lemma_pairing_ignores_order(old: (Contact, Contact), new: (Contact, Contact))
    requires
        sq_distance(old.0, new.0) != sq_distance(old.0, new.1),
    ensures
        paired(old, (new.1, new.0)) == paired(old, new),
{
}

/// The midpoint's movement does not depend on how the new contacts are
/// ordered.
pub proof fn lemma_shift_ignores_order(old: (Contact, Contact), new: (Contact, Contact))
    ensures
        shift(old, (new.1, new.0)) == shift(old, new),
{
}

} // verus!
