use vstd::prelude::*;

verus! {

/// One of the four cardinal orientations, ordered clockwise.
///
/// Used both for the player's orientation and as a relative turn.
#[derive(Clone, Copy, Debug, PartialEq, Eq, Structural)]
pub enum Facing {
    Up,
    Right,
    Down,
    Left,
}

/// A unit step on the grid, as a signed vector (`y` grows upwards).
#[derive(Clone, Copy, Debug, PartialEq, Eq, Structural)]
pub struct Offset {
    pub x: i32,
    pub y: i32,
}

/// The side a rotation tile turns the player towards.
#[derive(Clone, Copy, Debug, PartialEq, Eq, Structural)]
pub enum Side {
    Right,
    Left,
}

impl Facing {
    /// Position of the facing in the clockwise cycle `Up, Right, Down, Left`.
    pub open spec fn ord(self) -> int {
        match self {
            Facing::Up => 0,
            Facing::Right => 1,
            Facing::Down => 2,
            Facing::Left => 3,
        }
    }

    /// The facing at position `n mod 4` of the cycle.
    pub open spec fn from_ord(n: int) -> Facing {
        let m = n % 4;
        if m == 0 {
            Facing::Up
        } else if m == 1 {
            Facing::Right
        } else if m == 2 {
            Facing::Down
        } else {
            Facing::Left
        }
    }

    /// The facing turned clockwise by `amount` quarter turns (negative turns
    /// counter-clockwise).
    pub open spec fn turned(self, amount: int) -> Facing {
        Facing::from_ord(self.ord() + amount)
    }

    /// Composition of two facings: the sum of their positions modulo 4.
    pub open spec fn composed(self, rhs: Facing) -> Facing {
        Facing::from_ord(self.ord() + rhs.ord())
    }

    /// The unit vector of the facing.
    pub open spec fn forward_spec(self) -> (int, int) {
        match self {
            Facing::Up => (0, 1),
            Facing::Right => (1, 0),
            Facing::Down => (0, -1),
            Facing::Left => (-1, 0),
        }
    }

    /// True for `Left` and `Right`.
    pub open spec fn is_horizontal(self) -> bool {
        self == Facing::Left || self == Facing::Right
    }

    /// The facing at position `n mod 4` of the clockwise cycle.
    pub fn from_quarter_turns(n: u8) -> (r: Facing)
        ensures
            r == Facing::from_ord(n as int),
            r.ord() == n % 4,
    {
        match n % 4 {
            0 => Facing::Up,
            1 => Facing::Right,
            2 => Facing::Down,
            _ => Facing::Left,
        }
    }

    /// Number of clockwise quarter turns from `Up` to this facing; the
    /// renderer turns the sprite by that many right angles.
    pub fn quarter_turns(&self) -> (r: u8)
        ensures
            r == self.ord(),
    {
        match self {
            Facing::Up => 0,
            Facing::Right => 1,
            Facing::Down => 2,
            Facing::Left => 3,
        }
    }

    /// The unit vector of the facing: `Up` is `(0, 1)`, `Right` is `(1, 0)`.
    pub fn forward(&self) -> (r: Offset)
        ensures
            (r.x as int, r.y as int) == self.forward_spec(),
    {
        match self {
            Facing::Up => Offset { x: 0, y: 1 },
            Facing::Right => Offset { x: 1, y: 0 },
            Facing::Down => Offset { x: 0, y: -1 },
            Facing::Left => Offset { x: -1, y: 0 },
        }
    }

    /// Turns the facing clockwise by `amount` quarter turns, modulo 4.
    pub fn rotate_by(&self, amount: i8) -> (r: Facing)
        ensures
            r == self.turned(amount as int),
            r.ord() == (self.ord() + amount) % 4,
    {
        // Adding 128, a multiple of 4, keeps the sum non-negative without
        // changing it modulo 4.
        let sum: i16 = self.quarter_turns() as i16 + amount as i16 + 128;
        let r = Facing::from_quarter_turns((sum as u16 % 4) as u8);
        assert((self.ord() + amount + 128) % 4 == (self.ord() + amount) % 4);
        r
    }

    /// Composes two facings by adding their positions in the cycle, modulo 4.
    pub fn add_rotation(&self, rhs: Facing) -> (r: Facing)
        ensures
            r == self.composed(rhs),
            r.ord() == (self.ord() + rhs.ord()) % 4,
    {
        Facing::from_quarter_turns(self.quarter_turns() + rhs.quarter_turns())
    }
}

impl Side {
    /// The quarter-turn delta of the side: `Left` is -1, `Right` is +1.
    pub open spec fn delta(self) -> int {
        match self {
            Side::Left => -1,
            Side::Right => 1,
        }
    }

    /// The facing of the same name, used to orient the tile's sprite.
    pub open spec fn facing(self) -> Facing {
        match self {
            Side::Left => Facing::Left,
            Side::Right => Facing::Right,
        }
    }

    /// The quarter-turn delta of the side: `Left` is -1, `Right` is +1.
    pub fn rotation_delta(&self) -> (r: i8)
        ensures
            r == self.delta(),
    {
        match self {
            Side::Left => -1,
            Side::Right => 1,
        }
    }
}

impl From<Side> for Facing {
    fn from(side: Side) -> (r: Facing)
        ensures
            r == side.facing(),
    {
        match side {
            Side::Right => Facing::Right,
            Side::Left => Facing::Left,
        }
    }
}

impl vstd::std_specs::convert::FromSpecImpl<Side> for Facing {
    open spec fn obeys_from_spec() -> bool {
        true
    }

    open spec fn from_spec(side: Side) -> Facing {
        side.facing()
    }
}

} // verus!
