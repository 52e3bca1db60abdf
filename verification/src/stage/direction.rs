use vstd::prelude::*;

verus! {

/// One of the eight compass directions, in the order that animation
/// sequences are stored.
#[derive(Clone, Copy, Debug, PartialEq, Eq, Structural)]
pub enum CompassDirection {
    South,
    SouthWest,
    West,
    NorthWest,
    North,
    NorthEast,
    East,
    SouthEast,
}

/// Total number of compass directions.
pub const COMPASS_DIRECTION_COUNT: usize = 8;

impl Default for CompassDirection {
    /// Objects face south unless told otherwise.
    fn default() -> (d: CompassDirection)
        ensures
            d == CompassDirection::South,
    {
        CompassDirection::South
    }
}

impl CompassDirection {
    /// Position of the direction in the compass order, starting at south and
    /// going clockwise.
    pub open spec fn spec_index(self) -> nat {
        match self {
            CompassDirection::South => 0,
            CompassDirection::SouthWest => 1,
            CompassDirection::West => 2,
            CompassDirection::NorthWest => 3,
            CompassDirection::North => 4,
            CompassDirection::NorthEast => 5,
            CompassDirection::East => 6,
            CompassDirection::SouthEast => 7,
        }
    }

    /// Name of the direction as it appears in asset files.
    pub open spec fn spec_name(self) -> Seq<char> {
        match self {
            CompassDirection::South => "south"@,
            CompassDirection::SouthWest => "southwest"@,
            CompassDirection::West => "west"@,
            CompassDirection::NorthWest => "northwest"@,
            CompassDirection::North => "north"@,
            CompassDirection::NorthEast => "northeast"@,
            CompassDirection::East => "east"@,
            CompassDirection::SouthEast => "southeast"@,
        }
    }

    /// Position of the direction in the compass order; indexes the sequences
    /// of an animation.
    pub fn index(self) -> (i: usize)
        ensures
            i == self.spec_index(),
            i < COMPASS_DIRECTION_COUNT,
    {
        match self {
            CompassDirection::South => 0,
            CompassDirection::SouthWest => 1,
            CompassDirection::West => 2,
            CompassDirection::NorthWest => 3,
            CompassDirection::North => 4,
            CompassDirection::NorthEast => 5,
            CompassDirection::East => 6,
            CompassDirection::SouthEast => 7,
        }
    }

    /// The direction at position `index` of the compass order.
    pub fn from_index(index: usize) -> (d: Option<CompassDirection>)
        ensures
            index < COMPASS_DIRECTION_COUNT <==> d is Some,
            d matches Some(dir) ==> dir.spec_index() == index,
    {
        match index {
            0 => Some(CompassDirection::South),
            1 => Some(CompassDirection::SouthWest),
            2 => Some(CompassDirection::West),
            3 => Some(CompassDirection::NorthWest),
            4 => Some(CompassDirection::North),
            5 => Some(CompassDirection::NorthEast),
            6 => Some(CompassDirection::East),
            7 => Some(CompassDirection::SouthEast),
            _ => None,
        }
    }

    /// Name of the direction as it appears in asset files.
    pub fn name(self) -> (n: &'static str)
        ensures
            n@ == self.spec_name(),
    {
        match self {
            CompassDirection::South => "south",
            CompassDirection::SouthWest => "southwest",
            CompassDirection::West => "west",
            CompassDirection::NorthWest => "northwest",
            CompassDirection::North => "north",
            CompassDirection::NorthEast => "northeast",
            CompassDirection::East => "east",
            CompassDirection::SouthEast => "southeast",
        }
    }
}

/// The compass order starts at south and turns clockwise through the eight
/// directions; each direction's asset name is its own name in lower case.
pub proof fn lemma_compass_order_and_names()
    ensures
        CompassDirection::South.spec_index() == 0 && CompassDirection::South.spec_name() == "south"@,
        CompassDirection::SouthWest.spec_index() == 1 && CompassDirection::SouthWest.spec_name()
            == "southwest"@,
        CompassDirection::West.spec_index() == 2 && CompassDirection::West.spec_name() == "west"@,
        CompassDirection::NorthWest.spec_index() == 3 && CompassDirection::NorthWest.spec_name()
            == "northwest"@,
        CompassDirection::North.spec_index() == 4 && CompassDirection::North.spec_name() == "north"@,
        CompassDirection::NorthEast.spec_index() == 5 && CompassDirection::NorthEast.spec_name()
            == "northeast"@,
        CompassDirection::East.spec_index() == 6 && CompassDirection::East.spec_name() == "east"@,
        CompassDirection::SouthEast.spec_index() == 7 && CompassDirection::SouthEast.spec_name()
            == "southeast"@,
{
}

/// Each position of the compass order holds exactly one direction, and each
/// direction's index leads back to it.
pub proof fn lemma_compass_index_bijective(a: CompassDirection, b: CompassDirection)
    ensures
        a.spec_index() < COMPASS_DIRECTION_COUNT,
        a.spec_index() == b.spec_index() <==> a == b,
{
}

} // verus!
