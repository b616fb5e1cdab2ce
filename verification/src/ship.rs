//! Ship kinds and the cell record that a board is made of.

use vstd::prelude::*;

verus! {

/// What occupies a cell. The first five after `Empty` are the ships of a
/// fleet; `Shot`, `Selection` and `WaterSelection` are markers that exist for
/// display and cursor feedback only.
#[derive(Clone, Copy, PartialEq, Eq, Structural, Debug)]
pub enum ShipType {
    Empty,
    Destroyer,
    Submarine,
    Cruiser,
    Battleship,
    Carrier,
    Shot,
    Selection,
    WaterSelection,
}

/// One cell of a board: its occupant and whether it is damaged.
#[derive(Clone, Copy, PartialEq, Eq, Structural, Debug)]
pub struct Ship {
    pub ship_type: ShipType,
    pub damaged: bool,
}

impl Ship {
    /// An empty, undamaged cell: open water.
    pub fn new() -> (ship: Self)
        ensures
            ship.ship_type == ShipType::Empty,
            !ship.damaged,
    {
        Self { ship_type: ShipType::Empty, damaged: false }
    }
}

impl ShipType {
    /// The number that stands for this kind: `Empty` is 0, the ships are 1 to
    /// 5 in increasing size order, the markers follow.
    pub open spec fn code(self) -> nat {
        match self {
            ShipType::Empty => 0,
            ShipType::Destroyer => 1,
            ShipType::Submarine => 2,
            ShipType::Cruiser => 3,
            ShipType::Battleship => 4,
            ShipType::Carrier => 5,
            ShipType::Shot => 6,
            ShipType::Selection => 7,
            ShipType::WaterSelection => 8,
        }
    }

    /// Whether this kind is one of the five ships of a fleet.
    pub open spec fn is_real_ship(self) -> bool {
        1 <= self.code() <= 5
    }

    /// Whether this kind is one of the two cursor markers.
    pub open spec fn is_selection(self) -> bool {
        self == ShipType::Selection || self == ShipType::WaterSelection
    }

    /// The number of cells a ship of this kind occupies; 0 for what is no ship.
    pub open spec fn size(self) -> nat {
        match self {
            ShipType::Destroyer => 2,
            ShipType::Submarine => 3,
            ShipType::Cruiser => 3,
            ShipType::Battleship => 4,
            ShipType::Carrier => 5,
            _ => 0,
        }
    }

    /// The display name; empty for what is no ship.
    pub open spec fn name(self) -> Seq<char> {
        match self {
            ShipType::Destroyer => "Destroyer"@,
            ShipType::Submarine => "Submarine"@,
            ShipType::Cruiser => "Cruiser"@,
            ShipType::Battleship => "Battleship"@,
            ShipType::Carrier => "Carrier"@,
            _ => ""@,
        }
    }

    /// The three-character label drawn in a cell; empty for open water.
    pub open spec fn label(self) -> Seq<char> {
        match self {
            ShipType::Destroyer => "des"@,
            ShipType::Submarine => "sub"@,
            ShipType::Cruiser => "cru"@,
            ShipType::Battleship => "bat"@,
            ShipType::Carrier => "car"@,
            ShipType::Shot => " x "@,
            ShipType::Selection => " + "@,
            ShipType::WaterSelection => " + "@,
            ShipType::Empty => ""@,
        }
    }

    pub fn to_string(&self) -> (s: &'static str)
        ensures
            s@ == self.name(),
    {
        match self {
            Self::Destroyer => "Destroyer",
            Self::Submarine => "Submarine",
            Self::Cruiser => "Cruiser",
            Self::Battleship => "Battleship",
            Self::Carrier => "Carrier",
            _ => "",
        }
    }

    pub fn to_shorten(&self) -> (s: &'static str)
        ensures
            s@ == self.label(),
    {
        match self {
            Self::Destroyer => "des",
            Self::Submarine => "sub",
            Self::Cruiser => "cru",
            Self::Battleship => "bat",
            Self::Carrier => "car",
            Self::Shot => " x ",
            Self::Selection => " + ",
            Self::WaterSelection => " + ",
            _ => "",
        }
    }

    pub fn get_size(&self) -> (n: u32)
        ensures
            n == self.size(),
            n <= 5,
    {
        match self {
            Self::Destroyer => 2,
            Self::Submarine => 3,
            Self::Cruiser => 3,
            Self::Battleship => 4,
            Self::Carrier => 5,
            _ => 0,
        }
    }

    /// Whether this kind is one of the five ships of a fleet.
    pub fn is_ship(&self) -> (r: bool)
        ensures
            r == self.is_real_ship(),
    {
        match self {
            Self::Destroyer | Self::Submarine | Self::Cruiser | Self::Battleship | Self::Carrier => true,
            _ => false,
        }
    }

    /// The kind that a number stands for, if any.
    pub fn from_u32(n: u32) -> (kind: Option<ShipType>)
        ensures
            n <= 8 <==> kind is Some,
            kind is Some ==> kind->Some_0.code() == n,
    {
        match n {
            0 => Some(ShipType::Empty),
            1 => Some(ShipType::Destroyer),
            2 => Some(ShipType::Submarine),
            3 => Some(ShipType::Cruiser),
            4 => Some(ShipType::Battleship),
            5 => Some(ShipType::Carrier),
            6 => Some(ShipType::Shot),
            7 => Some(ShipType::Selection),
            8 => Some(ShipType::WaterSelection),
            _ => None,
        }
    }

    /// The number that stands for this kind.
    pub fn to_u32(&self) -> (n: u32)
        ensures
            n == self.code(),
    {
        match self {
            Self::Empty => 0,
            Self::Destroyer => 1,
            Self::Submarine => 2,
            Self::Cruiser => 3,
            Self::Battleship => 4,
            Self::Carrier => 5,
            Self::Shot => 6,
            Self::Selection => 7,
            Self::WaterSelection => 8,
        }
    }

    /// Two kinds with the same number are the same kind.
    pub proof fn lemma_code_injective(a: ShipType, b: ShipType)
        requires
            a.code() == b.code(),
        ensures
            a == b,
    {
    }
}

} // verus!
