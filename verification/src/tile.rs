use vstd::prelude::*;

verus! {

/// Quarter-turn rotation applied to a tile's artwork; purely visual.
#[derive(Clone, Copy, PartialEq, Eq, Structural, Debug, Hash)]
pub enum Rotation {
    Normal,
    Minus90,
    Plus90,
    Opposite,
}

impl Default for Rotation {
    fn default() -> (r: Rotation)
        ensures
            r == Rotation::Normal,
    {
        Rotation::Normal
    }
}

/// Reference to one of the sprites on the texture atlas.
#[derive(Clone, Copy, PartialEq, Eq, Structural, Debug)]
pub enum Image {
    Ground,
    Rocks,
    CaveEntrance,
    Cave,
    CaveWall,
    Goop,
    SnowyGround,
    WaterCorner,
    WaterEdge,
    Water,
    WaterInnerCorner,
    Egg,
    Person,
}

impl Image {
    /// Cell of the 4x4 texture atlas that holds this sprite.
    pub open spec fn spec_coords(self) -> (u32, u32) {
        match self {
            Image::Ground => (0, 0),
            Image::Rocks => (1, 0),
            Image::CaveEntrance => (2, 0),
            Image::Cave => (3, 0),
            Image::Goop => (0, 1),
            Image::Egg => (1, 1),
            Image::Person => (2, 1),
            Image::CaveWall => (3, 1),
            Image::SnowyGround => (0, 2),
            Image::WaterCorner => (1, 2),
            Image::WaterEdge => (2, 2),
            Image::Water => (3, 2),
            Image::WaterInnerCorner => (0, 3),
        }
    }

    pub fn coords(&self) -> (r: (u32, u32))
        ensures
            r == self.spec_coords(),
    {
        match self {
            Image::Ground => (0, 0),
            Image::Rocks => (1, 0),
            Image::CaveEntrance => (2, 0),
            Image::Cave => (3, 0),
            Image::Goop => (0, 1),
            Image::Egg => (1, 1),
            Image::Person => (2, 1),
            Image::CaveWall => (3, 1),
            Image::SnowyGround => (0, 2),
            Image::WaterCorner => (1, 2),
            Image::WaterEdge => (2, 2),
            Image::Water => (3, 2),
            Image::WaterInnerCorner => (0, 3),
        }
    }
}

/// The closed set of terrain kinds a tile can have.
#[derive(Clone, Copy, PartialEq, Eq, Structural, Debug)]
pub enum TerrainTag {
    Ground,
    Rocks,
    CaveEntrance,
    Cave,
    CaveWall,
    Goop,
    SnowyGround,
    WaterCorner,
    WaterEdge,
    Water,
    WaterInnerCorner,
}

impl TerrainTag {
    /// Only cave walls stop a line of sight.
    pub open spec fn spec_blocks_sight(self) -> bool {
        self is CaveWall
    }

    /// Cave walls, rocks and every water variant stop movement.
    pub open spec fn spec_blocks_movement(self) -> bool {
        match self {
            TerrainTag::CaveWall => true,
            TerrainTag::WaterCorner => true,
            TerrainTag::WaterEdge => true,
            TerrainTag::Water => true,
            TerrainTag::WaterInnerCorner => true,
            TerrainTag::Rocks => true,
            _ => false,
        }
    }

    /// The sprite that draws this terrain.
    pub open spec fn spec_image(self) -> Image {
        match self {
            TerrainTag::Ground => Image::Ground,
            TerrainTag::Rocks => Image::Rocks,
            TerrainTag::CaveEntrance => Image::CaveEntrance,
            TerrainTag::Cave => Image::Cave,
            TerrainTag::Goop => Image::Goop,
            TerrainTag::CaveWall => Image::CaveWall,
            TerrainTag::SnowyGround => Image::SnowyGround,
            TerrainTag::WaterCorner => Image::WaterCorner,
            TerrainTag::WaterEdge => Image::WaterEdge,
            TerrainTag::Water => Image::Water,
            TerrainTag::WaterInnerCorner => Image::WaterInnerCorner,
        }
    }

    pub fn blocks_sight(&self) -> (b: bool)
        ensures
            b == self.spec_blocks_sight(),
    {
        matches!(self, TerrainTag::CaveWall)
    }

    pub fn blocks_movement(&self) -> (b: bool)
        ensures
            b == self.spec_blocks_movement(),
    {
        matches!(
            self,
            TerrainTag::CaveWall | TerrainTag::WaterCorner | TerrainTag::WaterEdge
                | TerrainTag::Water | TerrainTag::WaterInnerCorner | TerrainTag::Rocks
        )
    }

    pub fn image(&self) -> (r: Image)
        ensures
            r == self.spec_image(),
    {
        match self {
            TerrainTag::Ground => Image::Ground,
            TerrainTag::Rocks => Image::Rocks,
            TerrainTag::CaveEntrance => Image::CaveEntrance,
            TerrainTag::Cave => Image::Cave,
            TerrainTag::Goop => Image::Goop,
            TerrainTag::CaveWall => Image::CaveWall,
            TerrainTag::SnowyGround => Image::SnowyGround,
            TerrainTag::WaterCorner => Image::WaterCorner,
            TerrainTag::WaterEdge => Image::WaterEdge,
            TerrainTag::Water => Image::Water,
            TerrainTag::WaterInnerCorner => Image::WaterInnerCorner,
        }
    }
}

/// An immutable per-cell terrain record: what kind of ground sits there
/// and how its artwork is rotated.
#[derive(Clone, Copy, PartialEq, Eq, Structural, Debug)]
pub struct Tile {
    pub tag: TerrainTag,
    pub rotation: Rotation,
}

/// The terrain a serialized label string names, or `None` for a label
/// outside the recognized set. The "egg" label resolves to the goop
/// terrain underneath the spawned entity.
pub open spec fn label_to_tag(s: Seq<char>) -> Option<TerrainTag> {
    if s == "ground"@ {
        Some(TerrainTag::Ground)
    } else if s == "rocks"@ {
        Some(TerrainTag::Rocks)
    } else if s == "cave_enterance"@ {
        Some(TerrainTag::CaveEntrance)
    } else if s == "cave"@ {
        Some(TerrainTag::Cave)
    } else if s == "cave_wall"@ {
        Some(TerrainTag::CaveWall)
    } else if s == "goop"@ {
        Some(TerrainTag::Goop)
    } else if s == "egg"@ {
        Some(TerrainTag::Goop)
    } else if s == "snowy_ground"@ {
        Some(TerrainTag::SnowyGround)
    } else if s == "water_corner"@ {
        Some(TerrainTag::WaterCorner)
    } else if s == "water_edge"@ {
        Some(TerrainTag::WaterEdge)
    } else if s == "water"@ {
        Some(TerrainTag::Water)
    } else if s == "water_inner_corner"@ {
        Some(TerrainTag::WaterInnerCorner)
    } else {
        None
    }
}

/// Whether a label marks an egg spawn point.
pub open spec fn is_egg_label(s: Seq<char>) -> bool {
    s == "egg"@
}

/// Exact-match lookup from a label string to its terrain kind.
pub fn parse_label(label: &String) -> (t: Option<TerrainTag>)
    ensures
        t == label_to_tag(label@),
{
    if *label == String::from_str("ground") {
        Some(TerrainTag::Ground)
    } else if *label == String::from_str("rocks") {
        Some(TerrainTag::Rocks)
    } else if *label == String::from_str("cave_enterance") {
        Some(TerrainTag::CaveEntrance)
    } else if *label == String::from_str("cave") {
        Some(TerrainTag::Cave)
    } else if *label == String::from_str("cave_wall") {
        Some(TerrainTag::CaveWall)
    } else if *label == String::from_str("goop") {
        Some(TerrainTag::Goop)
    } else if *label == String::from_str("egg") {
        Some(TerrainTag::Goop)
    } else if *label == String::from_str("snowy_ground") {
        Some(TerrainTag::SnowyGround)
    } else if *label == String::from_str("water_corner") {
        Some(TerrainTag::WaterCorner)
    } else if *label == String::from_str("water_edge") {
        Some(TerrainTag::WaterEdge)
    } else if *label == String::from_str("water") {
        Some(TerrainTag::Water)
    } else if *label == String::from_str("water_inner_corner") {
        Some(TerrainTag::WaterInnerCorner)
    } else {
        None
    }
}

/// Whether the label is the egg spawn marker.
pub fn parse_is_egg(label: &String) -> (b: bool)
    ensures
        b == is_egg_label(label@),
{
    *label == String::from_str("egg")
}

} // verus!
