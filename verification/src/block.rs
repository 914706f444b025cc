use vstd::prelude::*;

verus! {

/// Number of material kinds, the empty one included.
pub const N_BLOCK_KINDS: u8 = 40;

/// Material of one voxel. The position of a kind in this list is its number.
#[allow(non_camel_case_types)]
#[derive(Clone, Copy, Debug, PartialEq, Eq, Hash, Structural)]
pub enum Block {
    Empty,
    Grass,
    Dirt,
    Stone,
    Sand,
    Gravel,
    Cobblestone,
    Bedrock,
    OakLeaves,
    Wood,
    Water,
    Cloud,
    Snow,
    Ice,
    CoalOre,
    IronOre,
    GoldOre,
    DiamondOre,
    Granite,
    Sandstone,
    Clay,
    SpruceLeaves,
    SpruceWood,
    BirchLeaves,
    BirchWood,
    Cactus,
    DeadBush,
    RedFlower,
    YellowFlower,
    Moss,
    Grass_Tall,
    Grass_Short,
    SeaGrass,
    AcaciaLeaves,
    AcaciaWood,
    DarkOakLeaves,
    DarkOakWood,
    LakeWater,
    Basalt,
    BlackStone,
}

/// Colour channels are carried in hundredths: 100 is full intensity.
pub const COLOR_FULL: u8 = 100;

impl Block {
    /// Number of this kind.
    pub open spec fn id(self) -> u8 {
        match self {
            Block::Empty => 0,
            Block::Grass => 1,
            Block::Dirt => 2,
            Block::Stone => 3,
            Block::Sand => 4,
            Block::Gravel => 5,
            Block::Cobblestone => 6,
            Block::Bedrock => 7,
            Block::OakLeaves => 8,
            Block::Wood => 9,
            Block::Water => 10,
            Block::Cloud => 11,
            Block::Snow => 12,
            Block::Ice => 13,
            Block::CoalOre => 14,
            Block::IronOre => 15,
            Block::GoldOre => 16,
            Block::DiamondOre => 17,
            Block::Granite => 18,
            Block::Sandstone => 19,
            Block::Clay => 20,
            Block::SpruceLeaves => 21,
            Block::SpruceWood => 22,
            Block::BirchLeaves => 23,
            Block::BirchWood => 24,
            Block::Cactus => 25,
            Block::DeadBush => 26,
            Block::RedFlower => 27,
            Block::YellowFlower => 28,
            Block::Moss => 29,
            Block::Grass_Tall => 30,
            Block::Grass_Short => 31,
            Block::SeaGrass => 32,
            Block::AcaciaLeaves => 33,
            Block::AcaciaWood => 34,
            Block::DarkOakLeaves => 35,
            Block::DarkOakWood => 36,
            Block::LakeWater => 37,
            Block::Basalt => 38,
            Block::BlackStone => 39,
        }
    }

    /// Kind with number `v`; numbers that name no kind stand for the empty kind.
    pub open spec fn of_id(v: u8) -> Block {
        if v == 1 {
            Block::Grass
        } else if v == 2 {
            Block::Dirt
        } else if v == 3 {
            Block::Stone
        } else if v == 4 {
            Block::Sand
        } else if v == 5 {
            Block::Gravel
        } else if v == 6 {
            Block::Cobblestone
        } else if v == 7 {
            Block::Bedrock
        } else if v == 8 {
            Block::OakLeaves
        } else if v == 9 {
            Block::Wood
        } else if v == 10 {
            Block::Water
        } else if v == 11 {
            Block::Cloud
        } else if v == 12 {
            Block::Snow
        } else if v == 13 {
            Block::Ice
        } else if v == 14 {
            Block::CoalOre
        } else if v == 15 {
            Block::IronOre
        } else if v == 16 {
            Block::GoldOre
        } else if v == 17 {
            Block::DiamondOre
        } else if v == 18 {
            Block::Granite
        } else if v == 19 {
            Block::Sandstone
        } else if v == 20 {
            Block::Clay
        } else if v == 21 {
            Block::SpruceLeaves
        } else if v == 22 {
            Block::SpruceWood
        } else if v == 23 {
            Block::BirchLeaves
        } else if v == 24 {
            Block::BirchWood
        } else if v == 25 {
            Block::Cactus
        } else if v == 26 {
            Block::DeadBush
        } else if v == 27 {
            Block::RedFlower
        } else if v == 28 {
            Block::YellowFlower
        } else if v == 29 {
            Block::Moss
        } else if v == 30 {
            Block::Grass_Tall
        } else if v == 31 {
            Block::Grass_Short
        } else if v == 32 {
            Block::SeaGrass
        } else if v == 33 {
            Block::AcaciaLeaves
        } else if v == 34 {
            Block::AcaciaWood
        } else if v == 35 {
            Block::DarkOakLeaves
        } else if v == 36 {
            Block::DarkOakWood
        } else if v == 37 {
            Block::LakeWater
        } else if v == 38 {
            Block::Basalt
        } else if v == 39 {
            Block::BlackStone
        } else {
            Block::Empty
        }
    }

    /// Whether this kind stops movement: every kind but air, water and cloud.
    pub open spec fn solid(self) -> bool {
        self != Block::Empty && self != Block::Water && self != Block::Cloud
    }

    /// RGBA colour of the face of this kind that looks in direction
    /// `face_dir`, in hundredths. Only grass depends on the direction: its top
    /// face is green, its other faces are earth-coloured.
    pub open spec fn color_spec(self, face_dir: u8) -> Seq<u8> {
        match self {
            Block::Grass => if face_dir == 2 {
                seq![30u8, 80u8, 20u8, 100u8]
            } else {
                seq![60u8, 40u8, 20u8, 100u8]
            },
            Block::Empty => seq![0u8, 0u8, 0u8, 100u8],
            Block::Dirt => seq![60u8, 40u8, 20u8, 100u8],
            Block::Stone => seq![50u8, 50u8, 50u8, 100u8],
            Block::Sand => seq![90u8, 85u8, 30u8, 100u8],
            Block::Gravel => seq![60u8, 55u8, 40u8, 100u8],
            Block::Cobblestone => seq![40u8, 40u8, 40u8, 100u8],
            Block::Bedrock => seq![20u8, 20u8, 20u8, 100u8],
            Block::OakLeaves => seq![20u8, 60u8, 20u8, 100u8],
            Block::Wood => seq![50u8, 30u8, 10u8, 100u8],
            Block::Water => seq![0u8, 10u8, 40u8, 100u8],
            Block::Cloud => seq![95u8, 95u8, 95u8, 70u8],
            Block::Snow => seq![95u8, 97u8, 100u8, 100u8],
            Block::Ice => seq![60u8, 80u8, 95u8, 70u8],
            Block::CoalOre => seq![30u8, 30u8, 30u8, 100u8],
            Block::IronOre => seq![70u8, 60u8, 50u8, 100u8],
            Block::GoldOre => seq![90u8, 80u8, 20u8, 100u8],
            Block::DiamondOre => seq![40u8, 70u8, 80u8, 100u8],
            Block::Granite => seq![65u8, 50u8, 45u8, 100u8],
            Block::Sandstone => seq![85u8, 75u8, 50u8, 100u8],
            Block::Clay => seq![65u8, 65u8, 70u8, 100u8],
            Block::SpruceLeaves => seq![15u8, 40u8, 20u8, 100u8],
            Block::SpruceWood => seq![35u8, 25u8, 15u8, 100u8],
            Block::BirchLeaves => seq![30u8, 70u8, 30u8, 100u8],
            Block::BirchWood => seq![85u8, 85u8, 75u8, 100u8],
            Block::Cactus => seq![25u8, 55u8, 25u8, 100u8],
            Block::DeadBush => seq![60u8, 50u8, 30u8, 100u8],
            Block::RedFlower => seq![90u8, 20u8, 20u8, 100u8],
            Block::YellowFlower => seq![95u8, 90u8, 30u8, 100u8],
            Block::Moss => seq![35u8, 60u8, 35u8, 100u8],
            Block::Grass_Tall => seq![25u8, 70u8, 25u8, 100u8],
            Block::Grass_Short => seq![30u8, 65u8, 30u8, 100u8],
            Block::SeaGrass => seq![20u8, 50u8, 40u8, 100u8],
            Block::AcaciaLeaves => seq![50u8, 65u8, 20u8, 100u8],
            Block::AcaciaWood => seq![60u8, 40u8, 20u8, 100u8],
            Block::DarkOakLeaves => seq![10u8, 35u8, 15u8, 100u8],
            Block::DarkOakWood => seq![30u8, 20u8, 10u8, 100u8],
            Block::LakeWater => seq![0u8, 15u8, 50u8, 100u8],
            Block::Basalt => seq![30u8, 30u8, 35u8, 100u8],
            Block::BlackStone => seq![25u8, 25u8, 28u8, 100u8],
        }
    }

    pub fn from_u8(v: u8) -> (b: Block)
        ensures
            b == Block::of_id(v),
            v < N_BLOCK_KINDS ==> b.id() == v,
    {
        match v {
            0 => Block::Empty,
            1 => Block::Grass,
            2 => Block::Dirt,
            3 => Block::Stone,
            4 => Block::Sand,
            5 => Block::Gravel,
            6 => Block::Cobblestone,
            7 => Block::Bedrock,
            8 => Block::OakLeaves,
            9 => Block::Wood,
            10 => Block::Water,
            11 => Block::Cloud,
            12 => Block::Snow,
            13 => Block::Ice,
            14 => Block::CoalOre,
            15 => Block::IronOre,
            16 => Block::GoldOre,
            17 => Block::DiamondOre,
            18 => Block::Granite,
            19 => Block::Sandstone,
            20 => Block::Clay,
            21 => Block::SpruceLeaves,
            22 => Block::SpruceWood,
            23 => Block::BirchLeaves,
            24 => Block::BirchWood,
            25 => Block::Cactus,
            26 => Block::DeadBush,
            27 => Block::RedFlower,
            28 => Block::YellowFlower,
            29 => Block::Moss,
            30 => Block::Grass_Tall,
            31 => Block::Grass_Short,
            32 => Block::SeaGrass,
            33 => Block::AcaciaLeaves,
            34 => Block::AcaciaWood,
            35 => Block::DarkOakLeaves,
            36 => Block::DarkOakWood,
            37 => Block::LakeWater,
            38 => Block::Basalt,
            39 => Block::BlackStone,
            _ => Block::Empty,
        }
    }

    pub fn to_u8(self) -> (v: u8)
        ensures
            v == self.id(),
            v < N_BLOCK_KINDS,
            Block::of_id(v) == self,
    {
        match self {
            Block::Empty => 0,
            Block::Grass => 1,
            Block::Dirt => 2,
            Block::Stone => 3,
            Block::Sand => 4,
            Block::Gravel => 5,
            Block::Cobblestone => 6,
            Block::Bedrock => 7,
            Block::OakLeaves => 8,
            Block::Wood => 9,
            Block::Water => 10,
            Block::Cloud => 11,
            Block::Snow => 12,
            Block::Ice => 13,
            Block::CoalOre => 14,
            Block::IronOre => 15,
            Block::GoldOre => 16,
            Block::DiamondOre => 17,
            Block::Granite => 18,
            Block::Sandstone => 19,
            Block::Clay => 20,
            Block::SpruceLeaves => 21,
            Block::SpruceWood => 22,
            Block::BirchLeaves => 23,
            Block::BirchWood => 24,
            Block::Cactus => 25,
            Block::DeadBush => 26,
            Block::RedFlower => 27,
            Block::YellowFlower => 28,
            Block::Moss => 29,
            Block::Grass_Tall => 30,
            Block::Grass_Short => 31,
            Block::SeaGrass => 32,
            Block::AcaciaLeaves => 33,
            Block::AcaciaWood => 34,
            Block::DarkOakLeaves => 35,
            Block::DarkOakWood => 36,
            Block::LakeWater => 37,
            Block::Basalt => 38,
            Block::BlackStone => 39,
        }
    }

    pub fn is_empty(self) -> (e: bool)
        ensures
            e == (self == Block::Empty),
    {
        self == Block::Empty
    }

    pub fn is_solid(self) -> (s: bool)
        ensures
            s == self.solid(),
    {
        !matches!(self, Block::Empty | Block::Water | Block::Cloud)
    }

    pub fn color(self, face_dir: u8) -> (c: [u8; 4])
        ensures
            c@ == self.color_spec(face_dir),
    {
        let c = match self {
            Block::Grass => {
                match face_dir {
                    2 => [30, 80, 20, 100],  // +Y top: light green
                    _ => [60, 40, 20, 100],  // sides/bottom: brown
                }
            },
            Block::Empty => [0, 0, 0, 100],
            Block::Dirt => [60, 40, 20, 100],
            Block::Stone => [50, 50, 50, 100],
            Block::Sand => [90, 85, 30, 100],
            Block::Gravel => [60, 55, 40, 100],
            Block::Cobblestone => [40, 40, 40, 100],
            Block::Bedrock => [20, 20, 20, 100],
            Block::OakLeaves => [20, 60, 20, 100],
            Block::Wood => [50, 30, 10, 100],
            Block::Water => [0, 10, 40, 100],
            Block::Cloud => [95, 95, 95, 70],
            Block::Snow => [95, 97, 100, 100],
            Block::Ice => [60, 80, 95, 70],
            Block::CoalOre => [30, 30, 30, 100],
            Block::IronOre => [70, 60, 50, 100],
            Block::GoldOre => [90, 80, 20, 100],
            Block::DiamondOre => [40, 70, 80, 100],
            Block::Granite => [65, 50, 45, 100],
            Block::Sandstone => [85, 75, 50, 100],
            Block::Clay => [65, 65, 70, 100],
            Block::SpruceLeaves => [15, 40, 20, 100],
            Block::SpruceWood => [35, 25, 15, 100],
            Block::BirchLeaves => [30, 70, 30, 100],
            Block::BirchWood => [85, 85, 75, 100],
            Block::Cactus => [25, 55, 25, 100],
            Block::DeadBush => [60, 50, 30, 100],
            Block::RedFlower => [90, 20, 20, 100],
            Block::YellowFlower => [95, 90, 30, 100],
            Block::Moss => [35, 60, 35, 100],
            Block::Grass_Tall => [25, 70, 25, 100],
            Block::Grass_Short => [30, 65, 30, 100],
            Block::SeaGrass => [20, 50, 40, 100],
            Block::AcaciaLeaves => [50, 65, 20, 100],
            Block::AcaciaWood => [60, 40, 20, 100],
            Block::DarkOakLeaves => [10, 35, 15, 100],
            Block::DarkOakWood => [30, 20, 10, 100],
            Block::LakeWater => [0, 15, 50, 100],
            Block::Basalt => [30, 30, 35, 100],
            Block::BlackStone => [25, 25, 28, 100],
        };
        assert(c@ =~= self.color_spec(face_dir));
        c
    }
}

/// Outward unit normal of face direction `face_dir`: directions 0 to 5 are
/// +X, -X, +Y, -Y, +Z, -Z; any other number counts as +Y.
pub open spec fn normal_spec(face_dir: u8) -> Seq<i8> {
    if face_dir == 0 {
        seq![1i8, 0i8, 0i8]
    } else if face_dir == 1 {
        seq![-1i8, 0i8, 0i8]
    } else if face_dir == 3 {
        seq![0i8, -1i8, 0i8]
    } else if face_dir == 4 {
        seq![0i8, 0i8, 1i8]
    } else if face_dir == 5 {
        seq![0i8, 0i8, -1i8]
    } else {
        seq![0i8, 1i8, 0i8]
    }
}

// Convert face direction to normal vector
pub fn face_dir_to_normal(face_dir: u8) -> (n: [i8; 3])
    ensures
        n@ == normal_spec(face_dir),
{
    let n = match face_dir {
        0 => [1, 0, 0],  // +X
        1 => [-1, 0, 0],  // -X
        2 => [0, 1, 0],  // +Y
        3 => [0, -1, 0],  // -Y
        4 => [0, 0, 1],  // +Z
        5 => [0, 0, -1],  // -Z
        _ => [0, 1, 0],
    };
    assert(n@ =~= normal_spec(face_dir));
    n
}

/// Numbering the kinds and reading the numbers back changes nothing, in
/// either direction.
pub proof fn lemma_block_id_round_trip(b: Block, v: u8)
    ensures
        Block::of_id(b.id()) == b,
        b.id() < N_BLOCK_KINDS,
        v < N_BLOCK_KINDS ==> Block::of_id(v).id() == v,
        v >= N_BLOCK_KINDS ==> Block::of_id(v) == Block::Empty,
{
}

} // verus!
