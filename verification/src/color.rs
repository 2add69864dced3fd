//! Beam colors, the collision-layer taxonomy, and the per-color collision
//! masks the tracer casts against.

use vstd::prelude::*;

verus! {

/// Distance a beam's travel budget grows by on every fixed simulation tick.
pub const LIGHT_SPEED: i64 = 8;

/// The closed set of beam colors. Each color fixes a bounce allowance and a
/// collision mask.
#[derive(Clone, Copy, Debug, PartialEq, Eq, Structural)]
pub enum LightColor {
    Green,
    Purple,
    Blue,
    White,
}

/// Named collision layers. A collider's memberships are a bitset over these,
/// and a ray is cast with a mask over them.
#[derive(Clone, Copy, Debug, PartialEq, Eq, Structural)]
pub enum Layers {
    Terrain,
    LightSensor,
    WhiteRay,
    BlueRay,
    DefaultLightRay,
    PlayerCollider,
    PlayerHurtbox,
    DangerBox,
    CrystalShard,
    SensorBox,
}

impl Layers {
    /// The single bit this layer occupies in a layer bitset.
    pub open spec fn bit(self) -> u32 {
        match self {
            Layers::Terrain => 0x1,
            Layers::LightSensor => 0x2,
            Layers::WhiteRay => 0x4,
            Layers::BlueRay => 0x8,
            Layers::DefaultLightRay => 0x10,
            Layers::PlayerCollider => 0x20,
            Layers::PlayerHurtbox => 0x40,
            Layers::DangerBox => 0x80,
            Layers::CrystalShard => 0x100,
            Layers::SensorBox => 0x200,
        }
    }

    /// Executable layer bit, equal to [`Self::bit`].
    pub fn bit_exec(self) -> (b: u32)
        ensures
            b == self.bit(),
    {
        match self {
            Layers::Terrain => 0x1,
            Layers::LightSensor => 0x2,
            Layers::WhiteRay => 0x4,
            Layers::BlueRay => 0x8,
            Layers::DefaultLightRay => 0x10,
            Layers::PlayerCollider => 0x20,
            Layers::PlayerHurtbox => 0x40,
            Layers::DangerBox => 0x80,
            Layers::CrystalShard => 0x100,
            Layers::SensorBox => 0x200,
        }
    }
}

impl LightColor {
    /// How many bounces a beam of this color may make; the traced path has at
    /// most one more intersection than this, and never more than
    /// [`crate::beam::LIGHT_MAX_SEGMENTS`].
    pub open spec fn num_bounces(self) -> int {
        match self {
            LightColor::Green => 2,
            LightColor::Purple => 4,
            LightColor::Blue => 1,
            LightColor::White => 1,
        }
    }

    /// Executable bounce allowance, equal to [`Self::num_bounces`].
    pub fn num_bounces_exec(self) -> (n: usize)
        ensures
            n == self.num_bounces(),
    {
        match self {
            LightColor::Green => 2,
            LightColor::Purple => 4,
            LightColor::Blue => 1,
            LightColor::White => 1,
        }
    }

    /// The layer a beam of this color itself lives on: white and blue beams
    /// have layers of their own, the rest share the default ray layer.
    pub open spec fn ray_layer(self) -> Layers {
        match self {
            LightColor::White => Layers::WhiteRay,
            LightColor::Blue => Layers::BlueRay,
            _ => Layers::DefaultLightRay,
        }
    }

    /// The mask a beam of this color is cast against: white rays collide with
    /// terrain and light sensors only; every other color additionally
    /// collides with white ray segments.
    pub open spec fn collision_mask(self) -> u32 {
        match self {
            LightColor::White => 0x3,
            _ => 0x7,
        }
    }

    /// Executable collision mask, equal to [`Self::collision_mask`].
    pub fn collision_mask_exec(self) -> (m: u32)
        ensures
            m == self.collision_mask(),
    {
        match self {
            LightColor::White => 0x3,
            _ => 0x7,
        }
    }
}

/// One boolean per beam color; used for a sensor's "currently hit by" state,
/// the player's remaining beam charges, and a level's allowed colors.
#[derive(Clone, Copy, Debug, PartialEq, Eq, Structural)]
pub struct ColorFlags {
    pub green: bool,
    pub purple: bool,
    pub blue: bool,
    pub white: bool,
}

impl ColorFlags {
    /// All flags clear.
    pub open spec fn spec_empty() -> ColorFlags {
        ColorFlags { green: false, purple: false, blue: false, white: false }
    }

    pub fn empty() -> (f: ColorFlags)
        ensures
            f == ColorFlags::spec_empty(),
    {
        ColorFlags { green: false, purple: false, blue: false, white: false }
    }

    /// All flags set.
    pub open spec fn spec_full() -> ColorFlags {
        ColorFlags { green: true, purple: true, blue: true, white: true }
    }

    pub fn full() -> (f: ColorFlags)
        ensures
            f == ColorFlags::spec_full(),
    {
        ColorFlags { green: true, purple: true, blue: true, white: true }
    }

    /// The flag for one color.
    pub open spec fn spec_get(self, color: LightColor) -> bool {
        match color {
            LightColor::Green => self.green,
            LightColor::Purple => self.purple,
            LightColor::Blue => self.blue,
            LightColor::White => self.white,
        }
    }

    pub fn get(self, color: LightColor) -> (b: bool)
        ensures
            b == self.spec_get(color),
    {
        match color {
            LightColor::Green => self.green,
            LightColor::Purple => self.purple,
            LightColor::Blue => self.blue,
            LightColor::White => self.white,
        }
    }

    /// The flags with one color's flag replaced.
    pub open spec fn spec_set(self, color: LightColor, value: bool) -> ColorFlags {
        match color {
            LightColor::Green => ColorFlags { green: value, ..self },
            LightColor::Purple => ColorFlags { purple: value, ..self },
            LightColor::Blue => ColorFlags { blue: value, ..self },
            LightColor::White => ColorFlags { white: value, ..self },
        }
    }

    pub fn set(&mut self, color: LightColor, value: bool)
        ensures
            *final(self) == old(self).spec_set(color, value),
    {
        match color {
            LightColor::Green => self.green = value,
            LightColor::Purple => self.purple = value,
            LightColor::Blue => self.blue = value,
            LightColor::White => self.white = value,
        }
    }

    /// Whether any flag is set.
    pub open spec fn spec_any(self) -> bool {
        self.green || self.purple || self.blue || self.white
    }

    pub fn any(self) -> (b: bool)
        ensures
            b == self.spec_any(),
    {
        self.green || self.purple || self.blue || self.white
    }
}

} // verus!
