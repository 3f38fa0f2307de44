//! A 3-component value used as an RGB color: the components are stored as
//! `x`/`y`/`z` and may equally be read as `r`/`g`/`b` (same storage,
//! presentation-only naming). Each channel is an 8-bit value, the unit in
//! which the pixel buffer is exported.

use vstd::prelude::*;

verus! {

/// A position, rotation, or something else; in this library, an RGB color.
#[derive(Clone, Copy, Debug, PartialEq, Eq, Structural)]
pub struct Vec3 {
    /// The X component (red, when read as a color).
    pub x: u8,
    /// The Y component (green, when read as a color).
    pub y: u8,
    /// The Z component (blue, when read as a color).
    pub z: u8,
}

impl Vec3 {
    /// Build a value from its three components.
    pub fn new(x: u8, y: u8, z: u8) -> (r: Vec3)
        ensures
            r == (Vec3 { x, y, z }),
    {
        Vec3 { x, y, z }
    }

    /// Get the X component.
    pub fn x(self) -> (r: u8)
        ensures
            r == self.x,
    {
        self.x
    }

    /// Set the X component.
    pub fn set_x(&mut self, value: u8)
        ensures
            *final(self) == (Vec3 { x: value, ..*old(self) }),
    {
        self.x = value;
    }

    /// Get the Y component.
    pub fn y(self) -> (r: u8)
        ensures
            r == self.y,
    {
        self.y
    }

    /// Set the Y component.
    pub fn set_y(&mut self, value: u8)
        ensures
            *final(self) == (Vec3 { y: value, ..*old(self) }),
    {
        self.y = value;
    }

    /// Get the Z component.
    pub fn z(self) -> (r: u8)
        ensures
            r == self.z,
    {
        self.z
    }

    /// Set the Z component.
    pub fn set_z(&mut self, value: u8)
        ensures
            *final(self) == (Vec3 { z: value, ..*old(self) }),
    {
        self.z = value;
    }

    /// Get the red component (maps to X).
    pub fn r(self) -> (r: u8)
        ensures
            r == self.x,
    {
        self.x
    }

    /// Set the red component (maps to X).
    pub fn set_r(&mut self, value: u8)
        ensures
            *final(self) == (Vec3 { x: value, ..*old(self) }),
    {
        self.x = value;
    }

    /// Get the green component (maps to Y).
    pub fn g(self) -> (r: u8)
        ensures
            r == self.y,
    {
        self.y
    }

    /// Set the green component (maps to Y).
    pub fn set_g(&mut self, value: u8)
        ensures
            *final(self) == (Vec3 { y: value, ..*old(self) }),
    {
        self.y = value;
    }

    /// Get the blue component (maps to Z).
    pub fn b(self) -> (r: u8)
        ensures
            r == self.z,
    {
        self.z
    }

    /// Set the blue component (maps to Z).
    pub fn set_b(&mut self, value: u8)
        ensures
            *final(self) == (Vec3 { z: value, ..*old(self) }),
    {
        self.z = value;
    }
}

} // verus!
