//! Strongly typed identifiers for rooms, players, avatars, images and turn
//! options.
//!
//! Room and player identifiers carry the 128 bits of a randomly generated
//! UUID; the library treats them as opaque values with equality only.

use vstd::prelude::*;

verus! {

/// Unique identifier for a game room.
#[derive(Debug, Clone, Copy, PartialEq, Eq, Structural, Hash)]
pub struct RoomId(u128);

/// Unique identifier for a player.
#[derive(Debug, Clone, Copy, PartialEq, Eq, Structural, Hash)]
pub struct PlayerId(u128);

/// Relies on `uuid::Uuid::new_v4` and `uuid::Uuid::as_u128`: a freshly
/// generated random version-4 UUID, taken as its 128-bit value.
#[verifier::external_body]
pub(crate) fn fresh_id_bits() -> u128 {
    uuid::Uuid::new_v4().as_u128()
}

impl View for RoomId {
    type V = u128;

    closed spec fn view(&self) -> u128 {
        self.0
    }
}

impl RoomId {
    /// Create a new random room identifier.
    pub fn new() -> Self {
        Self(fresh_id_bits())
    }

    /// Build a room identifier from its 128-bit value.
    pub fn from_bits(bits: u128) -> (r: Self)
        ensures
            r@ == bits,
    {
        Self(bits)
    }

    /// The 128-bit value of this identifier.
    pub fn as_bits(&self) -> (r: u128)
        ensures
            r == self@,
    {
        self.0
    }
}

impl View for PlayerId {
    type V = u128;

    closed spec fn view(&self) -> u128 {
        self.0
    }
}

impl PlayerId {
    /// Create a new random player identifier.
    pub fn new() -> Self {
        Self(fresh_id_bits())
    }

    /// Build a player identifier from its 128-bit value.
    pub fn from_bits(bits: u128) -> (r: Self)
        ensures
            r@ == bits,
    {
        Self(bits)
    }

    /// The 128-bit value of this identifier.
    pub fn as_bits(&self) -> (r: u128)
        ensures
            r == self@,
    {
        self.0
    }
}

/// Avatar identifier: one of the ten avatars, numbered 0 through 9.
#[derive(Debug, Clone, Copy, PartialEq, Eq, Structural, Hash)]
pub struct AvatarId(u8);

impl View for AvatarId {
    type V = u8;

    closed spec fn view(&self) -> u8 {
        self.0
    }
}

impl AvatarId {
    /// Create an avatar identifier from a value in 0..=9.
    pub fn new(id: u8) -> (r: Self)
        requires
            id < 10,
        ensures
            r@ == id,
    {
        Self(id)
    }

    /// The inner value.
    pub fn as_u8(&self) -> (r: u8)
        ensures
            r == self@,
    {
        self.0
    }

    /// The default avatar (avatar 0).
    pub fn default() -> (r: Self)
        ensures
            r@ == 0,
    {
        Self(0)
    }
}

/// Opaque handle to an externally generated image; the library only stores
/// and forwards it.
#[derive(Debug, PartialEq, Eq, Hash)]
pub struct ImageId(String);

impl View for ImageId {
    type V = Seq<char>;

    closed spec fn view(&self) -> Seq<char> {
        self.0@
    }
}

impl ImageId {
    /// Create an image handle from a string.
    pub fn new(id: &str) -> (r: Self)
        ensures
            r@ == id@,
    {
        Self(id.to_owned())
    }

    /// The inner string.
    pub fn as_str(&self) -> (r: &str)
        ensures
            r@ == self@,
    {
        self.0.as_str()
    }
}

impl Clone for ImageId {
    /// A copy of this handle, denoting the same image.
    fn clone(&self) -> (r: Self)
        ensures
            r@ == self@,
    {
        Self(self.0.clone())
    }
}

/// Identifier for one of the four modification options offered on a turn.
#[derive(Debug, Clone, Copy, PartialEq, Eq, Structural, Hash)]
pub struct OptionId(u8);

impl View for OptionId {
    type V = u8;

    closed spec fn view(&self) -> u8 {
        self.0
    }
}

impl OptionId {
    /// Create an option identifier from a value in 0..=3.
    pub fn new(id: u8) -> (r: Self)
        requires
            id < 4,
        ensures
            r@ == id,
    {
        Self(id)
    }

    /// The inner value.
    pub fn as_u8(&self) -> (r: u8)
        ensures
            r == self@,
    {
        self.0
    }
}

} // verus!
