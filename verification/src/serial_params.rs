//! Byte-coded serial-port settings.
//!
//! Each setting is a small closed set with a fixed one-byte encoding that is
//! independent of the layout of the message carrying it.

use vstd::prelude::*;

verus! {

/// A serial-port character length (independent of parity bits).
///
/// Converted back and forth with a `u8` value: `Seven` travels as `1`,
/// `Eight` as `2`.
#[derive(Debug, PartialEq, Eq, Clone, Copy)]
pub enum CharLength {
    Eight,
    Seven,
}

/// The byte that encodes a character length on the wire.
pub open spec fn char_length_byte(c: CharLength) -> u8 {
    match c {
        CharLength::Seven => 1,
        CharLength::Eight => 2,
    }
}

/// The character length a byte decodes to, if any.
pub open spec fn char_length_of_byte(b: u8) -> Option<CharLength> {
    if b == 1 {
        Some(CharLength::Seven)
    } else if b == 2 {
        Some(CharLength::Eight)
    } else {
        None
    }
}

impl CharLength {
    /// Turns a byte into `Some` character length, or `None` if the byte
    /// encodes none.
    pub fn from_byte(byte: &u8) -> (r: Option<Self>)
        ensures
            r == char_length_of_byte(*byte),
    {
        match byte {
            1 => Some(Self::Seven),
            2 => Some(Self::Eight),
            _ => None,
        }
    }

    /// Returns the byte that encodes this character length.
    pub fn get_byte(&self) -> (r: u8)
        ensures
            r == char_length_byte(*self),
    {
        match self {
            Self::Seven => 1,
            Self::Eight => 2,
        }
    }
}

impl Default for CharLength {
    /// The default character length is eight bits.
    fn default() -> (r: Self)
        ensures
            r == CharLength::Eight,
    {
        CharLength::Eight
    }
}

/// A serial-port parity setting.
///
/// Converted back and forth with a `u8` value: `NoParity` travels as `0`,
/// `Even` as `1`, `Odd` as `2`.
#[derive(Debug, PartialEq, Eq, Clone, Copy)]
pub enum Parity {
    Even,
    Odd,
    NoParity,
}

/// The byte that encodes a parity setting on the wire.
pub open spec fn parity_byte(p: Parity) -> u8 {
    match p {
        Parity::NoParity => 0,
        Parity::Even => 1,
        Parity::Odd => 2,
    }
}

/// The parity setting a byte decodes to, if any.
pub open spec fn parity_of_byte(b: u8) -> Option<Parity> {
    if b == 0 {
        Some(Parity::NoParity)
    } else if b == 1 {
        Some(Parity::Even)
    } else if b == 2 {
        Some(Parity::Odd)
    } else {
        None
    }
}

impl Parity {
    /// Turns a byte into `Some` parity setting, or `None` if the byte
    /// encodes none.
    pub fn from_byte(byte: &u8) -> (r: Option<Self>)
        ensures
            r == parity_of_byte(*byte),
    {
        match byte {
            0 => Some(Self::NoParity),
            1 => Some(Self::Even),
            2 => Some(Self::Odd),
            _ => None,
        }
    }

    /// Returns the byte that encodes this parity setting.
    pub fn get_byte(&self) -> (r: u8)
        ensures
            r == parity_byte(*self),
    {
        match self {
            Self::NoParity => 0,
            Self::Even => 1,
            Self::Odd => 2,
        }
    }
}

impl Default for Parity {
    /// The default parity is none.
    fn default() -> (r: Self)
        ensures
            r == Parity::NoParity,
    {
        Parity::NoParity
    }
}

/// A serial-port stop-bits setting.
///
/// Converted back and forth with a `u8` value: `One` travels as `1`,
/// `Two` as `2`, `OneAndHalf` as `3`.
#[derive(Debug, PartialEq, Eq, Clone, Copy)]
pub enum StopBits {
    One,
    Two,
    OneAndHalf,
}

/// The byte that encodes a stop-bits setting on the wire.
pub open spec fn stop_bits_byte(s: StopBits) -> u8 {
    match s {
        StopBits::One => 1,
        StopBits::Two => 2,
        StopBits::OneAndHalf => 3,
    }
}

/// The stop-bits setting a byte decodes to, if any.
pub open spec fn stop_bits_of_byte(b: u8) -> Option<StopBits> {
    if b == 1 {
        Some(StopBits::One)
    } else if b == 2 {
        Some(StopBits::Two)
    } else if b == 3 {
        Some(StopBits::OneAndHalf)
    } else {
        None
    }
}

impl StopBits {
    /// Turns a byte into `Some` stop-bits setting, or `None` if the byte
    /// encodes none.
    pub fn from_byte(byte: &u8) -> (r: Option<Self>)
        ensures
            r == stop_bits_of_byte(*byte),
    {
        match byte {
            1 => Some(Self::One),
            2 => Some(Self::Two),
            3 => Some(Self::OneAndHalf),
            _ => None,
        }
    }

    /// Returns the byte that encodes this stop-bits setting.
    pub fn get_byte(&self) -> (r: u8)
        ensures
            r == stop_bits_byte(*self),
    {
        match self {
            Self::One => 1,
            Self::Two => 2,
            Self::OneAndHalf => 3,
        }
    }
}

impl Default for StopBits {
    /// The default is one stop bit.
    fn default() -> (r: Self)
        ensures
            r == StopBits::One,
    {
        StopBits::One
    }
}

/// The parity setting read from a wire byte, falling back to `Parity::NoParity`
/// for a byte that encodes no parity setting, as the decoder does.
pub open spec fn parity_or_default(b: u8) -> Parity {
    match parity_of_byte(b) {
        Some(p) => p,
        None => Parity::NoParity,
    }
}

/// The stop-bits setting read from a wire byte, falling back to
/// `StopBits::One` for a byte that encodes no stop-bits setting, as the
/// decoder does.
pub open spec fn stop_bits_or_default(b: u8) -> StopBits {
    match stop_bits_of_byte(b) {
        Some(s) => s,
        None => StopBits::One,
    }
}

} // verus!
