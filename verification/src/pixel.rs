//! Pixels and channel selection.
use vstd::prelude::*;

verus! {

/// One truecolor pixel: three 8-bit channels.
///
/// The in-memory order of the fields carries no meaning; the codec alone
/// decides in which order the channels appear on the wire.
#[derive(Clone, Copy, Debug, PartialEq, Eq, Structural)]
pub struct Pixel {
    pub red: u8,
    pub green: u8,
    pub blue: u8,
}

/// Selects one of the three channels of a pixel.
#[derive(Clone, Copy, Debug, PartialEq, Eq, Structural)]
pub enum Channel {
    Red,
    Green,
    Blue,
}

impl Pixel {
    /// The value of the selected channel.
    pub open spec fn channel(self, channel: Channel) -> u8 {
        match channel {
            Channel::Red => self.red,
            Channel::Green => self.green,
            Channel::Blue => self.blue,
        }
    }

    /// Reads the selected channel.
    pub fn get(&self, channel: Channel) -> (value: u8)
        ensures
            value == self.channel(channel),
    {
        match channel {
            Channel::Red => self.red,
            Channel::Green => self.green,
            Channel::Blue => self.blue,
        }
    }
}

} // verus!
