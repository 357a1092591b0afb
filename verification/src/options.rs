//! The configuration of a machine: where a program starts, which font is
//! loaded, and the quirks that choose between variants of an instruction.

use vstd::prelude::*;

verus! {

/// The fonts a machine can load. Every font has small digits of 5 bytes;
/// some also have big digits of 10 bytes.
#[derive(Clone, Copy, Debug, PartialEq, Eq)]
pub enum Font {
    Octo,
    Vip,
    Dream6800,
    Eti660,
    Schip,
    Fish,
    AKouZ1,
}

/// What `DXY0` draws in low-resolution mode.
#[derive(Clone, Copy, Debug, PartialEq, Eq)]
pub enum LoResDxy0Behavior {
    /// Nothing.
    NoOp,
    /// A sprite 8 wide and 16 high.
    TallSprite,
    /// A sprite 16 wide and 16 high, as in high-resolution mode.
    BigSprite,
}

/// The quirks. A quirk that is `None` is off.
#[derive(Clone, Copy, Debug, PartialEq, Eq)]
pub struct Quirks {
    /// The shift instructions shift `VX` in place; else they shift `VY`
    /// into `VX`.
    pub shift: Option<bool>,
    /// `FX55` and `FX65` leave `I` as it is; else they move it past what
    /// they stored or loaded.
    pub load_store: Option<bool>,
    /// `BXNN` adds `VX`; else `BNNN` adds `V0`.
    pub jump0: Option<bool>,
    /// `8XY1`, `8XY2` and `8XY3` reset `VF`.
    pub logic: Option<bool>,
    /// Sprites are cut off at the edges. The display always does so.
    pub clip: Option<bool>,
    /// A run ends after a draw instruction.
    pub vblank: Option<bool>,
    /// A change of resolution clears the display.
    pub res_clear: Option<bool>,
    /// The delay timer is left to the host.
    pub delay_wrap: Option<bool>,
    /// What `DXY0` draws in low-resolution mode.
    pub lores_dxy0: Option<LoResDxy0Behavior>,
    /// A draw counts the rows that collided. Kept for the host; a draw
    /// reports 0 or 1.
    pub multi_collision: Option<bool>,
}

/// The options of a machine.
#[derive(Clone, Copy, Debug, PartialEq, Eq)]
pub struct Options {
    /// Where the program counter starts; `0x200` if `None`.
    pub start_address: Option<u16>,
    /// The font to load.
    pub font_style: Font,
    /// The quirks.
    pub quirks: Quirks,
}

/// Whether a quirk is switched on.
pub open spec fn is_on(quirk: Option<bool>) -> bool {
    quirk == Some(true)
}

/// Whether a quirk is switched on.
pub fn enabled(quirk: Option<bool>) -> (on: bool)
    ensures
        on == is_on(quirk),
{
    match quirk {
        Some(on) => on,
        None => false,
    }
}

impl Quirks {
    /// The quirks of Octo: a change of resolution clears the display, and
    /// `DXY0` draws a big sprite; every other quirk is off.
    pub open spec fn octo() -> Quirks {
        Quirks {
            shift: Some(false),
            load_store: Some(false),
            jump0: Some(false),
            logic: Some(false),
            clip: Some(false),
            vblank: Some(false),
            res_clear: Some(true),
            delay_wrap: Some(false),
            lores_dxy0: Some(LoResDxy0Behavior::BigSprite),
            multi_collision: Some(false),
        }
    }
}

impl Default for Quirks {
    fn default() -> (quirks: Quirks)
        ensures
            quirks == Quirks::octo(),
    {
        Quirks {
            shift: Some(false),
            load_store: Some(false),
            jump0: Some(false),
            logic: Some(false),
            clip: Some(false),
            vblank: Some(false),
            res_clear: Some(true),
            delay_wrap: Some(false),
            lores_dxy0: Some(LoResDxy0Behavior::BigSprite),
            multi_collision: Some(false),
        }
    }
}

impl Options {
    /// The options of Octo: programs start at `0x200`, with Octo's font
    /// and quirks.
    pub open spec fn octo() -> Options {
        Options { start_address: Some(0x200), font_style: Font::Octo, quirks: Quirks::octo() }
    }

    /// Where the program counter starts.
    pub open spec fn start(self) -> u16 {
        match self.start_address {
            Some(address) => address,
            None => 0x200,
        }
    }
}

impl Default for Options {
    fn default() -> (options: Options)
        ensures
            options == Options::octo(),
    {
        Options { start_address: Some(0x200), font_style: Font::Octo, quirks: Quirks::default() }
    }
}

} // verus!
