//! The calls into the crates this library builds on: `decasm` decodes,
//! `octopt` holds the fonts, `fastrand` rolls the dice. Verus takes the
//! contracts in this file on trust.

use vstd::prelude::*;
use crate::instruction::Decoded;
use crate::options::Font;

verus! {

/// What `decasm` makes of a 16-bit opcode.
pub uninterp spec fn decasm_decoded(opcode: u16) -> Decoded;

/// The small digits of a font in `octopt`, and its big digits if it has any.
pub uninterp spec fn font_data(font: Font) -> (Seq<u8>, Option<Seq<u8>>);

/// Decodes with `decasm::Instruction::try_from`, from a `decasm::Opcode`
/// of 16 bits, and hands the instruction back as `decasm` itself encodes
/// it, with `decasm::Opcode::from`. The contract claims only that the same
/// opcode always decodes to the same result.
#[verifier::external_body]
pub(crate) fn decode_word(opcode: u16) -> (decoded: Decoded)
    ensures
        decoded == decasm_decoded(opcode),
{
    match decasm::Instruction::try_from(decasm::Opcode::Opcode(opcode)) {
        Ok(instruction) => match decasm::Opcode::from(instruction) {
            decasm::Opcode::Opcode(word) => Decoded::Word(word),
            decasm::Opcode::LongOpcode(long) => Decoded::Long(long),
            _ => Decoded::Unknown,
        },
        Err(decasm::DecodeError::IncompleteLongOpcodeError(..)) => Decoded::Incomplete,
        Err(decasm::DecodeError::UnknownOpcodeError(_)) => Decoded::Unknown,
    }
}

/// Reads a font with `octopt::Font::get_font_data`. The contract claims
/// that a font always has the same data, and that the small digits take 80
/// bytes, which is the length of the array that `octopt` returns.
#[verifier::external_body]
pub(crate) fn font_bytes(font: Font) -> (data: (Vec<u8>, Option<Vec<u8>>))
    ensures
        data.0@ == font_data(font).0,
        data.0@.len() == 80,
        data.1 is Some == font_data(font).1 is Some,
        data.1 is Some ==> data.1->0@ == font_data(font).1->0,
{
    let style = match font {
        Font::Octo => octopt::Font::Octo,
        Font::Vip => octopt::Font::Vip,
        Font::Dream6800 => octopt::Font::Dream6800,
        Font::Eti660 => octopt::Font::Eti660,
        Font::Schip => octopt::Font::Schip,
        Font::Fish => octopt::Font::Fish,
        Font::AKouZ1 => octopt::Font::AKouZ1,
    };
    let (small, big) = style.get_font_data();
    (small.to_vec(), big)
}

/// Draws a byte with `fastrand::u8` over the whole range. Nothing is
/// claimed of the byte.
#[verifier::external_body]
pub(crate) fn random_byte() -> u8 {
    fastrand::u8(..)
}

} // verus!
