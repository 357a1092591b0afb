//! How instructions are encoded, and that reading a word is the inverse
//! of encoding.

use vstd::prelude::*;
use crate::instruction::{
    lemma_number_of_register, lemma_register_of_number, Byte, Instruction,
};

verus! {

impl Instruction {
    /// The word `OXYN` that encodes the instruction: `X` and `Y` are the
    /// numbers of its registers, `N`, `KK` and `NNN` its other operand.
    /// [`Instruction::SetIndexLong`] takes two words, of which this is the
    /// first.
    pub open spec fn encoding(self) -> int {
        match self {
            Instruction::Exit(None) => 0x00FD,
            Instruction::Exit(Some(n)) => 0x0010 + n,
            Instruction::ScrollUp(n) => 0x00D0 + n,
            Instruction::ScrollDown(n) => 0x00C0 + n,
            Instruction::ScrollRight => 0x00FB,
            Instruction::ScrollLeft => 0x00FC,
            Instruction::Clear => 0x00E0,
            Instruction::Return => 0x00EE,
            Instruction::ToggleLoadStoreQuirk => 0x00FA,
            Instruction::LoRes => 0x00FE,
            Instruction::HiRes => 0x00FF,
            Instruction::CallMachineCode(nnn) => 0x0000 + nnn,
            Instruction::Jump(nnn) => 0x1000 + nnn,
            Instruction::Call(nnn) => 0x2000 + nnn,
            Instruction::SkipIfEqual(x, Byte::Immediate(kk)) => 0x3000 + 0x100 * x.number() + kk,
            Instruction::SkipIfNotEqual(x, Byte::Immediate(kk)) => 0x4000 + 0x100 * x.number()
                + kk,
            Instruction::SkipIfEqual(x, Byte::Register(y)) => 0x5000 + 0x100 * x.number() + 0x10
                * y.number(),
            Instruction::StoreRange(x, y) => 0x5002 + 0x100 * x.number() + 0x10 * y.number(),
            Instruction::LoadRange(x, y) => 0x5003 + 0x100 * x.number() + 0x10 * y.number(),
            Instruction::SetRegister(x, Byte::Immediate(kk)) => 0x6000 + 0x100 * x.number() + kk,
            Instruction::Add(x, Byte::Immediate(kk)) => 0x7000 + 0x100 * x.number() + kk,
            Instruction::SetRegister(x, Byte::Register(y)) => 0x8000 + 0x100 * x.number() + 0x10
                * y.number(),
            Instruction::Or(x, y) => 0x8001 + 0x100 * x.number() + 0x10 * y.number(),
            Instruction::And(x, y) => 0x8002 + 0x100 * x.number() + 0x10 * y.number(),
            Instruction::Xor(x, y) => 0x8003 + 0x100 * x.number() + 0x10 * y.number(),
            Instruction::Add(x, Byte::Register(y)) => 0x8004 + 0x100 * x.number() + 0x10
                * y.number(),
            Instruction::Sub(x, y) => 0x8005 + 0x100 * x.number() + 0x10 * y.number(),
            Instruction::ShiftRight(x, y) => 0x8006 + 0x100 * x.number() + 0x10 * y.number(),
            Instruction::SubReverse(x, y) => 0x8007 + 0x100 * x.number() + 0x10 * y.number(),
            Instruction::ShiftLeft(x, y) => 0x800E + 0x100 * x.number() + 0x10 * y.number(),
            Instruction::SkipIfNotEqual(x, Byte::Register(y)) => 0x9000 + 0x100 * x.number()
                + 0x10 * y.number(),
            Instruction::SetIndex(nnn) => 0xA000 + nnn,
            Instruction::JumpRelative(nnn) => 0xB000 + nnn,
            Instruction::Random(x, kk) => 0xC000 + 0x100 * x.number() + kk,
            Instruction::Draw(x, y, n) => 0xD000 + 0x100 * x.number() + 0x10 * y.number() + n,
            Instruction::SkipKey(x) => 0xE09E + 0x100 * x.number(),
            Instruction::SkipNotKey(x) => 0xE0A1 + 0x100 * x.number(),
            Instruction::SetIndexLong => 0xF000,
            Instruction::SelectPlane(n) => 0xF001 + 0x100 * n,
            Instruction::LoadAudio => 0xF002,
            Instruction::LoadDelay(x) => 0xF007 + 0x100 * x.number(),
            Instruction::BlockKey(x) => 0xF00A + 0x100 * x.number(),
            Instruction::SetDelay(x) => 0xF015 + 0x100 * x.number(),
            Instruction::SetSound(x) => 0xF018 + 0x100 * x.number(),
            Instruction::AddRegisterToIndex(x) => 0xF01E + 0x100 * x.number(),
            Instruction::FontCharacter(x) => 0xF029 + 0x100 * x.number(),
            Instruction::BigFontCharacter(x) => 0xF030 + 0x100 * x.number(),
            Instruction::Bcd(x) => 0xF033 + 0x100 * x.number(),
            Instruction::SetPitch(x) => 0xF03A + 0x100 * x.number(),
            Instruction::Store(x) => 0xF055 + 0x100 * x.number(),
            Instruction::Load(x) => 0xF065 + 0x100 * x.number(),
            Instruction::StoreFlags(x) => 0xF075 + 0x100 * x.number(),
            Instruction::LoadFlags(x) => 0xF085 + 0x100 * x.number(),
        }
    }

    /// Whether one word encodes the instruction: its operands fit in their
    /// nibbles, and a call of machine code is not the word of another
    /// instruction `00..`.
    pub open spec fn encodable(self) -> bool {
        match self {
            Instruction::Exit(Some(n)) => n < 0x10,
            Instruction::ScrollUp(n) => n < 0x10,
            Instruction::ScrollDown(n) => n < 0x10,
            Instruction::Draw(_, _, n) => n < 0x10,
            Instruction::SelectPlane(n) => n < 0x10,
            Instruction::Jump(nnn) => nnn < 0x1000,
            Instruction::Call(nnn) => nnn < 0x1000,
            Instruction::SetIndex(nnn) => nnn < 0x1000,
            Instruction::JumpRelative(nnn) => nnn < 0x1000,
            Instruction::CallMachineCode(nnn) => {
                &&& nnn < 0x1000
                &&& nnn / 0x10 != 0x01
                &&& nnn / 0x10 != 0x0C
                &&& nnn / 0x10 != 0x0D
                &&& nnn != 0x0E0
                &&& nnn != 0x0EE
                &&& !(0x0FA <= nnn <= 0x0FF)
            },
            Instruction::SetIndexLong => false,
            _ => true,
        }
    }
}

/// A word encodes the instruction that is read out of it, and no other:
/// reading is the inverse of encoding.
pub proof fn lemma_word_encodes_what_is_read(word: u16)
    ensures
        Instruction::of_word(word) matches Some(instruction) ==> instruction.encodable()
            && instruction.encoding() == word,
{
    lemma_word_of_nibbles(word);
    lemma_number_of_register(word as int / 0x100);
    lemma_number_of_register(word as int / 0x10);
}

/// What an instruction is encoded to is read back as the instruction.
pub proof fn lemma_encoding_is_read_back(instruction: Instruction)
    requires
        instruction.encodable(),
    ensures
        0 <= instruction.encoding() < 0x10000,
        Instruction::of_word(instruction.encoding() as u16) == Some(instruction),
{
    match instruction {
        Instruction::Exit(_)
        | Instruction::ScrollUp(_)
        | Instruction::ScrollDown(_)
        | Instruction::ScrollRight
        | Instruction::ScrollLeft
        | Instruction::Clear
        | Instruction::Return
        | Instruction::ToggleLoadStoreQuirk
        | Instruction::LoRes
        | Instruction::HiRes
        | Instruction::CallMachineCode(_)
        | Instruction::Jump(_)
        | Instruction::Call(_)
        | Instruction::SetIndex(_)
        | Instruction::JumpRelative(_)
        | Instruction::LoadAudio
        | Instruction::SelectPlane(_) => lemma_plain_is_read_back(instruction),
        Instruction::SkipIfEqual(_, _)
        | Instruction::SkipIfNotEqual(_, _)
        | Instruction::SetRegister(_, _)
        | Instruction::Add(_, _)
        | Instruction::Random(_, _) => lemma_immediate_is_read_back(instruction),
        Instruction::Or(_, _)
        | Instruction::And(_, _)
        | Instruction::Xor(_, _)
        | Instruction::Sub(_, _) => lemma_logic_is_read_back(instruction),
        Instruction::ShiftRight(_, _)
        | Instruction::SubReverse(_, _)
        | Instruction::ShiftLeft(_, _) => lemma_shifts_are_read_back(instruction),
        Instruction::StoreRange(_, _)
        | Instruction::LoadRange(_, _)
        | Instruction::Draw(_, _, _) => lemma_ranges_are_read_back(instruction),
        Instruction::SkipKey(_)
        | Instruction::SkipNotKey(_)
        | Instruction::LoadDelay(_)
        | Instruction::BlockKey(_)
        | Instruction::SetPitch(_)
        | Instruction::SetDelay(_)
        | Instruction::SetSound(_) => lemma_keys_and_timers_are_read_back(instruction),
        Instruction::AddRegisterToIndex(_)
        | Instruction::FontCharacter(_)
        | Instruction::BigFontCharacter(_)
        | Instruction::Bcd(_)
        | Instruction::Store(_)
        | Instruction::Load(_)
        | Instruction::StoreFlags(_)
        | Instruction::LoadFlags(_) => lemma_index_and_memory_are_read_back(instruction),
        Instruction::SetIndexLong => {},
    }
}

proof fn lemma_nibbles(o: int, x: int, y: int, n: int)
    requires
        0 <= o < 16,
        0 <= x < 16,
        0 <= y < 16,
        0 <= n < 16,
    ensures
        ({
            let word = 0x1000 * o + 0x100 * x + 0x10 * y + n;
            &&& 0 <= word < 0x10000
            &&& word / 0x1000 == o
            &&& (word / 0x100) % 16 == x
            &&& (word / 0x10) % 16 == y
            &&& word % 0x10 == n
            &&& word % 0x100 == 0x10 * y + n
            &&& word % 0x1000 == 0x100 * x + 0x10 * y + n
        }),
{
    let (a, b, c, d) = (o as u32, x as u32, y as u32, n as u32);
    assert(a < 16 && b < 16 && c < 16 && d < 16 ==> {
        let word = (0x1000 * a + 0x100 * b + 0x10 * c + d) as u32;
        &&& word < 0x10000
        &&& word / 0x1000 == a
        &&& (word / 0x100) % 16 == b
        &&& (word / 0x10) % 16 == c
        &&& word % 0x10 == d
        &&& word % 0x100 == 0x10 * c + d
        &&& word % 0x1000 == 0x100 * b + 0x10 * c + d
    }) by (bit_vector);
}

/// A word is made of its four nibbles.
proof fn lemma_word_of_nibbles(word: u16)
    ensures
        ({
            let o = word as int / 0x1000;
            let x = (word as int / 0x100) % 16;
            let y = (word as int / 0x10) % 16;
            &&& 0 <= o < 16
            &&& word == 0x1000 * o + 0x100 * x + 0x10 * y + word % 0x10
            &&& word == 0x1000 * o + 0x100 * x + word % 0x100
            &&& word == 0x1000 * o + word % 0x1000
            &&& (word % 0x1000) / 0x100 == x
            &&& (word % 0x1000) / 0x10 == 0x10 * x + y
        }),
{
    let w = word as u32;
    assert(w < 0x10000 ==> {
        let o = w / 0x1000;
        let x = (w / 0x100) % 16;
        let y = (w / 0x10) % 16;
        &&& o < 16
        &&& w == 0x1000 * o + 0x100 * x + 0x10 * y + w % 0x10
        &&& w == 0x1000 * o + 0x100 * x + w % 0x100
        &&& w == 0x1000 * o + w % 0x1000
        &&& (w % 0x1000) / 0x100 == x
        &&& (w % 0x1000) / 0x10 == 0x10 * x + y
    }) by (bit_vector);
}

/// Instructions without a register.
proof fn lemma_plain_is_read_back(instruction: Instruction)
    requires
        instruction.encodable(),
        ({
            ||| instruction is Exit
            ||| instruction is ScrollUp
            ||| instruction is ScrollDown
            ||| instruction is ScrollRight
            ||| instruction is ScrollLeft
            ||| instruction is Clear
            ||| instruction is Return
            ||| instruction is ToggleLoadStoreQuirk
            ||| instruction is LoRes
            ||| instruction is HiRes
            ||| instruction is CallMachineCode
            ||| instruction is Jump
            ||| instruction is Call
            ||| instruction is SetIndex
            ||| instruction is JumpRelative
            ||| instruction is LoadAudio
            ||| instruction is SelectPlane
        }),
    ensures
        0 <= instruction.encoding() < 0x10000,
        Instruction::of_word(instruction.encoding() as u16) == Some(instruction),
{
    match instruction {
        Instruction::SelectPlane(n) => {
            lemma_nibbles(0xF, n as int, 0, 1);
        },
        _ => {},
    }
}

/// Instructions with a register and a byte.
proof fn lemma_immediate_is_read_back(instruction: Instruction)
    requires
        instruction.encodable(),
        ({
            ||| instruction is SkipIfEqual
            ||| instruction is SkipIfNotEqual
            ||| instruction is SetRegister
            ||| instruction is Add
            ||| instruction is Random
        }),
    ensures
        0 <= instruction.encoding() < 0x10000,
        Instruction::of_word(instruction.encoding() as u16) == Some(instruction),
{
    match instruction {
        Instruction::SkipIfEqual(x, Byte::Immediate(kk)) => {
            lemma_nibbles(3, x.number(), kk as int / 16, kk as int % 16);
            lemma_register_of_number(x, instruction.encoding() / 0x100);
        },
        Instruction::SkipIfNotEqual(x, Byte::Immediate(kk)) => {
            lemma_nibbles(4, x.number(), kk as int / 16, kk as int % 16);
            lemma_register_of_number(x, instruction.encoding() / 0x100);
        },
        Instruction::SetRegister(x, Byte::Immediate(kk)) => {
            lemma_nibbles(6, x.number(), kk as int / 16, kk as int % 16);
            lemma_register_of_number(x, instruction.encoding() / 0x100);
        },
        Instruction::Add(x, Byte::Immediate(kk)) => {
            lemma_nibbles(7, x.number(), kk as int / 16, kk as int % 16);
            lemma_register_of_number(x, instruction.encoding() / 0x100);
        },
        Instruction::Random(x, kk) => {
            lemma_nibbles(0xC, x.number(), kk as int / 16, kk as int % 16);
            lemma_register_of_number(x, instruction.encoding() / 0x100);
        },
        Instruction::SkipIfEqual(x, Byte::Register(y)) => {
            lemma_nibbles(5, x.number(), y.number(), 0);
            lemma_register_of_number(x, instruction.encoding() / 0x100);
            lemma_register_of_number(y, instruction.encoding() / 0x10);
        },
        Instruction::SkipIfNotEqual(x, Byte::Register(y)) => {
            lemma_nibbles(9, x.number(), y.number(), 0);
            lemma_register_of_number(x, instruction.encoding() / 0x100);
            lemma_register_of_number(y, instruction.encoding() / 0x10);
        },
        Instruction::SetRegister(x, Byte::Register(y)) => {
            lemma_nibbles(8, x.number(), y.number(), 0);
            lemma_register_of_number(x, instruction.encoding() / 0x100);
            lemma_register_of_number(y, instruction.encoding() / 0x10);
        },
        Instruction::Add(x, Byte::Register(y)) => {
            lemma_nibbles(8, x.number(), y.number(), 4);
            lemma_register_of_number(x, instruction.encoding() / 0x100);
            lemma_register_of_number(y, instruction.encoding() / 0x10);
        },
        _ => {},
    }
}

/// Logic and subtraction.
proof fn lemma_logic_is_read_back(instruction: Instruction)
    requires
        instruction.encodable(),
        ({
            ||| instruction is Or
            ||| instruction is And
            ||| instruction is Xor
            ||| instruction is Sub
        }),
    ensures
        0 <= instruction.encoding() < 0x10000,
        Instruction::of_word(instruction.encoding() as u16) == Some(instruction),
{
    match instruction {
        Instruction::Or(x, y) => {
            lemma_nibbles(8, x.number(), y.number(), 1);
            lemma_register_of_number(x, instruction.encoding() / 0x100);
            lemma_register_of_number(y, instruction.encoding() / 0x10);
        },
        Instruction::And(x, y) => {
            lemma_nibbles(8, x.number(), y.number(), 2);
            lemma_register_of_number(x, instruction.encoding() / 0x100);
            lemma_register_of_number(y, instruction.encoding() / 0x10);
        },
        Instruction::Xor(x, y) => {
            lemma_nibbles(8, x.number(), y.number(), 3);
            lemma_register_of_number(x, instruction.encoding() / 0x100);
            lemma_register_of_number(y, instruction.encoding() / 0x10);
        },
        Instruction::Sub(x, y) => {
            lemma_nibbles(8, x.number(), y.number(), 5);
            lemma_register_of_number(x, instruction.encoding() / 0x100);
            lemma_register_of_number(y, instruction.encoding() / 0x10);
        },
        _ => {},
    }
}

/// Shifts and the reverse subtraction.
proof fn lemma_shifts_are_read_back(instruction: Instruction)
    requires
        instruction.encodable(),
        ({
            ||| instruction is ShiftRight
            ||| instruction is SubReverse
            ||| instruction is ShiftLeft
        }),
    ensures
        0 <= instruction.encoding() < 0x10000,
        Instruction::of_word(instruction.encoding() as u16) == Some(instruction),
{
    match instruction {
        Instruction::ShiftRight(x, y) => {
            lemma_nibbles(8, x.number(), y.number(), 6);
            lemma_register_of_number(x, instruction.encoding() / 0x100);
            lemma_register_of_number(y, instruction.encoding() / 0x10);
        },
        Instruction::SubReverse(x, y) => {
            lemma_nibbles(8, x.number(), y.number(), 7);
            lemma_register_of_number(x, instruction.encoding() / 0x100);
            lemma_register_of_number(y, instruction.encoding() / 0x10);
        },
        Instruction::ShiftLeft(x, y) => {
            lemma_nibbles(8, x.number(), y.number(), 0xE);
            lemma_register_of_number(x, instruction.encoding() / 0x100);
            lemma_register_of_number(y, instruction.encoding() / 0x10);
        },
        _ => {},
    }
}

/// Ranges and the draw.
proof fn lemma_ranges_are_read_back(instruction: Instruction)
    requires
        instruction.encodable(),
        ({
            ||| instruction is StoreRange
            ||| instruction is LoadRange
            ||| instruction is Draw
        }),
    ensures
        0 <= instruction.encoding() < 0x10000,
        Instruction::of_word(instruction.encoding() as u16) == Some(instruction),
{
    match instruction {
        Instruction::StoreRange(x, y) => {
            lemma_nibbles(5, x.number(), y.number(), 2);
            lemma_register_of_number(x, instruction.encoding() / 0x100);
            lemma_register_of_number(y, instruction.encoding() / 0x10);
        },
        Instruction::LoadRange(x, y) => {
            lemma_nibbles(5, x.number(), y.number(), 3);
            lemma_register_of_number(x, instruction.encoding() / 0x100);
            lemma_register_of_number(y, instruction.encoding() / 0x10);
        },
        Instruction::Draw(x, y, n) => {
            lemma_nibbles(0xD, x.number(), y.number(), n as int);
            lemma_register_of_number(x, instruction.encoding() / 0x100);
            lemma_register_of_number(y, instruction.encoding() / 0x10);
        },
        _ => {},
    }
}

/// Instructions with one register, on keys and timers.
proof fn lemma_keys_and_timers_are_read_back(instruction: Instruction)
    requires
        instruction.encodable(),
        ({
            ||| instruction is SkipKey
            ||| instruction is SkipNotKey
            ||| instruction is LoadDelay
            ||| instruction is BlockKey
            ||| instruction is SetPitch
            ||| instruction is SetDelay
            ||| instruction is SetSound
        }),
    ensures
        0 <= instruction.encoding() < 0x10000,
        Instruction::of_word(instruction.encoding() as u16) == Some(instruction),
{
    match instruction {
        Instruction::SkipKey(x) => {
            lemma_nibbles(0xE, x.number(), 9, 0xE);
            lemma_register_of_number(x, instruction.encoding() / 0x100);
        },
        Instruction::SkipNotKey(x) => {
            lemma_nibbles(0xE, x.number(), 0xA, 1);
            lemma_register_of_number(x, instruction.encoding() / 0x100);
        },
        Instruction::LoadDelay(x) => {
            lemma_nibbles(0xF, x.number(), 0, 7);
            lemma_register_of_number(x, instruction.encoding() / 0x100);
        },
        Instruction::BlockKey(x) => {
            lemma_nibbles(0xF, x.number(), 0, 0xA);
            lemma_register_of_number(x, instruction.encoding() / 0x100);
        },
        Instruction::SetPitch(x) => {
            lemma_nibbles(0xF, x.number(), 3, 0xA);
            lemma_register_of_number(x, instruction.encoding() / 0x100);
        },
        Instruction::SetDelay(x) => {
            lemma_nibbles(0xF, x.number(), 1, 5);
            lemma_register_of_number(x, instruction.encoding() / 0x100);
        },
        Instruction::SetSound(x) => {
            lemma_nibbles(0xF, x.number(), 1, 8);
            lemma_register_of_number(x, instruction.encoding() / 0x100);
        },
        _ => {},
    }
}

/// Instructions with one register, on `I` and the memory.
proof fn lemma_index_and_memory_are_read_back(instruction: Instruction)
    requires
        instruction.encodable(),
        ({
            ||| instruction is AddRegisterToIndex
            ||| instruction is FontCharacter
            ||| instruction is BigFontCharacter
            ||| instruction is Bcd
            ||| instruction is Store
            ||| instruction is Load
            ||| instruction is StoreFlags
            ||| instruction is LoadFlags
        }),
    ensures
        0 <= instruction.encoding() < 0x10000,
        Instruction::of_word(instruction.encoding() as u16) == Some(instruction),
{
    match instruction {
        Instruction::AddRegisterToIndex(x) => {
            lemma_nibbles(0xF, x.number(), 1, 0xE);
            lemma_register_of_number(x, instruction.encoding() / 0x100);
        },
        Instruction::FontCharacter(x) => {
            lemma_nibbles(0xF, x.number(), 2, 9);
            lemma_register_of_number(x, instruction.encoding() / 0x100);
        },
        Instruction::BigFontCharacter(x) => {
            lemma_nibbles(0xF, x.number(), 3, 0);
            lemma_register_of_number(x, instruction.encoding() / 0x100);
        },
        Instruction::Bcd(x) => {
            lemma_nibbles(0xF, x.number(), 3, 3);
            lemma_register_of_number(x, instruction.encoding() / 0x100);
        },
        Instruction::Store(x) => {
            lemma_nibbles(0xF, x.number(), 5, 5);
            lemma_register_of_number(x, instruction.encoding() / 0x100);
        },
        Instruction::Load(x) => {
            lemma_nibbles(0xF, x.number(), 6, 5);
            lemma_register_of_number(x, instruction.encoding() / 0x100);
        },
        Instruction::StoreFlags(x) => {
            lemma_nibbles(0xF, x.number(), 7, 5);
            lemma_register_of_number(x, instruction.encoding() / 0x100);
        },
        Instruction::LoadFlags(x) => {
            lemma_nibbles(0xF, x.number(), 8, 5);
            lemma_register_of_number(x, instruction.encoding() / 0x100);
        },
        _ => {},
    }
}

} // verus!
