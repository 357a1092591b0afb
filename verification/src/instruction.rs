//! The instructions of the machine, and how they are read out of their
//! 16-bit encoding.

use vstd::prelude::*;
use crate::encoding::{lemma_encoding_is_read_back, lemma_word_encodes_what_is_read};

verus! {

/// One of the 16 variable registers `V0` to `VF`.
#[derive(Clone, Copy, Debug, PartialEq, Eq)]
pub enum Register {
    V0,
    V1,
    V2,
    V3,
    V4,
    V5,
    V6,
    V7,
    V8,
    V9,
    VA,
    VB,
    VC,
    VD,
    VE,
    VF,
}

impl Register {
    /// The number of the register, 0 to 15.
    pub open spec fn number(self) -> int {
        match self {
            Register::V0 => 0,
            Register::V1 => 1,
            Register::V2 => 2,
            Register::V3 => 3,
            Register::V4 => 4,
            Register::V5 => 5,
            Register::V6 => 6,
            Register::V7 => 7,
            Register::V8 => 8,
            Register::V9 => 9,
            Register::VA => 10,
            Register::VB => 11,
            Register::VC => 12,
            Register::VD => 13,
            Register::VE => 14,
            Register::VF => 15,
        }
    }

    /// The register with the given number, if there is one.
    pub open spec fn numbered(number: int) -> Option<Register> {
        if number == 0 {
            Some(Register::V0)
        } else if number == 1 {
            Some(Register::V1)
        } else if number == 2 {
            Some(Register::V2)
        } else if number == 3 {
            Some(Register::V3)
        } else if number == 4 {
            Some(Register::V4)
        } else if number == 5 {
            Some(Register::V5)
        } else if number == 6 {
            Some(Register::V6)
        } else if number == 7 {
            Some(Register::V7)
        } else if number == 8 {
            Some(Register::V8)
        } else if number == 9 {
            Some(Register::V9)
        } else if number == 10 {
            Some(Register::VA)
        } else if number == 11 {
            Some(Register::VB)
        } else if number == 12 {
            Some(Register::VC)
        } else if number == 13 {
            Some(Register::VD)
        } else if number == 14 {
            Some(Register::VE)
        } else if number == 15 {
            Some(Register::VF)
        } else {
            None
        }
    }

    /// The number of the register, 0 to 15.
    pub fn index(self) -> (index: usize)
        ensures
            index == self.number(),
            index < 16,
    {
        match self {
            Register::V0 => 0,
            Register::V1 => 1,
            Register::V2 => 2,
            Register::V3 => 3,
            Register::V4 => 4,
            Register::V5 => 5,
            Register::V6 => 6,
            Register::V7 => 7,
            Register::V8 => 8,
            Register::V9 => 9,
            Register::VA => 10,
            Register::VB => 11,
            Register::VC => 12,
            Register::VD => 13,
            Register::VE => 14,
            Register::VF => 15,
        }
    }

    /// The register with the given number, if there is one.
    pub fn new(number: u8) -> (register: Option<Register>)
        ensures
            register == Register::numbered(number as int),
            register is Some <==> number < 16,
            register matches Some(r) ==> r.number() == number,
    {
        match number {
            0 => Some(Register::V0),
            1 => Some(Register::V1),
            2 => Some(Register::V2),
            3 => Some(Register::V3),
            4 => Some(Register::V4),
            5 => Some(Register::V5),
            6 => Some(Register::V6),
            7 => Some(Register::V7),
            8 => Some(Register::V8),
            9 => Some(Register::V9),
            10 => Some(Register::VA),
            11 => Some(Register::VB),
            12 => Some(Register::VC),
            13 => Some(Register::VD),
            14 => Some(Register::VE),
            15 => Some(Register::VF),
            _ => None,
        }
    }

    /// The register whose number is the low nibble of `number`.
    pub fn of_nibble(number: u8) -> (register: Register)
        ensures
            register.number() == number % 16,
            register == self::register(number as int),
    {
        reveal(self::register);
        match Register::new(number % 16) {
            Some(register) => register,
            None => Register::V0,
        }
    }
}

/// A byte operand: the value of a register, or an immediate value.
#[derive(Clone, Copy, Debug, PartialEq, Eq)]
pub enum Byte {
    Register(Register),
    Immediate(u8),
}

/// The instructions.
#[derive(Clone, Copy, Debug, PartialEq, Eq)]
pub enum Instruction {
    /// `00FD`, `001N`: end the run, with an exit code or without.
    Exit(Option<u8>),
    /// `00DN`: scroll the display up by `N` pixels.
    ScrollUp(u8),
    /// `00CN`: scroll the display down by `N` pixels.
    ScrollDown(u8),
    /// `00FB`: scroll the display right by 4 pixels.
    ScrollRight,
    /// `00FC`: scroll the display left by 4 pixels.
    ScrollLeft,
    /// `00E0`: clear the active planes.
    Clear,
    /// `00EE`: return from a subroutine.
    Return,
    /// `00FA`: flip the `load_store` quirk.
    ToggleLoadStoreQuirk,
    /// `00FE`: switch to low resolution.
    LoRes,
    /// `00FF`: switch to high resolution.
    HiRes,
    /// `0NNN`: call a machine code routine.
    CallMachineCode(u16),
    /// `1NNN`: jump to `NNN`.
    Jump(u16),
    /// `2NNN`: call the subroutine at `NNN`.
    Call(u16),
    /// `3XKK`, `5XY0`: skip the next instruction if `VX` equals the operand.
    SkipIfEqual(Register, Byte),
    /// `4XKK`, `9XY0`: skip the next instruction if `VX` differs from the
    /// operand.
    SkipIfNotEqual(Register, Byte),
    /// `7XKK`, `8XY4`: add the operand to `VX`.
    Add(Register, Byte),
    /// `6XKK`, `8XY0`: set `VX` to the operand.
    SetRegister(Register, Byte),
    /// `8XY1`: `VX |= VY`.
    Or(Register, Register),
    /// `8XY2`: `VX &= VY`.
    And(Register, Register),
    /// `8XY3`: `VX ^= VY`.
    Xor(Register, Register),
    /// `8XY5`: `VX -= VY`.
    Sub(Register, Register),
    /// `8XY6`: shift right by one bit.
    ShiftRight(Register, Register),
    /// `8XYE`: shift left by one bit.
    ShiftLeft(Register, Register),
    /// `8XY7`: `VX = VY - VX`.
    SubReverse(Register, Register),
    /// `ANNN`: set `I` to `NNN`.
    SetIndex(u16),
    /// `F000 NNNN`: set `I` to the word that follows the instruction.
    SetIndexLong,
    /// `BNNN`: jump to `NNN` plus a register.
    JumpRelative(u16),
    /// `CXKK`: set `VX` to a random byte masked by `KK`.
    Random(Register, u8),
    /// `DXYN`: draw a sprite of `N` rows at `(VX, VY)`.
    Draw(Register, Register, u8),
    /// `EX9E`: skip the next instruction if the key in `VX` is down.
    SkipKey(Register),
    /// `EXA1`: skip the next instruction if the key in `VX` is up.
    SkipNotKey(Register),
    /// `F002`: load the audio pattern. Sound is the host's.
    LoadAudio,
    /// `FX07`: set `VX` to the delay timer.
    LoadDelay(Register),
    /// `FX0A`: wait for a key and put it in `VX`.
    BlockKey(Register),
    /// `FN01`: select the planes `N`.
    SelectPlane(u8),
    /// `FX3A`: set the audio pitch. Sound is the host's.
    SetPitch(Register),
    /// `FX15`: set the delay timer to `VX`.
    SetDelay(Register),
    /// `FX18`: set the sound timer to `VX`.
    SetSound(Register),
    /// `FX1E`: add `VX` to `I`.
    AddRegisterToIndex(Register),
    /// `FX29`: point `I` at the small digit `VX`.
    FontCharacter(Register),
    /// `FX30`: point `I` at the big digit `VX`.
    BigFontCharacter(Register),
    /// `FX33`: store the decimal digits of `VX` at `I`.
    Bcd(Register),
    /// `FX55`: store `V0` to `VX` at `I`.
    Store(Register),
    /// `FX65`: load `V0` to `VX` from `I`.
    Load(Register),
    /// `5XY2`: store `VX` to `VY` at `I`.
    StoreRange(Register, Register),
    /// `5XY3`: load `VX` to `VY` from `I`.
    LoadRange(Register, Register),
    /// `FX75`: store `V0` to `VX` in the user flags.
    StoreFlags(Register),
    /// `FX85`: load `V0` to `VX` from the user flags.
    LoadFlags(Register),
}

/// What a decoder makes of a 16-bit word.
#[derive(Clone, Copy, Debug, PartialEq, Eq)]
pub enum Decoded {
    /// An instruction, by its 16-bit encoding.
    Word(u16),
    /// An instruction, by its 32-bit encoding.
    Long(u32),
    /// The first half of a 32-bit instruction.
    Incomplete,
    /// No instruction.
    Unknown,
}

impl Decoded {
    /// The instruction that was decoded, if any. The first half of a
    /// 32-bit instruction stands for [`Instruction::SetIndexLong`], which
    /// fetches its second half when it is executed. A 32-bit encoding is
    /// none that 16 bits can have.
    pub open spec fn instruction(self) -> Option<Instruction> {
        match self {
            Decoded::Word(word) => Instruction::of_word(word),
            Decoded::Incomplete => Some(Instruction::SetIndexLong),
            Decoded::Long(_) => None,
            Decoded::Unknown => None,
        }
    }

    /// The instruction that was decoded, if any.
    pub fn to_instruction(self) -> (instruction: Option<Instruction>)
        ensures
            instruction == self.instruction(),
    {
        match self {
            Decoded::Word(word) => Instruction::from_word(word),
            Decoded::Incomplete => Some(Instruction::SetIndexLong),
            Decoded::Long(_) => None,
            Decoded::Unknown => None,
        }
    }
}

/// The four families of instructions.
#[derive(Clone, Copy, Debug, PartialEq, Eq)]
pub enum Family {
    /// Jumps, calls, returns, skips, the wait for a key and what ends a run.
    Flow,
    /// What changes the registers and timers.
    Arithmetic,
    /// What changes `I`, the memory and the user flags.
    Memory,
    /// What changes the display, the quirks and the sound.
    Screen,
}

/// The register whose number is the low nibble of `number`.
#[verifier::opaque]
pub open spec fn register(number: int) -> Register {
    match Register::numbered(number % 16) {
        Some(register) => register,
        None => Register::V0,
    }
}

/// Numbers with the same low nibble have the same register.
pub proof fn lemma_same_register(number: int, other: int)
    requires
        number % 16 == other % 16,
    ensures
        register(number) == register(other),
{
    reveal(register);
}

/// A register is found again by its number, and by every number with
/// the same low nibble.
pub proof fn lemma_register_of_number(x: Register, number: int)
    requires
        number % 16 == x.number(),
    ensures
        0 <= x.number() < 16,
        register(number) == x,
{
    reveal(register);
}

/// The number of the register of a number is the low nibble of the
/// number.
pub proof fn lemma_number_of_register(number: int)
    ensures
        register(number).number() == number % 16,
{
    reveal(register);
}

impl Instruction {
    /// Whether the instruction is a draw or a scroll, which can empty the
    /// display without setting its `clear` flag.
    pub open spec fn may_empty_display(self) -> bool {
        ||| self is Draw
        ||| self is ScrollUp
        ||| self is ScrollDown
        ||| self is ScrollLeft
        ||| self is ScrollRight
    }

    /// The family of an instruction.
    pub open spec fn family(self) -> Family {
        match self {
            Instruction::Exit(_)
            | Instruction::Return
            | Instruction::CallMachineCode(_)
            | Instruction::Jump(_)
            | Instruction::Call(_)
            | Instruction::SkipIfEqual(_, _)
            | Instruction::SkipIfNotEqual(_, _)
            | Instruction::JumpRelative(_)
            | Instruction::SkipKey(_)
            | Instruction::SkipNotKey(_)
            | Instruction::BlockKey(_)
            => Family::Flow,
            Instruction::Add(_, _)
            | Instruction::SetRegister(_, _)
            | Instruction::Or(_, _)
            | Instruction::And(_, _)
            | Instruction::Xor(_, _)
            | Instruction::Sub(_, _)
            | Instruction::ShiftRight(_, _)
            | Instruction::ShiftLeft(_, _)
            | Instruction::SubReverse(_, _)
            | Instruction::Random(_, _)
            | Instruction::LoadDelay(_)
            | Instruction::SetDelay(_)
            | Instruction::SetSound(_)
            => Family::Arithmetic,
            Instruction::SetIndex(_)
            | Instruction::SetIndexLong
            | Instruction::AddRegisterToIndex(_)
            | Instruction::FontCharacter(_)
            | Instruction::BigFontCharacter(_)
            | Instruction::Bcd(_)
            | Instruction::Store(_)
            | Instruction::Load(_)
            | Instruction::StoreRange(_, _)
            | Instruction::LoadRange(_, _)
            | Instruction::StoreFlags(_)
            | Instruction::LoadFlags(_)
            => Family::Memory,
            Instruction::ScrollUp(_)
            | Instruction::ScrollDown(_)
            | Instruction::ScrollRight
            | Instruction::ScrollLeft
            | Instruction::Clear
            | Instruction::LoRes
            | Instruction::HiRes
            | Instruction::Draw(_, _, _)
            | Instruction::SelectPlane(_)
            | Instruction::ToggleLoadStoreQuirk
            | Instruction::LoadAudio
            | Instruction::SetPitch(_)
            => Family::Screen,
        }
    }

    /// The family of an instruction.
    pub fn to_family(self) -> (family: Family)
        ensures
            family == self.family(),
    {
        match self {
            Instruction::Exit(_)
            | Instruction::Return
            | Instruction::CallMachineCode(_)
            | Instruction::Jump(_)
            | Instruction::Call(_)
            | Instruction::SkipIfEqual(_, _)
            | Instruction::SkipIfNotEqual(_, _)
            | Instruction::JumpRelative(_)
            | Instruction::SkipKey(_)
            | Instruction::SkipNotKey(_)
            | Instruction::BlockKey(_)
            => Family::Flow,
            Instruction::Add(_, _)
            | Instruction::SetRegister(_, _)
            | Instruction::Or(_, _)
            | Instruction::And(_, _)
            | Instruction::Xor(_, _)
            | Instruction::Sub(_, _)
            | Instruction::ShiftRight(_, _)
            | Instruction::ShiftLeft(_, _)
            | Instruction::SubReverse(_, _)
            | Instruction::Random(_, _)
            | Instruction::LoadDelay(_)
            | Instruction::SetDelay(_)
            | Instruction::SetSound(_)
            => Family::Arithmetic,
            Instruction::SetIndex(_)
            | Instruction::SetIndexLong
            | Instruction::AddRegisterToIndex(_)
            | Instruction::FontCharacter(_)
            | Instruction::BigFontCharacter(_)
            | Instruction::Bcd(_)
            | Instruction::Store(_)
            | Instruction::Load(_)
            | Instruction::StoreRange(_, _)
            | Instruction::LoadRange(_, _)
            | Instruction::StoreFlags(_)
            | Instruction::LoadFlags(_)
            => Family::Memory,
            Instruction::ScrollUp(_)
            | Instruction::ScrollDown(_)
            | Instruction::ScrollRight
            | Instruction::ScrollLeft
            | Instruction::Clear
            | Instruction::LoRes
            | Instruction::HiRes
            | Instruction::Draw(_, _, _)
            | Instruction::SelectPlane(_)
            | Instruction::ToggleLoadStoreQuirk
            | Instruction::LoadAudio
            | Instruction::SetPitch(_)
            => Family::Screen,
        }
    }

    /// The instruction that the word `OXYN` encodes, with `KK` for `YN` and
    /// `NNN` for `XYN`, or `None` where the word encodes none. A word `0NNN`
    /// that is none of the instructions `00..` calls machine code. `F000` is
    /// the first half of [`Instruction::SetIndexLong`], encodes nothing by
    /// itself, and has `None`.
    pub open spec fn of_word(word: u16) -> Option<Instruction> {
        let o = word as int / 0x1000;
        let x = register(word as int / 0x100);
        let y = register(word as int / 0x10);
        let n = (word % 0x10) as u8;
        let kk = (word % 0x100) as u8;
        let nnn = (word % 0x1000) as u16;
        if o == 0x0 {
            Some(
                if nnn / 0x10 == 0x01 {
                    Instruction::Exit(Some(n))
                } else if nnn / 0x10 == 0x0C {
                    Instruction::ScrollDown(n)
                } else if nnn / 0x10 == 0x0D {
                    Instruction::ScrollUp(n)
                } else if nnn == 0x0E0 {
                    Instruction::Clear
                } else if nnn == 0x0EE {
                    Instruction::Return
                } else if nnn == 0x0FA {
                    Instruction::ToggleLoadStoreQuirk
                } else if nnn == 0x0FB {
                    Instruction::ScrollRight
                } else if nnn == 0x0FC {
                    Instruction::ScrollLeft
                } else if nnn == 0x0FD {
                    Instruction::Exit(None)
                } else if nnn == 0x0FE {
                    Instruction::LoRes
                } else if nnn == 0x0FF {
                    Instruction::HiRes
                } else {
                    Instruction::CallMachineCode(nnn)
                },
            )
        } else if o == 0x1 {
            Some(Instruction::Jump(nnn))
        } else if o == 0x2 {
            Some(Instruction::Call(nnn))
        } else if o == 0x3 {
            Some(Instruction::SkipIfEqual(x, Byte::Immediate(kk)))
        } else if o == 0x4 {
            Some(Instruction::SkipIfNotEqual(x, Byte::Immediate(kk)))
        } else if o == 0x5 {
            if n == 0x0 {
                Some(Instruction::SkipIfEqual(x, Byte::Register(y)))
            } else if n == 0x2 {
                Some(Instruction::StoreRange(x, y))
            } else if n == 0x3 {
                Some(Instruction::LoadRange(x, y))
            } else {
                None
            }
        } else if o == 0x6 {
            Some(Instruction::SetRegister(x, Byte::Immediate(kk)))
        } else if o == 0x7 {
            Some(Instruction::Add(x, Byte::Immediate(kk)))
        } else if o == 0x8 {
            if n == 0x0 {
                Some(Instruction::SetRegister(x, Byte::Register(y)))
            } else if n == 0x1 {
                Some(Instruction::Or(x, y))
            } else if n == 0x2 {
                Some(Instruction::And(x, y))
            } else if n == 0x3 {
                Some(Instruction::Xor(x, y))
            } else if n == 0x4 {
                Some(Instruction::Add(x, Byte::Register(y)))
            } else if n == 0x5 {
                Some(Instruction::Sub(x, y))
            } else if n == 0x6 {
                Some(Instruction::ShiftRight(x, y))
            } else if n == 0x7 {
                Some(Instruction::SubReverse(x, y))
            } else if n == 0xE {
                Some(Instruction::ShiftLeft(x, y))
            } else {
                None
            }
        } else if o == 0x9 {
            if n == 0x0 {
                Some(Instruction::SkipIfNotEqual(x, Byte::Register(y)))
            } else {
                None
            }
        } else if o == 0xA {
            Some(Instruction::SetIndex(nnn))
        } else if o == 0xB {
            Some(Instruction::JumpRelative(nnn))
        } else if o == 0xC {
            Some(Instruction::Random(x, kk))
        } else if o == 0xD {
            Some(Instruction::Draw(x, y, n))
        } else if o == 0xE {
            if kk == 0x9E {
                Some(Instruction::SkipKey(x))
            } else if kk == 0xA1 {
                Some(Instruction::SkipNotKey(x))
            } else {
                None
            }
        } else {
            if kk == 0x01 {
                Some(Instruction::SelectPlane((nnn / 0x100) as u8))
            } else if nnn == 0x002 {
                Some(Instruction::LoadAudio)
            } else if kk == 0x07 {
                Some(Instruction::LoadDelay(x))
            } else if kk == 0x0A {
                Some(Instruction::BlockKey(x))
            } else if kk == 0x15 {
                Some(Instruction::SetDelay(x))
            } else if kk == 0x18 {
                Some(Instruction::SetSound(x))
            } else if kk == 0x1E {
                Some(Instruction::AddRegisterToIndex(x))
            } else if kk == 0x29 {
                Some(Instruction::FontCharacter(x))
            } else if kk == 0x30 {
                Some(Instruction::BigFontCharacter(x))
            } else if kk == 0x33 {
                Some(Instruction::Bcd(x))
            } else if kk == 0x3A {
                Some(Instruction::SetPitch(x))
            } else if kk == 0x55 {
                Some(Instruction::Store(x))
            } else if kk == 0x65 {
                Some(Instruction::Load(x))
            } else if kk == 0x75 {
                Some(Instruction::StoreFlags(x))
            } else if kk == 0x85 {
                Some(Instruction::LoadFlags(x))
            } else {
                None
            }
        }
    }

    /// Read an instruction out of its 16-bit encoding: the one instruction
    /// that the word encodes, if there is one.
    pub fn from_word(word: u16) -> (instruction: Option<Instruction>)
        ensures
            instruction == Instruction::of_word(word),
            forall|other: Instruction|
                instruction == Some(other) <==> other.encodable() && #[trigger] other.encoding()
                    == word,
    {
        proof {
            lemma_word_encodes_what_is_read(word);
            assert forall|other: Instruction|
                other.encodable() && #[trigger] other.encoding() == word implies Some(other)
                == Instruction::of_word(word) by {
                lemma_encoding_is_read_back(other);
            }
        }
        let o = word / 0x1000;
        let x = Register::of_nibble(((word / 0x100) % 0x10) as u8);
        let y = Register::of_nibble(((word / 0x10) % 0x10) as u8);
        let n = (word % 0x10) as u8;
        let kk = (word % 0x100) as u8;
        let nnn = word % 0x1000;
        proof {
            lemma_same_register(((word / 0x100) % 0x10) as int, word as int / 0x100);
            lemma_same_register(((word / 0x10) % 0x10) as int, word as int / 0x10);
        }
        if o == 0x0 {
            Some(
                if nnn / 0x10 == 0x01 {
                    Instruction::Exit(Some(n))
                } else if nnn / 0x10 == 0x0C {
                    Instruction::ScrollDown(n)
                } else if nnn / 0x10 == 0x0D {
                    Instruction::ScrollUp(n)
                } else if nnn == 0x0E0 {
                    Instruction::Clear
                } else if nnn == 0x0EE {
                    Instruction::Return
                } else if nnn == 0x0FA {
                    Instruction::ToggleLoadStoreQuirk
                } else if nnn == 0x0FB {
                    Instruction::ScrollRight
                } else if nnn == 0x0FC {
                    Instruction::ScrollLeft
                } else if nnn == 0x0FD {
                    Instruction::Exit(None)
                } else if nnn == 0x0FE {
                    Instruction::LoRes
                } else if nnn == 0x0FF {
                    Instruction::HiRes
                } else {
                    Instruction::CallMachineCode(nnn)
                },
            )
        } else if o == 0x1 {
            Some(Instruction::Jump(nnn))
        } else if o == 0x2 {
            Some(Instruction::Call(nnn))
        } else if o == 0x3 {
            Some(Instruction::SkipIfEqual(x, Byte::Immediate(kk)))
        } else if o == 0x4 {
            Some(Instruction::SkipIfNotEqual(x, Byte::Immediate(kk)))
        } else if o == 0x5 {
            if n == 0x0 {
                Some(Instruction::SkipIfEqual(x, Byte::Register(y)))
            } else if n == 0x2 {
                Some(Instruction::StoreRange(x, y))
            } else if n == 0x3 {
                Some(Instruction::LoadRange(x, y))
            } else {
                None
            }
        } else if o == 0x6 {
            Some(Instruction::SetRegister(x, Byte::Immediate(kk)))
        } else if o == 0x7 {
            Some(Instruction::Add(x, Byte::Immediate(kk)))
        } else if o == 0x8 {
            if n == 0x0 {
                Some(Instruction::SetRegister(x, Byte::Register(y)))
            } else if n == 0x1 {
                Some(Instruction::Or(x, y))
            } else if n == 0x2 {
                Some(Instruction::And(x, y))
            } else if n == 0x3 {
                Some(Instruction::Xor(x, y))
            } else if n == 0x4 {
                Some(Instruction::Add(x, Byte::Register(y)))
            } else if n == 0x5 {
                Some(Instruction::Sub(x, y))
            } else if n == 0x6 {
                Some(Instruction::ShiftRight(x, y))
            } else if n == 0x7 {
                Some(Instruction::SubReverse(x, y))
            } else if n == 0xE {
                Some(Instruction::ShiftLeft(x, y))
            } else {
                None
            }
        } else if o == 0x9 {
            if n == 0x0 {
                Some(Instruction::SkipIfNotEqual(x, Byte::Register(y)))
            } else {
                None
            }
        } else if o == 0xA {
            Some(Instruction::SetIndex(nnn))
        } else if o == 0xB {
            Some(Instruction::JumpRelative(nnn))
        } else if o == 0xC {
            Some(Instruction::Random(x, kk))
        } else if o == 0xD {
            Some(Instruction::Draw(x, y, n))
        } else if o == 0xE {
            if kk == 0x9E {
                Some(Instruction::SkipKey(x))
            } else if kk == 0xA1 {
                Some(Instruction::SkipNotKey(x))
            } else {
                None
            }
        } else {
            if kk == 0x01 {
                Some(Instruction::SelectPlane((nnn / 0x100) as u8))
            } else if nnn == 0x002 {
                Some(Instruction::LoadAudio)
            } else if kk == 0x07 {
                Some(Instruction::LoadDelay(x))
            } else if kk == 0x0A {
                Some(Instruction::BlockKey(x))
            } else if kk == 0x15 {
                Some(Instruction::SetDelay(x))
            } else if kk == 0x18 {
                Some(Instruction::SetSound(x))
            } else if kk == 0x1E {
                Some(Instruction::AddRegisterToIndex(x))
            } else if kk == 0x29 {
                Some(Instruction::FontCharacter(x))
            } else if kk == 0x30 {
                Some(Instruction::BigFontCharacter(x))
            } else if kk == 0x33 {
                Some(Instruction::Bcd(x))
            } else if kk == 0x3A {
                Some(Instruction::SetPitch(x))
            } else if kk == 0x55 {
                Some(Instruction::Store(x))
            } else if kk == 0x65 {
                Some(Instruction::Load(x))
            } else if kk == 0x75 {
                Some(Instruction::StoreFlags(x))
            } else if kk == 0x85 {
                Some(Instruction::LoadFlags(x))
            } else {
                None
            }
        }
    }
}

} // verus!
