//! The machine: its state, how it is built, and how it fetches.

use vstd::prelude::*;
use crate::display::{Display, DisplayView};
use crate::instruction::Register;
use crate::options::{Options, Quirks};
use crate::outside::{font_bytes, font_data};

verus! {

/// The state of a CHIP-8 interpreter.
pub struct Chip8 {
    /// The program counter: the address in `memory` of the next instruction.
    pub pc: u16,
    /// The stack pointer: the index in `stack` of the topmost return
    /// address, or 0 while the stack is empty.
    pub sp: usize,
    /// The call stack.
    pub stack: [u16; 16],
    /// The memory.
    pub memory: [u8; 65536],
    /// The index register.
    pub i: u16,
    /// The variable registers `V0` to `VF`.
    pub v: [u8; 16],
    /// The user flags, which only `FX75` and `FX85` touch.
    pub flags: [u8; 16],
    /// The delay timer, which a run counts down once.
    pub delay: u8,
    /// The sound timer, which a run counts down once. The host makes a
    /// sound while it is not zero.
    pub sound: u8,
    /// The display buffer.
    pub display: Display,
    /// The options this machine runs with.
    pub options: Options,
    /// The keys of the hexadecimal keypad that are down. The host sets them
    /// between runs.
    pub keyboard: [bool; 16],
}

/// A machine as a mathematical value.
pub struct Chip8View {
    pub pc: u16,
    pub sp: nat,
    pub stack: Seq<u16>,
    pub memory: Seq<u8>,
    pub i: u16,
    pub v: Seq<u8>,
    pub flags: Seq<u8>,
    pub delay: u8,
    pub sound: u8,
    pub display: DisplayView,
    pub options: Options,
    pub keyboard: Seq<bool>,
}

impl View for Chip8 {
    type V = Chip8View;

    open spec fn view(&self) -> Chip8View {
        Chip8View {
            pc: self.pc,
            sp: self.sp as nat,
            stack: self.stack@,
            memory: self.memory@,
            i: self.i,
            v: self.v@,
            flags: self.flags@,
            delay: self.delay,
            sound: self.sound,
            display: self.display@,
            options: self.options,
            keyboard: self.keyboard@,
        }
    }
}

/// The memory `memory` with `bytes` written from the address `at` on. An
/// address past the end of memory goes on at 0.
pub open spec fn written(memory: Seq<u8>, at: u16, bytes: Seq<u8>) -> Seq<u8> {
    Seq::new(
        memory.len(),
        |a: int|
            {
                let k = (a - at + 0x10000) % 0x10000;
                if k < bytes.len() {
                    bytes[k]
                } else {
                    memory[a]
                }
            },
    )
}

/// An empty memory with a font at `0x50` and, behind it, a font of big
/// digits.
pub open spec fn font_memory(font: Seq<u8>, big_font: Option<Seq<u8>>) -> Seq<u8> {
    let empty = Seq::new(0x10000, |a: int| 0u8);
    let small = written(empty, 0x50, font);
    match big_font {
        Some(big) => written(small, (0x50 + font.len()) as u16, big),
        None => small,
    }
}

/// The big digits of a font, if it has any and they fit behind 80 bytes of
/// small digits.
pub open spec fn fitting(big_font: Option<Seq<u8>>) -> Option<Seq<u8>> {
    match big_font {
        Some(big) if big.len() <= 0x10000 - 0xA0 => Some(big),
        _ => None,
    }
}

impl Chip8View {
    /// The sizes of the parts of a machine.
    pub open spec fn sized(self) -> bool {
        &&& self.stack.len() == 16
        &&& self.memory.len() == 0x10000
        &&& self.v.len() == 16
        &&& self.flags.len() == 16
        &&& self.keyboard.len() == 16
    }

    /// The invariant of a machine between two instructions: the stack
    /// pointer is on the stack, the display is well formed, and the active
    /// planes are among the planes 1 and 2.
    pub open spec fn wf(self) -> bool {
        &&& self.sized()
        &&& self.sp < 16
        &&& self.display.wf()
        &&& self.display.active_plane <= 3
    }

    /// The machine as it is switched on.
    pub open spec fn initial(options: Options, font: Seq<u8>, big_font: Option<Seq<u8>>)
        -> Chip8View {
        Chip8View {
            pc: options.start(),
            sp: 0,
            stack: Seq::new(16, |k: int| 0u16),
            memory: font_memory(font, big_font),
            i: 0,
            v: Seq::new(16, |k: int| 0u8),
            flags: Seq::new(16, |k: int| 0u8),
            delay: 0,
            sound: 0,
            display: DisplayView::initial(),
            options,
            keyboard: Seq::new(16, |k: int| false),
        }
    }

    /// The value of a register.
    pub open spec fn reg(self, register: Register) -> u8 {
        self.v[register.number()]
    }

    /// The machine with `value` in a register.
    pub open spec fn with_reg(self, register: Register, value: u8) -> Chip8View {
        Chip8View { v: self.v.update(register.number(), value), ..self }
    }

    /// The machine with other quirks.
    pub open spec fn with_quirks(self, quirks: Quirks) -> Chip8View {
        Chip8View { options: Options { quirks, ..self.options }, ..self }
    }

    /// The machine with a program at `0x200`.
    pub open spec fn with_rom(self, rom: Seq<u8>) -> Chip8View {
        Chip8View { memory: written(self.memory, 0x200, rom), ..self }
    }

    /// The byte at `address + offset`, where an address past the end of
    /// memory goes on at 0.
    pub open spec fn byte(self, address: u16, offset: int) -> u8 {
        self.memory[(address + offset) % 0x10000]
    }

    /// The word at the program counter, high byte first.
    pub open spec fn word(self) -> u16 {
        (self.byte(self.pc, 0) as int * 0x100 + self.byte(self.pc, 1)) as u16
    }

    /// The machine after a fetch: the program counter is 2 further, modulo
    /// the size of memory.
    pub open spec fn fetched(self) -> Chip8View {
        Chip8View { pc: self.pc.wrapping_add(2), ..self }
    }

    /// The machine after a skip: past the next instruction, which takes 4
    /// bytes if it starts with the word `F000`, else 2.
    pub open spec fn skipped(self) -> Chip8View {
        if self.word() == 0xF000 {
            self.fetched().fetched()
        } else {
            self.fetched()
        }
    }
}

/// One more byte written is one more cell updated, as long as the bytes
/// do not lap the memory.
pub proof fn lemma_written_push(memory: Seq<u8>, at: u16, bytes: Seq<u8>, byte: u8)
    requires
        memory.len() == 0x10000,
        bytes.len() < 0x10000,
    ensures
        written(memory, at, bytes.push(byte)) == written(memory, at, bytes).update(
            (at + bytes.len()) % 0x10000,
            byte,
        ),
{
}

/// Nothing written leaves the memory as it is.
pub proof fn lemma_written_nothing(memory: Seq<u8>, at: u16)
    ensures
        written(memory, at, Seq::empty()) == memory,
{
}

impl Chip8 {
    /// The invariant of a machine, see [`Chip8View::wf`].
    pub open spec fn wf(&self) -> bool {
        self@.wf()
    }

    /// Create a machine with the given options and fonts: the font at
    /// `0x50`, the big font behind it, everything else zero.
    pub fn with_fonts(options: Options, font: &[u8], big_font: Option<&[u8]>) -> (chip8: Chip8)
        requires
            0x50 + font.len() + (match big_font {
                Some(big) => big.len(),
                None => 0,
            }) <= 0x10000,
        ensures
            chip8@ == Chip8View::initial(
                options,
                font@,
                match big_font {
                    Some(big) => Some(big@),
                    None => None,
                },
            ),
            chip8.wf(),
    {
        let mut chip8 = Chip8 {
            pc: match options.start_address {
                Some(address) => address,
                None => 0x200,
            },
            sp: 0,
            stack: [0; 16],
            memory: [0; 65536],
            i: 0,
            v: [0; 16],
            flags: [0; 16],
            delay: 0,
            sound: 0,
            display: Display::new(),
            options,
            keyboard: [false; 16],
        };
        let ghost blank = chip8@;
        assert(blank.memory =~= Seq::new(0x10000, |a: int| 0u8));
        assert(blank.stack =~= Seq::new(16, |k: int| 0u16));
        assert(blank.v =~= Seq::new(16, |k: int| 0u8));
        assert(blank.flags =~= Seq::new(16, |k: int| 0u8));
        assert(blank.keyboard =~= Seq::new(16, |k: int| false));
        chip8.write(0x50, font);
        match big_font {
            Some(big) => {
                chip8.write((0x50 + font.len()) as u16, big);
            },
            None => {},
        }
        chip8
    }

    /// Write `bytes` into memory from the address `at` on.
    pub(crate) fn write(&mut self, at: u16, bytes: &[u8])
        requires
            bytes.len() <= 0x10000,
        ensures
            final(self)@ == (Chip8View {
                memory: written(old(self)@.memory, at, bytes@),
                ..old(self)@
            }),
    {
        let ghost before = self@;
        let mut k: usize = 0;
        proof {
            lemma_written_nothing(before.memory, at);
            assert(bytes@.take(0) =~= Seq::empty());
        }
        while k < bytes.len()
            invariant
                k <= bytes.len() <= 0x10000,
                before.sized(),
                self@ == (Chip8View {
                    memory: written(before.memory, at, bytes@.take(k as int)),
                    ..before
                }),
            decreases bytes.len() - k,
        {
            let address = (at as usize + k) % 0x10000;
            proof {
                lemma_written_push(before.memory, at, bytes@.take(k as int), bytes@[k as int]);
                assert(bytes@.take(k as int).push(bytes@[k as int]) =~= bytes@.take(k + 1));
            }
            self.memory[address] = bytes[k];
            k += 1;
        }
        assert(bytes@.take(k as int) =~= bytes@);
    }

    /// Create a machine with the given options. The font that the options
    /// name is loaded: its small digits, which take 80 bytes, at `0x50`, and
    /// its big digits behind them at `0xA0`, if it has any and they fit.
    pub fn new(options: Options) -> (chip8: Chip8)
        ensures
            chip8@ == Chip8View::initial(
                options,
                font_data(options.font_style).0,
                fitting(font_data(options.font_style).1),
            ),
            font_data(options.font_style).0.len() == 80,
            chip8.wf(),
    {
        let (font, big_font) = font_bytes(options.font_style);
        match &big_font {
            Some(big) if big.len() <= 0x10000 - 0xA0 => Chip8::with_fonts(
                options,
                font.as_slice(),
                Some(big.as_slice()),
            ),
            _ => Chip8::with_fonts(options, font.as_slice(), None),
        }
    }

    /// Change the quirks.
    pub fn set_quirks(&mut self, quirks: Quirks)
        ensures
            final(self)@ == old(self)@.with_quirks(quirks),
    {
        self.options.quirks = quirks;
    }

    /// Copy a program into memory, from `0x200` on.
    pub fn read_rom(&mut self, rom: &[u8])
        requires
            rom.len() <= 0x10000 - 0x200,
        ensures
            final(self)@ == old(self)@.with_rom(rom@),
    {
        self.write(0x200, rom);
    }

    /// Set the value of a variable register.
    pub fn set_register(&mut self, register: Register, value: u8)
        ensures
            final(self)@ == old(self)@.with_reg(register, value),
    {
        self.v[register.index()] = value;
    }

    /// Get the value of a variable register.
    pub fn register(&self, register: Register) -> (value: u8)
        ensures
            value == self@.reg(register),
    {
        self.v[register.index()]
    }

    /// Fetch the word at the program counter, and move the program counter
    /// past it.
    pub fn fetch(&mut self) -> (opcode: u16)
        ensures
            opcode == old(self)@.word(),
            final(self)@ == old(self)@.fetched(),
    {
        let high = self.memory[self.pc as usize];
        let low = self.memory[self.pc.wrapping_add(1) as usize];
        self.pc = self.pc.wrapping_add(2);
        high as u16 * 0x100 + low as u16
    }

    /// Move the program counter past the next instruction.
    pub(crate) fn skip(&mut self)
        ensures
            final(self)@ == old(self)@.skipped(),
    {
        let opcode = self.fetch();
        if opcode == 0xF000 {
            let _ = self.fetch();
        }
    }
}

impl Default for Chip8 {
    fn default() -> (chip8: Chip8)
        ensures
            chip8@ == Chip8View::initial(
                Options::octo(),
                font_data(Options::octo().font_style).0,
                fitting(font_data(Options::octo().font_style).1),
            ),
            font_data(Options::octo().font_style).0.len() == 80,
            chip8.wf(),
    {
        Chip8::new(Options::default())
    }
}

} // verus!
