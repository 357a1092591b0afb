//! What each instruction does to the machine.

use vstd::prelude::*;
use crate::chip8::{lemma_written_nothing, lemma_written_push, written, Chip8, Chip8View};
use crate::display::{pixels, DisplayView};
use crate::error::{overflowed, Chip8Error};
use crate::instruction::{lemma_same_register, register, Byte, Family, Instruction, Register};
use crate::options::{enabled, is_on, LoResDxy0Behavior, Quirks};
use crate::outside::random_byte;

verus! {

/// The register that the `k`-th byte of a range from `VX` to `VY` belongs
/// to: the range counts up from `VX` if `VX` is not above `VY`, else down.
pub open spec fn range_register(x: Register, y: Register, k: int) -> int {
    if x.number() <= y.number() {
        x.number() + k
    } else {
        x.number() - k
    }
}

/// The number of registers from `VX` to `VY`, both counted.
pub open spec fn range_len(x: Register, y: Register) -> int {
    if x.number() <= y.number() {
        y.number() - x.number() + 1
    } else {
        x.number() - y.number() + 1
    }
}

/// Whether a register lies between `VX` and `VY`.
pub open spec fn in_range(x: Register, y: Register, r: int) -> bool {
    x.number() <= r <= y.number() || y.number() <= r <= x.number()
}

impl Chip8View {
    /// The value of a byte operand.
    pub open spec fn operand(self, byte: Byte) -> u8 {
        match byte {
            Byte::Register(register) => self.reg(register),
            Byte::Immediate(value) => value,
        }
    }

    /// The machine with another display.
    pub open spec fn with_display(self, display: DisplayView) -> Chip8View {
        Chip8View { display, ..self }
    }

    /// After `Return`: the program counter is the top of the stack, which
    /// is one shorter. An empty stack is left as it is.
    pub open spec fn returned(self) -> Chip8View {
        if self.sp == 0 {
            self
        } else {
            Chip8View { pc: self.stack[self.sp as int], sp: (self.sp - 1) as nat, ..self }
        }
    }

    /// After `Call`: the stack pointer is one up; if that is still on the
    /// stack, the program counter is stored there and set to `address`.
    pub open spec fn called(self, address: u16) -> Chip8View {
        if self.sp + 1 >= 16 {
            Chip8View { sp: self.sp + 1, ..self }
        } else {
            Chip8View {
                sp: self.sp + 1,
                stack: self.stack.update(self.sp + 1 as int, self.pc),
                pc: address,
                ..self
            }
        }
    }

    /// After a conditional skip.
    pub open spec fn skipped_if(self, condition: bool) -> Chip8View {
        if condition {
            self.skipped()
        } else {
            self
        }
    }

    /// After `JumpRelative`: the program counter is `address` plus `V0`,
    /// or, with the quirk `jump0`, plus the register that the high nibble
    /// of `address` names.
    pub open spec fn jumped_relative(self, address: u16) -> Chip8View {
        let offset = if is_on(self.options.quirks.jump0) {
            self.reg(register(address as int / 0x100))
        } else {
            self.reg(Register::V0)
        };
        Chip8View { pc: address.wrapping_add(offset as u16), ..self }
    }

    /// After `Add` with a register: first `VF` is the carry, then `VX` is
    /// the sum modulo 256.
    pub open spec fn added(self, x: Register, y: Register) -> Chip8View {
        let carry: u8 = if self.reg(x) + self.reg(y) > 0xFF {
            1
        } else {
            0
        };
        let flagged = self.with_reg(Register::VF, carry);
        flagged.with_reg(x, flagged.reg(x).wrapping_add(flagged.reg(y)))
    }

    /// After `Sub`: first `VF` is 1 if nothing is borrowed, else 0; then
    /// `VX` is `VX - VY` modulo 256.
    pub open spec fn subtracted(self, x: Register, y: Register) -> Chip8View {
        let fits: u8 = if self.reg(x) >= self.reg(y) {
            1
        } else {
            0
        };
        let flagged = self.with_reg(Register::VF, fits);
        flagged.with_reg(x, flagged.reg(x).wrapping_sub(flagged.reg(y)))
    }

    /// After `SubReverse`: first `VF` is 1 if nothing is borrowed, else 0;
    /// then `VX` is `VY - VX` modulo 256.
    pub open spec fn subtracted_from(self, x: Register, y: Register) -> Chip8View {
        let fits: u8 = if self.reg(y) >= self.reg(x) {
            1
        } else {
            0
        };
        let flagged = self.with_reg(Register::VF, fits);
        flagged.with_reg(x, flagged.reg(y).wrapping_sub(flagged.reg(x)))
    }

    /// What a shift instruction shifts: `VX` with the quirk `shift`, else
    /// `VY`.
    pub open spec fn shift_operand(self, x: Register, y: Register) -> u8 {
        if is_on(self.options.quirks.shift) {
            self.reg(x)
        } else {
            self.reg(y)
        }
    }

    /// After `ShiftRight`: first `VF` is the lowest bit of the operand,
    /// then `VX` is the operand shifted right by one bit.
    pub open spec fn shifted_right(self, x: Register, y: Register) -> Chip8View {
        let operand = self.shift_operand(x, y);
        self.with_reg(Register::VF, operand & 1).with_reg(x, operand >> 1u8)
    }

    /// After `ShiftLeft`: first `VF` is the highest bit of the operand,
    /// then `VX` is the operand shifted left by one bit.
    pub open spec fn shifted_left(self, x: Register, y: Register) -> Chip8View {
        let operand = self.shift_operand(x, y);
        self.with_reg(Register::VF, (operand >> 7u8) & 1).with_reg(x, operand << 1u8)
    }

    /// After `Or`, `And` and `Xor`: `VX` is `value`, and, with the quirk
    /// `logic`, `VF` is then 0.
    pub open spec fn combined(self, x: Register, value: u8) -> Chip8View {
        let set = self.with_reg(x, value);
        if is_on(self.options.quirks.logic) {
            set.with_reg(Register::VF, 0)
        } else {
            set
        }
    }

    /// `I` after `Store` and `Load`: as it is with the quirk `load_store`,
    /// else behind the last byte.
    pub open spec fn index_after(self, x: Register) -> u16 {
        if is_on(self.options.quirks.load_store) {
            self.i
        } else {
            self.i.wrapping_add((x.number() + 1) as u16)
        }
    }

    /// After `Bcd`: the hundreds, tens and ones of `VX` at `I`.
    pub open spec fn bcd_stored(self, x: Register) -> Chip8View {
        let value = self.reg(x);
        Chip8View {
            memory: written(self.memory, self.i, seq![value / 100, (value / 10) % 10, value % 10]),
            ..self
        }
    }

    /// After `Store`: `V0` to `VX` at `I`.
    pub open spec fn stored(self, x: Register) -> Chip8View {
        Chip8View {
            memory: written(self.memory, self.i, self.v.take(x.number() + 1)),
            i: self.index_after(x),
            ..self
        }
    }

    /// After `Load`: `V0` to `VX` are the bytes at `I`.
    pub open spec fn loaded(self, x: Register) -> Chip8View {
        Chip8View {
            v: Seq::new(
                16,
                |r: int|
                    if r <= x.number() {
                        self.byte(self.i, r)
                    } else {
                        self.v[r]
                    },
            ),
            i: self.index_after(x),
            ..self
        }
    }

    /// After `StoreRange`: the registers from `VX` to `VY` at `I`, `VX`
    /// first.
    pub open spec fn range_stored(self, x: Register, y: Register) -> Chip8View {
        Chip8View {
            memory: written(
                self.memory,
                self.i,
                Seq::new(range_len(x, y) as nat, |k: int| self.v[range_register(x, y, k)]),
            ),
            ..self
        }
    }

    /// After `LoadRange`: the registers from `VX` to `VY` are the bytes at
    /// `I`, `VX` first.
    pub open spec fn range_loaded(self, x: Register, y: Register) -> Chip8View {
        Chip8View {
            v: Seq::new(
                16,
                |r: int|
                    if in_range(x, y, r) {
                        self.byte(
                            self.i,
                            if x.number() <= y.number() {
                                r - x.number()
                            } else {
                                x.number() - r
                            },
                        )
                    } else {
                        self.v[r]
                    },
            ),
            ..self
        }
    }

    /// After `StoreFlags`: the user flags 0 to `X` are `V0` to `VX`.
    pub open spec fn flags_stored(self, x: Register) -> Chip8View {
        Chip8View {
            flags: Seq::new(
                16,
                |r: int|
                    if r <= x.number() {
                        self.v[r]
                    } else {
                        self.flags[r]
                    },
            ),
            ..self
        }
    }

    /// After `LoadFlags`: `V0` to `VX` are the user flags 0 to `X`.
    pub open spec fn flags_loaded(self, x: Register) -> Chip8View {
        Chip8View {
            v: Seq::new(
                16,
                |r: int|
                    if r <= x.number() {
                        self.flags[r]
                    } else {
                        self.v[r]
                    },
            ),
            ..self
        }
    }

    /// The lowest key from `from` on that is down, or 16 if there is none.
    pub open spec fn first_key(self, from: int) -> int
        decreases 16 - from,
    {
        if from < 0 || from >= 16 {
            16
        } else if self.keyboard[from] {
            from
        } else {
            self.first_key(from + 1)
        }
    }

    /// After `BlockKey`: the program counter goes back by 2, onto the
    /// instruction itself. If a key is down, the lowest such key is put in
    /// `VX`, the program counter skips forward again, and the key is taken
    /// to be up.
    pub open spec fn key_awaited(self, x: Register) -> Chip8View {
        let rewound = Chip8View { pc: self.pc.wrapping_sub(2), ..self };
        let key = self.first_key(0);
        if key < 16 {
            let resumed = rewound.with_reg(x, key as u8).skipped();
            Chip8View { keyboard: resumed.keyboard.update(key, false), ..resumed }
        } else {
            rewound
        }
    }

    /// The pixel in row `r`, column `c` of the sprite at `address`: the
    /// rows follow each other, one byte each or two for a wide sprite, and
    /// the highest bit of a byte is its leftmost pixel.
    pub open spec fn pixel(self, address: u16, wide: bool, r: int, c: int) -> u8 {
        let row = if wide {
            2 * r
        } else {
            r
        };
        (self.byte(address, row + c / 8) >> ((7 - c % 8) as u8)) & 1
    }

    /// The sprite of `rows` rows at `address`, 16 pixels wide or 8.
    pub open spec fn sprite(self, address: u16, wide: bool, rows: u8) -> Seq<Seq<u8>> {
        Seq::new(
            rows as nat,
            |r: int|
                Seq::new(
                    if wide {
                        16
                    } else {
                        8
                    },
                    |c: int| self.pixel(address, wide, r, c),
                ),
        )
    }

    /// The number of bytes of a sprite.
    pub open spec fn sprite_len(wide: bool, rows: u8) -> u16 {
        if wide {
            (2 * rows) as u16
        } else {
            rows as u16
        }
    }

    /// The shape of the sprite that `Draw` with `n` rows draws, as its
    /// width (wide or not) and its height, or `None` where nothing is
    /// drawn: `n` rows of 8 pixels; for `n == 0`, in high resolution and
    /// with `BigSprite` 16 rows of 16 pixels, with `TallSprite` 16 rows of
    /// 8 pixels.
    pub open spec fn sprite_shape(self, n: u8) -> Option<(bool, u8)> {
        if n != 0 {
            Some((false, n))
        } else if self.display.hires || self.options.quirks.lores_dxy0 == Some(
            LoResDxy0Behavior::BigSprite,
        ) {
            Some((true, 16u8))
        } else if self.options.quirks.lores_dxy0 == Some(LoResDxy0Behavior::TallSprite) {
            Some((false, 16u8))
        } else {
            None
        }
    }

    /// After one plane of a sprite is drawn at `(VX, VY)`: the plane
    /// `color` of the display is drawn on, and `VF` is 1 if this plane or
    /// an `earlier` one collided, else 0.
    pub open spec fn plane_drawn(
        self,
        color: u8,
        address: u16,
        wide: bool,
        rows: u8,
        x: Register,
        y: Register,
        earlier: u8,
    ) -> Chip8View {
        let sprite = self.sprite(address, wide, rows);
        let plane = self.display.with_plane(color);
        let drawn = plane.drawn(sprite, self.reg(x), self.reg(y)).with_plane(
            self.display.active_plane,
        );
        self.with_display(drawn).with_reg(
            Register::VF,
            earlier | plane.collision(sprite, self.reg(x), self.reg(y)),
        )
    }

    /// After `Draw`: for plane 1 and then plane 2, if the plane is active,
    /// a sprite is read at `I`, or behind the sprite of plane 1, and drawn
    /// on that plane at `(VX, VY)`. `VF` is 1 if a plane collided, else 0;
    /// it is left alone if no plane is active.
    pub open spec fn drawn(self, x: Register, y: Register, n: u8) -> Chip8View {
        match self.sprite_shape(n) {
            None => self,
            Some((wide, rows)) => {
                let active = self.display.active_plane;
                if active & 1 != 0 {
                    let first = self.plane_drawn(1, self.i, wide, rows, x, y, 0);
                    if active & 2 != 0 {
                        first.plane_drawn(
                            2,
                            self.i.wrapping_add(Self::sprite_len(wide, rows)),
                            wide,
                            rows,
                            x,
                            y,
                            first.reg(Register::VF),
                        )
                    } else {
                        first
                    }
                } else if active & 2 != 0 {
                    self.plane_drawn(2, self.i, wide, rows, x, y, 0)
                } else {
                    self
                }
            },
        }
    }

    /// The machine after an instruction that moves the program counter:
    /// jumps, calls, skips and the wait for a key. Any other instruction
    /// leaves it as it is.
    pub open spec fn after_flow(self, instruction: Instruction) -> Chip8View {
        match instruction {
            Instruction::Exit(_) => self,
            Instruction::Return => self.returned(),
            Instruction::CallMachineCode(_) => self,
            Instruction::Jump(address) => Chip8View { pc: address, ..self },
            Instruction::Call(address) => self.called(address),
            Instruction::SkipIfEqual(x, byte) => self.skipped_if(
                self.reg(x) == self.operand(byte),
            ),
            Instruction::SkipIfNotEqual(x, byte) => self.skipped_if(
                self.reg(x) != self.operand(byte),
            ),
            Instruction::JumpRelative(address) => self.jumped_relative(address),
            Instruction::SkipKey(x) => self.skipped_if(self.keyboard[self.reg(x) as int % 16]),
            Instruction::SkipNotKey(x) => self.skipped_if(
                !self.keyboard[self.reg(x) as int % 16],
            ),
            Instruction::BlockKey(x) => self.key_awaited(x),
            _ => self,
        }
    }

    /// The machine after an instruction on the registers and timers.
    /// `random` is the byte that `Random` draws. Any other instruction
    /// leaves it as it is.
    pub open spec fn after_arithmetic(self, instruction: Instruction, random: u8) -> Chip8View {
        match instruction {
            Instruction::Add(x, Byte::Immediate(value)) => self.with_reg(
                x,
                self.reg(x).wrapping_add(value),
            ),
            Instruction::Add(x, Byte::Register(y)) => self.added(x, y),
            Instruction::SetRegister(x, byte) => self.with_reg(x, self.operand(byte)),
            Instruction::Or(x, y) => self.combined(x, self.reg(x) | self.reg(y)),
            Instruction::And(x, y) => self.combined(x, self.reg(x) & self.reg(y)),
            Instruction::Xor(x, y) => self.combined(x, self.reg(x) ^ self.reg(y)),
            Instruction::Sub(x, y) => self.subtracted(x, y),
            Instruction::ShiftRight(x, y) => self.shifted_right(x, y),
            Instruction::ShiftLeft(x, y) => self.shifted_left(x, y),
            Instruction::SubReverse(x, y) => self.subtracted_from(x, y),
            Instruction::Random(x, mask) => self.with_reg(x, random & mask),
            Instruction::LoadDelay(x) => self.with_reg(x, self.delay),
            Instruction::SetDelay(x) => Chip8View { delay: self.reg(x), ..self },
            Instruction::SetSound(x) => Chip8View { sound: self.reg(x), ..self },
            _ => self,
        }
    }

    /// The machine after an instruction on `I`, the memory or the user
    /// flags. Any other instruction
    /// leaves it as it is.
    pub open spec fn after_memory(self, instruction: Instruction) -> Chip8View {
        match instruction {
            Instruction::SetIndex(address) => Chip8View { i: address, ..self },
            Instruction::SetIndexLong => Chip8View { i: self.word(), ..self.fetched() },
            Instruction::AddRegisterToIndex(x) => Chip8View {
                i: self.i.wrapping_add(self.reg(x) as u16),
                ..self
            },
            Instruction::FontCharacter(x) => Chip8View {
                i: (0x50 + (self.reg(x) % 16) * 5) as u16,
                ..self
            },
            Instruction::BigFontCharacter(x) => Chip8View {
                i: (0xA0 + (self.reg(x) % 16) * 10) as u16,
                ..self
            },
            Instruction::Bcd(x) => self.bcd_stored(x),
            Instruction::Store(x) => self.stored(x),
            Instruction::Load(x) => self.loaded(x),
            Instruction::StoreRange(x, y) => self.range_stored(x, y),
            Instruction::LoadRange(x, y) => self.range_loaded(x, y),
            Instruction::StoreFlags(x) => self.flags_stored(x),
            Instruction::LoadFlags(x) => self.flags_loaded(x),
            _ => self,
        }
    }

    /// The machine after an instruction on the display, the quirks or the
    /// sound. Any other instruction
    /// leaves it as it is.
    pub open spec fn after_screen(self, instruction: Instruction) -> Chip8View {
        match instruction {
            Instruction::ScrollUp(n) => self.with_display(self.display.scrolled_up(n)),
            Instruction::ScrollDown(n) => self.with_display(self.display.scrolled_down(n)),
            Instruction::ScrollRight => self.with_display(self.display.scrolled_right(4)),
            Instruction::ScrollLeft => self.with_display(self.display.scrolled_left(4)),
            Instruction::Clear => self.with_display(self.display.cleared(false)),
            Instruction::ToggleLoadStoreQuirk => self.with_quirks(
                Quirks {
                    load_store: Some(!is_on(self.options.quirks.load_store)),
                    ..self.options.quirks
                },
            ),
            Instruction::LoRes => self.with_display(
                self.display.switched(false, is_on(self.options.quirks.res_clear)),
            ),
            Instruction::HiRes => self.with_display(
                self.display.switched(true, is_on(self.options.quirks.res_clear)),
            ),
            Instruction::Draw(x, y, n) => self.drawn(x, y, n),
            Instruction::LoadAudio => self,
            Instruction::SelectPlane(n) => if n > 3 {
                self
            } else {
                self.with_display(self.display.with_plane(n))
            },
            Instruction::SetPitch(_) => self,
            _ => self,
        }
    }

    /// The machine after an instruction. `random` is the byte that
    /// `Random` draws.
    pub open spec fn after(self, instruction: Instruction, random: u8) -> Chip8View {
        match instruction.family() {
            Family::Flow => self.after_flow(instruction),
            Family::Arithmetic => self.after_arithmetic(instruction, random),
            Family::Memory => self.after_memory(instruction),
            Family::Screen => self.after_screen(instruction),
        }
    }

    /// Whether an instruction succeeds, and the error if it does not.
    pub open spec fn outcome(self, instruction: Instruction) -> Result<(), Chip8Error> {
        match instruction {
            Instruction::Exit(code) => Err(Chip8Error::Exit(code)),
            Instruction::Return => if self.sp == 0 {
                Err(Chip8Error::StackUnderflow)
            } else {
                Ok(())
            },
            Instruction::CallMachineCode(_) => Err(Chip8Error::MachineCodeUnsupported),
            Instruction::Call(_) => if self.sp + 1 >= 16 {
                Err(Chip8Error::StackOverflow)
            } else {
                Ok(())
            },
            Instruction::SelectPlane(n) => if n > 3 {
                Err(Chip8Error::InvalidPlane(n))
            } else {
                Ok(())
            },
            _ => Ok(()),
        }
    }
}

impl Chip8 {
    /// Return from a subroutine.
    fn ret(&mut self) -> (result: Result<(), Chip8Error>)
        requires
            old(self).wf(),
        ensures
            final(self)@ == old(self)@.returned(),
            result == old(self)@.outcome(Instruction::Return),
            final(self).wf(),
    {
        if self.sp == 0 {
            return Err(Chip8Error::StackUnderflow);
        }
        self.pc = self.stack[self.sp];
        self.sp -= 1;
        Ok(())
    }

    /// Call the subroutine at `address`.
    fn call(&mut self, address: u16) -> (result: Result<(), Chip8Error>)
        requires
            old(self).wf(),
        ensures
            final(self)@ == old(self)@.called(address),
            result == old(self)@.outcome(Instruction::Call(address)),
            !overflowed(result) ==> final(self).wf(),
            final(self)@.sp <= 16,
            final(self)@.display == old(self)@.display,
    {
        self.sp += 1;
        if self.sp >= 16 {
            return Err(Chip8Error::StackOverflow);
        }
        self.stack[self.sp] = self.pc;
        self.pc = address;
        Ok(())
    }

    /// Skip the next instruction if `condition` holds.
    fn skip_if(&mut self, condition: bool)
        ensures
            final(self)@ == old(self)@.skipped_if(condition),
    {
        if condition {
            self.skip();
        }
    }

    /// The value of a byte operand.
    fn operand(&self, byte: Byte) -> (value: u8)
        ensures
            value == self@.operand(byte),
    {
        match byte {
            Byte::Register(register) => self.register(register),
            Byte::Immediate(value) => value,
        }
    }

    /// Jump to `address` plus a register.
    fn jump_relative(&mut self, address: u16)
        ensures
            final(self)@ == old(self)@.jumped_relative(address),
    {
        let offset = if enabled(self.options.quirks.jump0) {
            proof {
                lemma_same_register(((address / 0x100) % 0x10) as int, address as int / 0x100);
            }
            self.register(Register::of_nibble(((address / 0x100) % 0x10) as u8))
        } else {
            self.register(Register::V0)
        };
        self.pc = address.wrapping_add(offset as u16);
    }

    /// Add `VY` to `VX`, with the carry in `VF`.
    fn add(&mut self, x: Register, y: Register)
        ensures
            final(self)@ == old(self)@.added(x, y),
    {
        let carry: u8 = if self.register(x) as u16 + self.register(y) as u16 > 0xFF {
            1
        } else {
            0
        };
        self.set_register(Register::VF, carry);
        let sum = self.register(x).wrapping_add(self.register(y));
        self.set_register(x, sum);
    }

    /// Subtract `VY` from `VX`, with the flag in `VF`.
    fn sub(&mut self, x: Register, y: Register)
        ensures
            final(self)@ == old(self)@.subtracted(x, y),
    {
        let fits: u8 = if self.register(x) >= self.register(y) {
            1
        } else {
            0
        };
        self.set_register(Register::VF, fits);
        let difference = self.register(x).wrapping_sub(self.register(y));
        self.set_register(x, difference);
    }

    /// Subtract `VX` from `VY` into `VX`, with the flag in `VF`.
    fn sub_reverse(&mut self, x: Register, y: Register)
        ensures
            final(self)@ == old(self)@.subtracted_from(x, y),
    {
        let fits: u8 = if self.register(y) >= self.register(x) {
            1
        } else {
            0
        };
        self.set_register(Register::VF, fits);
        let difference = self.register(y).wrapping_sub(self.register(x));
        self.set_register(x, difference);
    }

    /// What a shift instruction shifts.
    fn shift_operand(&self, x: Register, y: Register) -> (operand: u8)
        ensures
            operand == self@.shift_operand(x, y),
    {
        if enabled(self.options.quirks.shift) {
            self.register(x)
        } else {
            self.register(y)
        }
    }

    /// Shift right by one bit, with the lost bit in `VF`.
    fn shift_right(&mut self, x: Register, y: Register)
        ensures
            final(self)@ == old(self)@.shifted_right(x, y),
    {
        let operand = self.shift_operand(x, y);
        self.set_register(Register::VF, operand & 1);
        self.set_register(x, operand >> 1u8);
    }

    /// Shift left by one bit, with the lost bit in `VF`.
    fn shift_left(&mut self, x: Register, y: Register)
        ensures
            final(self)@ == old(self)@.shifted_left(x, y),
    {
        let operand = self.shift_operand(x, y);
        self.set_register(Register::VF, (operand >> 7u8) & 1);
        self.set_register(x, operand << 1u8);
    }

    /// Put the result of `Or`, `And` or `Xor` in `VX`.
    fn combine(&mut self, x: Register, value: u8)
        ensures
            final(self)@ == old(self)@.combined(x, value),
    {
        self.set_register(x, value);
        if enabled(self.options.quirks.logic) {
            self.set_register(Register::VF, 0);
        }
    }

    /// Move `I` behind what `Store` or `Load` went through, unless the
    /// quirk `load_store` is on.
    fn move_index(&mut self, x: Register)
        ensures
            final(self)@ == (Chip8View { i: old(self)@.index_after(x), ..old(self)@ }),
    {
        if !enabled(self.options.quirks.load_store) {
            self.i = self.i.wrapping_add((x.index() + 1) as u16);
        }
    }

    /// Store the decimal digits of `VX` at `I`.
    fn bcd(&mut self, x: Register)
        ensures
            final(self)@ == old(self)@.bcd_stored(x),
    {
        let value = self.register(x);
        let digits: [u8; 3] = [value / 100, (value / 10) % 10, value % 10];
        self.write(self.i, digits.as_slice());
    }

    /// Store `V0` to `VX` at `I`.
    fn store(&mut self, x: Register)
        ensures
            final(self)@ == old(self)@.stored(x),
    {
        let ghost before = self@;
        let count = x.index() + 1;
        let mut k: usize = 0;
        proof {
            lemma_written_nothing(before.memory, before.i);
            assert(before.v.take(0) =~= Seq::empty());
        }
        while k < count
            invariant
                k <= count <= 16,
                before.sized(),
                self@ == (Chip8View {
                    memory: written(before.memory, before.i, before.v.take(k as int)),
                    ..before
                }),
            decreases count - k,
        {
            proof {
                lemma_written_push(
                    before.memory,
                    before.i,
                    before.v.take(k as int),
                    before.v[k as int],
                );
                assert(before.v.take(k as int).push(before.v[k as int]) =~= before.v.take(
                    k + 1,
                ));
            }
            self.memory[self.i.wrapping_add(k as u16) as usize] = self.v[k];
            k += 1;
        }
        self.move_index(x);
    }

    /// Load `V0` to `VX` from `I`.
    fn load(&mut self, x: Register)
        ensures
            final(self)@ == old(self)@.loaded(x),
    {
        let ghost before = self@;
        let count = x.index() + 1;
        let mut k: usize = 0;
        assert(before.v =~= Seq::new(
            16,
            |r: int|
                if r < 0 {
                    before.byte(before.i, r)
                } else {
                    before.v[r]
                },
        ));
        while k < count
            invariant
                k <= count <= 16,
                self@ == (Chip8View {
                    v: Seq::new(
                        16,
                        |r: int|
                            if r < k {
                                before.byte(before.i, r)
                            } else {
                                before.v[r]
                            },
                    ),
                    ..before
                }),
            decreases count - k,
        {
            self.v[k] = self.memory[self.i.wrapping_add(k as u16) as usize];
            assert(self@.v =~= Seq::new(
                16,
                |r: int|
                    if r < k + 1 {
                        before.byte(before.i, r)
                    } else {
                        before.v[r]
                    },
            ));
            k += 1;
        }
        assert(self@.v =~= before.loaded(x).v);
        self.move_index(x);
    }

    /// Store the registers from `VX` to `VY` at `I`.
    fn store_range(&mut self, x: Register, y: Register)
        ensures
            final(self)@ == old(self)@.range_stored(x, y),
    {
        let ghost before = self@;
        let ghost bytes = Seq::new(
            range_len(x, y) as nat,
            |k: int| before.v[range_register(x, y, k)],
        );
        let first = x.index();
        let last = y.index();
        let count = if first <= last {
            last - first + 1
        } else {
            first - last + 1
        };
        let mut k: usize = 0;
        proof {
            lemma_written_nothing(before.memory, before.i);
            assert(bytes.take(0) =~= Seq::empty());
        }
        while k < count
            invariant
                k <= count <= 16,
                count == range_len(x, y),
                first == x.number(),
                last == y.number(),
                before.sized(),
                bytes == Seq::new(
                    range_len(x, y) as nat,
                    |k: int| before.v[range_register(x, y, k)],
                ),
                self@ == (Chip8View {
                    memory: written(before.memory, before.i, bytes.take(k as int)),
                    ..before
                }),
            decreases count - k,
        {
            let register = if first <= last {
                first + k
            } else {
                first - k
            };
            proof {
                lemma_written_push(
                    before.memory,
                    before.i,
                    bytes.take(k as int),
                    bytes[k as int],
                );
                assert(bytes.take(k as int).push(bytes[k as int]) =~= bytes.take(k + 1));
            }
            self.memory[self.i.wrapping_add(k as u16) as usize] = self.v[register];
            k += 1;
        }
        assert(bytes.take(k as int) =~= bytes);
    }

    /// Load the registers from `VX` to `VY` from `I`.
    fn load_range(&mut self, x: Register, y: Register)
        ensures
            final(self)@ == old(self)@.range_loaded(x, y),
    {
        let ghost before = self@;
        let first = x.index();
        let last = y.index();
        let count = if first <= last {
            last - first + 1
        } else {
            first - last + 1
        };
        let mut k: usize = 0;
        assert(before.v =~= Seq::new(
            16,
            |r: int|
                if in_range(x, y, r) && (if first <= last {
                    r - first
                } else {
                    first - r
                }) < 0 {
                    before.byte(
                        before.i,
                        if first <= last {
                            r - first
                        } else {
                            first - r
                        },
                    )
                } else {
                    before.v[r]
                },
        ));
        while k < count
            invariant
                k <= count <= 16,
                count == range_len(x, y),
                first == x.number(),
                last == y.number(),
                self@ == (Chip8View {
                    v: Seq::new(
                        16,
                        |r: int|
                            if in_range(x, y, r) && (if first <= last {
                                r - first
                            } else {
                                first - r
                            }) < k {
                                before.byte(
                                    before.i,
                                    if first <= last {
                                        r - first
                                    } else {
                                        first - r
                                    },
                                )
                            } else {
                                before.v[r]
                            },
                    ),
                    ..before
                }),
            decreases count - k,
        {
            let register = if first <= last {
                first + k
            } else {
                first - k
            };
            self.v[register] = self.memory[self.i.wrapping_add(k as u16) as usize];
            assert(self@.v =~= Seq::new(
                16,
                |r: int|
                    if in_range(x, y, r) && (if first <= last {
                        r - first
                    } else {
                        first - r
                    }) < k + 1 {
                        before.byte(
                            before.i,
                            if first <= last {
                                r - first
                            } else {
                                first - r
                            },
                        )
                    } else {
                        before.v[r]
                    },
            ));
            k += 1;
        }
        assert(self@.v =~= before.range_loaded(x, y).v);
    }

    /// Store `V0` to `VX` in the user flags.
    fn store_flags(&mut self, x: Register)
        ensures
            final(self)@ == old(self)@.flags_stored(x),
    {
        let ghost before = self@;
        let count = x.index() + 1;
        let mut k: usize = 0;
        assert(before.flags =~= Seq::new(
            16,
            |r: int|
                if r < 0 {
                    before.v[r]
                } else {
                    before.flags[r]
                },
        ));
        while k < count
            invariant
                k <= count <= 16,
                self@ == (Chip8View {
                    flags: Seq::new(
                        16,
                        |r: int|
                            if r < k {
                                before.v[r]
                            } else {
                                before.flags[r]
                            },
                    ),
                    ..before
                }),
            decreases count - k,
        {
            self.flags[k] = self.v[k];
            assert(self@.flags =~= Seq::new(
                16,
                |r: int|
                    if r < k + 1 {
                        before.v[r]
                    } else {
                        before.flags[r]
                    },
            ));
            k += 1;
        }
        assert(self@.flags =~= before.flags_stored(x).flags);
    }

    /// Load `V0` to `VX` from the user flags.
    fn load_flags(&mut self, x: Register)
        ensures
            final(self)@ == old(self)@.flags_loaded(x),
    {
        let ghost before = self@;
        let count = x.index() + 1;
        let mut k: usize = 0;
        assert(before.v =~= Seq::new(
            16,
            |r: int|
                if r < 0 {
                    before.flags[r]
                } else {
                    before.v[r]
                },
        ));
        while k < count
            invariant
                k <= count <= 16,
                self@ == (Chip8View {
                    v: Seq::new(
                        16,
                        |r: int|
                            if r < k {
                                before.flags[r]
                            } else {
                                before.v[r]
                            },
                    ),
                    ..before
                }),
            decreases count - k,
        {
            self.v[k] = self.flags[k];
            assert(self@.v =~= Seq::new(
                16,
                |r: int|
                    if r < k + 1 {
                        before.flags[r]
                    } else {
                        before.v[r]
                    },
            ));
            k += 1;
        }
        assert(self@.v =~= before.flags_loaded(x).v);
    }

    /// Wait for a key: stay on the instruction, or take the lowest key
    /// that is down into `VX` and go on.
    fn await_key(&mut self, x: Register)
        ensures
            final(self)@ == old(self)@.key_awaited(x),
    {
        let ghost before = self@;
        self.pc = self.pc.wrapping_sub(2);
        let mut key: usize = 0;
        while key < 16
            invariant
                key <= 16,
                before == old(self)@,
                self@ == (Chip8View { pc: before.pc.wrapping_sub(2), ..before }),
                before.first_key(0) == before.first_key(key as int),
            decreases 16 - key,
        {
            if self.keyboard[key] {
                self.set_register(x, key as u8);
                self.skip();
                self.keyboard[key] = false;
                return ;
            }
            key += 1;
        }
    }

    /// Read the sprite of `rows` rows at `address` out of memory, one
    /// vector of pixels per row.
    fn sprite_rows(&self, address: u16, wide: bool, rows: u8) -> (sprite: Vec<Vec<u8>>)
        ensures
            pixels(&sprite) == self@.sprite(address, wide, rows),
    {
        let width: usize = if wide {
            16
        } else {
            8
        };
        let ghost shape = self@.sprite(address, wide, rows);
        let mut sprite: Vec<Vec<u8>> = Vec::new();
        let mut r: u8 = 0;
        while r < rows
            invariant
                r <= rows,
                width == (if wide {
                    16int
                } else {
                    8int
                }),
                shape == self@.sprite(address, wide, rows),
                sprite@.len() == r,
                forall|j: int| 0 <= j < r ==> (#[trigger] sprite@[j])@ == shape[j],
            decreases rows - r,
        {
            let mut line: Vec<u8> = Vec::new();
            let mut c: usize = 0;
            while c < width
                invariant
                    r < rows,
                    c <= width <= 16,
                    width == (if wide {
                        16int
                    } else {
                        8int
                    }),
                    line@.len() == c,
                    forall|j: int|
                        0 <= j < c ==> #[trigger] line@[j] == self@.pixel(
                            address,
                            wide,
                            r as int,
                            j,
                        ),
                decreases width - c,
            {
                let row: u16 = if wide {
                    2 * (r as u16)
                } else {
                    r as u16
                };
                let offset: u16 = row + (c / 8) as u16;
                let byte = self.memory[address.wrapping_add(offset) as usize];
                let shift: u8 = 7 - (c % 8) as u8;
                line.push((byte >> shift) & 1);
                c += 1;
            }
            sprite.push(line);
            r += 1;
        }
        sprite
    }

    /// Draw one plane of a sprite.
    fn draw_plane(
        &mut self,
        color: u8,
        address: u16,
        wide: bool,
        rows: u8,
        x: Register,
        y: Register,
        earlier: u8,
    )
        requires
            old(self).wf(),
            color <= 3,
        ensures
            final(self)@ == old(self)@.plane_drawn(color, address, wide, rows, x, y, earlier),
            final(self).wf(),
            final(self)@.display.keeps_dirty(old(self)@.display),
            final(self)@.display.same_outside(old(self)@.display),
    {
        let sprite = self.sprite_rows(address, wide, rows);
        let active = self.display.active_plane;
        let column = self.register(x);
        let line = self.register(y);
        self.display.plane(color);
        let hit = self.display.draw(sprite, column, line);
        self.display.plane(active);
        self.set_register(Register::VF, earlier | hit);
    }

    /// Draw a sprite of `n` rows at `(VX, VY)`.
    fn draw(&mut self, x: Register, y: Register, n: u8)
        requires
            old(self).wf(),
        ensures
            final(self)@ == old(self)@.drawn(x, y, n),
            final(self).wf(),
            final(self)@.display.keeps_dirty(old(self)@.display),
            final(self)@.display.same_outside(old(self)@.display),
    {
        let (wide, rows): (bool, u8) = if n != 0 {
            (false, n)
        } else if self.display.hires || matches!(
            self.options.quirks.lores_dxy0,
            Some(LoResDxy0Behavior::BigSprite)
        ) {
            (true, 16)
        } else if matches!(self.options.quirks.lores_dxy0, Some(LoResDxy0Behavior::TallSprite)) {
            (false, 16)
        } else {
            return ;
        };
        let active = self.display.active_plane;
        let size: u16 = if wide {
            2 * (rows as u16)
        } else {
            rows as u16
        };
        let address = self.i;
        if active & 1 != 0 {
            self.draw_plane(1, address, wide, rows, x, y, 0);
            if active & 2 != 0 {
                let earlier = self.register(Register::VF);
                self.draw_plane(2, address.wrapping_add(size), wide, rows, x, y, earlier);
            }
        } else if active & 2 != 0 {
            self.draw_plane(2, address, wide, rows, x, y, 0);
        }
    }
}

impl Chip8 {
    /// Execute an instruction that moves the program counter.
    fn execute_flow(&mut self, instruction: Instruction) -> (result: Result<(), Chip8Error>)
        requires
            old(self).wf(),
            instruction.family() == Family::Flow,
        ensures
            final(self)@ == old(self)@.after_flow(instruction),
            result == old(self)@.outcome(instruction),
            !overflowed(result) ==> final(self).wf(),
            final(self)@.sp <= 16,
            final(self)@.display.keeps_dirty(old(self)@.display),
            old(self)@.display.flag_exact() && !instruction.may_empty_display()
                ==> final(self)@.display.flag_exact(),
    {
        // The cases are named for the solver, which splits on them.
        match instruction {
            Instruction::Exit(code) => {
                return Err(Chip8Error::Exit(code));
            },
            Instruction::Return => {
                return self.ret();
            },
            Instruction::CallMachineCode(_) => {
                return Err(Chip8Error::MachineCodeUnsupported);
            },
            Instruction::Jump(address) => self.pc = address,
            Instruction::Call(address) => {
                return self.call(address);
            },
            Instruction::SkipIfEqual(x, byte) => {
                let equal = self.register(x) == self.operand(byte);
                self.skip_if(equal);
            },
            Instruction::SkipIfNotEqual(x, byte) => {
                let differ = self.register(x) != self.operand(byte);
                self.skip_if(differ);
            },
            Instruction::JumpRelative(address) => self.jump_relative(address),
            Instruction::SkipKey(x) => {
                let down = self.keyboard[(self.register(x) % 16) as usize];
                self.skip_if(down);
            },
            Instruction::SkipNotKey(x) => {
                let down = self.keyboard[(self.register(x) % 16) as usize];
                self.skip_if(!down);
            },
            Instruction::BlockKey(x) => self.await_key(x),
            _ => {},
        }
        Ok(())
    }

    /// Execute an instruction on the registers and timers.
    fn execute_arithmetic(&mut self, instruction: Instruction, random: u8) -> (result: Result<
        (),
        Chip8Error,
    >)
        requires
            old(self).wf(),
            instruction.family() == Family::Arithmetic,
        ensures
            final(self)@ == old(self)@.after_arithmetic(instruction, random),
            result == old(self)@.outcome(instruction),
            !overflowed(result) ==> final(self).wf(),
            final(self)@.sp <= 16,
            final(self)@.display.keeps_dirty(old(self)@.display),
            old(self)@.display.flag_exact() && !instruction.may_empty_display()
                ==> final(self)@.display.flag_exact(),
    {
        // The cases are named for the solver, which splits on them.
        assert({
                ||| instruction is Add
                ||| instruction is SetRegister
                ||| instruction is Or
                ||| instruction is And
                ||| instruction is Xor
                ||| instruction is Sub
                ||| instruction is ShiftRight
                ||| instruction is ShiftLeft
                ||| instruction is SubReverse
                ||| instruction is Random
                ||| instruction is LoadDelay
                ||| instruction is SetDelay
                ||| instruction is SetSound
        });
        match instruction {
            Instruction::Add(x, Byte::Immediate(value)) => {
                let sum = self.register(x).wrapping_add(value);
                self.set_register(x, sum);
            },
            Instruction::Add(x, Byte::Register(y)) => self.add(x, y),
            Instruction::SetRegister(x, byte) => {
                let value = self.operand(byte);
                self.set_register(x, value);
            },
            Instruction::Or(x, y) => {
                let value = self.register(x) | self.register(y);
                self.combine(x, value);
            },
            Instruction::And(x, y) => {
                let value = self.register(x) & self.register(y);
                self.combine(x, value);
            },
            Instruction::Xor(x, y) => {
                let value = self.register(x) ^ self.register(y);
                self.combine(x, value);
            },
            Instruction::Sub(x, y) => self.sub(x, y),
            Instruction::ShiftRight(x, y) => self.shift_right(x, y),
            Instruction::ShiftLeft(x, y) => self.shift_left(x, y),
            Instruction::SubReverse(x, y) => self.sub_reverse(x, y),
            Instruction::Random(x, mask) => self.set_register(x, random & mask),
            Instruction::LoadDelay(x) => self.set_register(x, self.delay),
            Instruction::SetDelay(x) => self.delay = self.register(x),
            Instruction::SetSound(x) => self.sound = self.register(x),
            _ => {},
        }
        Ok(())
    }

    /// Execute an instruction on `I`, the memory or the user flags.
    fn execute_memory(&mut self, instruction: Instruction) -> (result: Result<(), Chip8Error>)
        requires
            old(self).wf(),
            instruction.family() == Family::Memory,
        ensures
            final(self)@ == old(self)@.after_memory(instruction),
            result == old(self)@.outcome(instruction),
            !overflowed(result) ==> final(self).wf(),
            final(self)@.sp <= 16,
            final(self)@.display.keeps_dirty(old(self)@.display),
            old(self)@.display.flag_exact() && !instruction.may_empty_display()
                ==> final(self)@.display.flag_exact(),
    {
        // The cases are named for the solver, which splits on them.
        match instruction {
            Instruction::SetIndex(address) => self.i = address,
            Instruction::SetIndexLong => self.i = self.fetch(),
            Instruction::AddRegisterToIndex(x) => {
                self.i = self.i.wrapping_add(self.register(x) as u16);
            },
            Instruction::FontCharacter(x) => {
                self.i = 0x50 + (self.register(x) % 16) as u16 * 5;
            },
            Instruction::BigFontCharacter(x) => {
                self.i = 0xA0 + (self.register(x) % 16) as u16 * 10;
            },
            Instruction::Bcd(x) => self.bcd(x),
            Instruction::Store(x) => self.store(x),
            Instruction::Load(x) => self.load(x),
            Instruction::StoreRange(x, y) => self.store_range(x, y),
            Instruction::LoadRange(x, y) => self.load_range(x, y),
            Instruction::StoreFlags(x) => self.store_flags(x),
            Instruction::LoadFlags(x) => self.load_flags(x),
            _ => {},
        }
        Ok(())
    }

    /// Execute an instruction on the display, the quirks or the sound.
    fn execute_screen(&mut self, instruction: Instruction) -> (result: Result<(), Chip8Error>)
        requires
            old(self).wf(),
            instruction.family() == Family::Screen,
        ensures
            final(self)@ == old(self)@.after_screen(instruction),
            result == old(self)@.outcome(instruction),
            !overflowed(result) ==> final(self).wf(),
            final(self)@.sp <= 16,
            final(self)@.display.keeps_dirty(old(self)@.display),
            old(self)@.display.flag_exact() && !instruction.may_empty_display()
                ==> final(self)@.display.flag_exact(),
    {
        // The cases are named for the solver, which splits on them.
        match instruction {
            Instruction::ScrollUp(n) => self.display.scroll_up(n),
            Instruction::ScrollDown(n) => self.display.scroll_down(n),
            Instruction::ScrollRight => self.display.scroll_right(4),
            Instruction::ScrollLeft => self.display.scroll_left(4),
            Instruction::Clear => self.display.clear(false),
            Instruction::ToggleLoadStoreQuirk => {
                self.options.quirks.load_store = Some(!enabled(self.options.quirks.load_store));
            },
            Instruction::LoRes => self.display.lores(enabled(self.options.quirks.res_clear)),
            Instruction::HiRes => self.display.hires(enabled(self.options.quirks.res_clear)),
            Instruction::Draw(x, y, n) => self.draw(x, y, n),
            Instruction::LoadAudio => {},
            Instruction::SelectPlane(n) => {
                if n > 3 {
                    return Err(Chip8Error::InvalidPlane(n));
                }
                self.display.plane(n);
            },
            Instruction::SetPitch(_) => {},
            _ => {},
        }
        Ok(())
    }

    /// Execute an instruction, with `random` for the byte that `Random`
    /// draws.
    pub fn execute_with(&mut self, instruction: Instruction, random: u8) -> (result: Result<
        (),
        Chip8Error,
    >)
        requires
            old(self).wf(),
        ensures
            final(self)@ == old(self)@.after(instruction, random),
            result == old(self)@.outcome(instruction),
            !overflowed(result) ==> final(self).wf(),
            final(self)@.sp <= 16,
            final(self)@.display.keeps_dirty(old(self)@.display),
            old(self)@.display.flag_exact() && !instruction.may_empty_display()
                ==> final(self)@.display.flag_exact(),
    {
        match instruction.to_family() {
            Family::Flow => self.execute_flow(instruction),
            Family::Arithmetic => self.execute_arithmetic(instruction, random),
            Family::Memory => self.execute_memory(instruction),
            Family::Screen => self.execute_screen(instruction),
        }
    }

    /// Execute an instruction. `Random` draws its byte from the random
    /// number generator; every other instruction is determined by the
    /// machine.
    pub fn execute(&mut self, instruction: Instruction) -> (result: Result<(), Chip8Error>)
        requires
            old(self).wf(),
        ensures
            exists|random: u8| final(self)@ == #[trigger] old(self)@.after(instruction, random),
            !(instruction is Random) ==> final(self)@ == old(self)@.after(instruction, 0),
            result == old(self)@.outcome(instruction),
            !overflowed(result) ==> final(self).wf(),
            final(self)@.sp <= 16,
            final(self)@.display.keeps_dirty(old(self)@.display),
            old(self)@.display.flag_exact() && !instruction.may_empty_display()
                ==> final(self)@.display.flag_exact(),
    {
        let random = match instruction {
            Instruction::Random(_, _) => random_byte(),
            _ => 0,
        };
        self.execute_with(instruction, random)
    }
}

} // verus!
