//! The run loop: decode what was fetched, execute it, and go on until
//! the ticks are used up, the program fails or a draw ends the frame.

use vstd::prelude::*;
use crate::chip8::{Chip8, Chip8View};
use crate::error::{overflowed, Chip8Error};
use crate::instruction::Instruction;
use crate::options::{enabled, is_on};
use crate::outside::{decasm_decoded, decode_word};

verus! {

impl Chip8View {
    /// What an opcode decodes to: its instruction, or the error that names
    /// the opcode and the program counter.
    pub open spec fn decoded(self, opcode: u16) -> Result<Instruction, Chip8Error> {
        match decasm_decoded(opcode).instruction() {
            Some(instruction) => Ok(instruction),
            None => Err(Chip8Error::UnknownOpcode { opcode, pc: self.pc }),
        }
    }

    /// The machine after the timers have counted down once: the delay
    /// timer unless it is zero or left to the host by the quirk
    /// `delay_wrap`, the sound timer unless it is zero.
    pub open spec fn ticked(self) -> Chip8View {
        Chip8View {
            delay: if !is_on(self.options.quirks.delay_wrap) && self.delay > 0 {
                (self.delay - 1) as u8
            } else {
                self.delay
            },
            sound: if self.sound > 0 {
                (self.sound - 1) as u8
            } else {
                self.sound
            },
            ..self
        }
    }

    /// The machine after one cycle, and how the cycle ends the run:
    /// `None` if the run goes on, `Some(Err(..))` if decoding or executing
    /// failed, `Some(Ok(()))` if the quirk `vblank` is on and the opcode
    /// was one of `D000` to `DFFF`. `random` is the byte that `Random`
    /// draws.
    #[verifier::opaque]
    pub open spec fn cycled(self, random: u8) -> (Chip8View, Option<Result<(), Chip8Error>>) {
        let opcode = self.word();
        let fetched = self.fetched();
        match fetched.decoded(opcode) {
            Err(error) => (fetched, Some(Err(error))),
            Ok(instruction) => {
                let next = fetched.after(instruction, random);
                match fetched.outcome(instruction) {
                    Err(error) => (next, Some(Err(error))),
                    Ok(_) => (
                        next,
                        if is_on(next.options.quirks.vblank) && 0xD000 <= opcode <= 0xDFFF {
                            Some(Ok(()))
                        } else {
                            None
                        },
                    ),
                }
            },
        }
    }

    /// The machine after up to `cycles` cycles, and how the run has ended
    /// by then, if it has. Cycle `k` draws `randoms[k]`. A run that has
    /// ended stays as it is.
    pub open spec fn cycles(self, cycles: nat, randoms: Seq<u8>) -> (
        Chip8View,
        Option<Result<(), Chip8Error>>,
    )
        decreases cycles,
    {
        if cycles == 0 {
            (self, None)
        } else {
            let (state, ended) = self.cycles((cycles - 1) as nat, randoms);
            if ended is Some {
                (state, ended)
            } else {
                state.cycled(randoms[cycles - 1])
            }
        }
    }

    /// The machine after `run(ticks)`, and what the run returns: the
    /// timers count down once, then up to `ticks` cycles follow.
    pub open spec fn ran(self, ticks: u16, randoms: Seq<u8>) -> (
        Chip8View,
        Result<(), Chip8Error>,
    ) {
        let (state, ended) = self.ticked().cycles(ticks as nat, randoms);
        (
            state,
            match ended {
                Some(result) => result,
                None => Ok(()),
            },
        )
    }
}

/// With the quirk `vblank`, a cycle that executed one of the opcodes
/// `D000` to `DFFF` ends the run: a run executes no instruction after a
/// draw.
pub proof fn lemma_draw_ends_run(state: Chip8View, random: u8)
    requires
        is_on(state.cycled(random).0.options.quirks.vblank),
        0xD000 <= state.word() <= 0xDFFF,
    ensures
        state.cycled(random).1 is Some,
{
    reveal(Chip8View::cycled);
}

/// A cycle whose opcode is no instruction ends the run with the error
/// that names the opcode and the program counter behind it, and leaves
/// the machine as the fetch left it.
pub proof fn lemma_unknown_opcode_ends_run(state: Chip8View, random: u8)
    requires
        state.fetched().decoded(state.word()) is Err,
    ensures
        state.cycled(random) == (
            state.fetched(),
            Some(
                Err::<(), Chip8Error>(
                    Chip8Error::UnknownOpcode {
                        opcode: state.word(),
                        pc: state.pc.wrapping_add(2),
                    },
                ),
            ),
        ),
{
    reveal(Chip8View::cycled);
}

/// The first `cycles` cycles do not depend on what a later cycle draws.
pub proof fn lemma_cycles_ignore_later(
    state: Chip8View,
    cycles: nat,
    randoms: Seq<u8>,
    later: int,
    random: u8,
)
    requires
        cycles <= later < randoms.len(),
    ensures
        state.cycles(cycles, randoms.update(later, random)) == state.cycles(cycles, randoms),
    decreases cycles,
{
    if cycles > 0 {
        lemma_cycles_ignore_later(state, (cycles - 1) as nat, randoms, later, random);
    }
}

/// A run that has ended after `cycles` cycles is the same after more.
pub proof fn lemma_cycles_stay_ended(state: Chip8View, cycles: nat, more: nat, randoms: Seq<u8>)
    requires
        cycles <= more,
        state.cycles(cycles, randoms).1 is Some,
    ensures
        state.cycles(more, randoms) == state.cycles(cycles, randoms),
    decreases more,
{
    if cycles < more {
        lemma_cycles_stay_ended(state, cycles, (more - 1) as nat, randoms);
    }
}

impl Chip8 {
    /// Decode an opcode into an instruction. The machine is left as it
    /// is; the program counter only goes into the error.
    pub fn decode(&self, opcode: u16) -> (result: Result<Instruction, Chip8Error>)
        ensures
            result == self@.decoded(opcode),
    {
        match decode_word(opcode).to_instruction() {
            Some(instruction) => Ok(instruction),
            None => Err(Chip8Error::UnknownOpcode { opcode, pc: self.pc }),
        }
    }

    /// Count the timers down once.
    fn tick(&mut self)
        ensures
            final(self)@ == old(self)@.ticked(),
    {
        if !enabled(self.options.quirks.delay_wrap) && self.delay > 0 {
            self.delay -= 1;
        }
        if self.sound > 0 {
            self.sound -= 1;
        }
    }

    /// Run one cycle: fetch, decode, execute.
    fn cycle(&mut self) -> (ended: Option<Result<(), Chip8Error>>)
        requires
            old(self).wf(),
        ensures
            exists|random: u8| (final(self)@, ended) == #[trigger] old(self)@.cycled(random),
            !(ended matches Some(result) && overflowed(result)) ==> final(self).wf(),
            final(self)@.sp <= 16,
            final(self)@.display.keeps_dirty(old(self)@.display),
    {
        reveal(Chip8View::cycled);
        let ghost before = self@;
        let opcode = self.fetch();
        let instruction = match self.decode(opcode) {
            Ok(instruction) => instruction,
            Err(error) => {
                assert((self@, Some(Err::<(), Chip8Error>(error))) == before.cycled(0));
                return Some(Err(error));
            },
        };
        let ghost fetched = self@;
        let result = self.execute(instruction);
        let ghost random = choose|random: u8|
            self@ == #[trigger] fetched.after(instruction, random);
        let ended = match result {
            Err(error) => Some(Err(error)),
            Ok(_) => if enabled(self.options.quirks.vblank) && 0xD000 <= opcode && opcode
                <= 0xDFFF {
                Some(Ok(()))
            } else {
                None
            },
        };
        assert((self@, ended) == before.cycled(random));
        ended
    }

    /// Run the machine for a frame: count the timers down once, then run
    /// up to `ticks` cycles. The run ends early, with the error, when an
    /// opcode is no instruction or an instruction fails, and without one
    /// when the quirk `vblank` is on and a draw was executed.
    pub fn run(&mut self, ticks: u16) -> (result: Result<(), Chip8Error>)
        requires
            old(self).wf(),
        ensures
            exists|randoms: Seq<u8>|
                randoms.len() == ticks && (final(self)@, result) == #[trigger] old(self)@.ran(
                    ticks,
                    randoms,
                ),
            !overflowed(result) ==> final(self).wf(),
            final(self)@.sp <= 16,
            final(self)@.display.keeps_dirty(old(self)@.display),
    {
        let ghost before = self@;
        self.tick();
        let ghost start = self@;
        let ghost mut randoms = Seq::new(ticks as nat, |k: int| 0u8);
        let mut done: u16 = 0;
        while done < ticks
            invariant
                done <= ticks,
                randoms.len() == ticks,
                before == old(self)@,
                start == before.ticked(),
                before.wf(),
                self.wf(),
                self@.display.keeps_dirty(before.display),
                (self@, None::<Result<(), Chip8Error>>) == start.cycles(done as nat, randoms),
            decreases ticks - done,
        {
            let ghost state = self@;
            let ended = self.cycle();
            proof {
                let random = choose|random: u8| (self@, ended) == #[trigger] state.cycled(random);
                lemma_cycles_ignore_later(start, done as nat, randoms, done as int, random);
                randoms = randoms.update(done as int, random);
            }
            match ended {
                Some(result) => {
                    proof {
                        lemma_cycles_stay_ended(start, (done + 1) as nat, ticks as nat, randoms);
                        assert((self@, result) == before.ran(ticks, randoms));
                    }
                    return result;
                },
                None => {},
            }
            done += 1;
        }
        assert((self@, Ok::<(), Chip8Error>(())) == before.ran(ticks, randoms));
        Ok(())
    }
}

} // verus!
