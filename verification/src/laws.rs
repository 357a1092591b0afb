//! Laws of the machine and its display, stated over their views.

use vstd::prelude::*;
use crate::chip8::{written, Chip8View};
use crate::display::DisplayView;
use crate::instruction::{Instruction, Register};
use crate::options::is_on;

verus! {

/// A call followed by a return gives back the program counter and the
/// stack pointer, as long as the stack has room for the call.
pub proof fn lemma_call_then_return(
    state: Chip8View,
    address: u16,
    random: u8,
    other: u8,
)
    requires
        state.sized(),
        state.sp + 1 < 16,
    ensures
        state.outcome(Instruction::Call(address)) is Ok,
        state.after(Instruction::Call(address), random).pc == address,
        state.after(Instruction::Call(address), random).outcome(Instruction::Return) is Ok,
        state.after(Instruction::Call(address), random).after(Instruction::Return, other).pc
            == state.pc,
        state.after(Instruction::Call(address), random).after(Instruction::Return, other).sp
            == state.sp,
{
}

/// A skip goes 4 bytes forward if the next instruction starts with the
/// word `F000`, else 2, modulo the size of memory.
pub proof fn lemma_skip_stride(state: Chip8View)
    ensures
        state.word() == 0xF000 ==> state.skipped().pc == state.pc.wrapping_add(4),
        state.word() != 0xF000 ==> state.skipped().pc == state.pc.wrapping_add(2),
{
}

/// After `Bcd`, the three bytes at `I` are the decimal digits of `VX`:
/// each is below 10, and 100 times the first plus 10 times the second
/// plus the third is `VX`.
pub proof fn lemma_bcd_digits(state: Chip8View, x: Register, random: u8)
    requires
        state.sized(),
    ensures
        ({
            let next = state.after(Instruction::Bcd(x), random);
            &&& next.byte(state.i, 0) < 10
            &&& next.byte(state.i, 1) < 10
            &&& next.byte(state.i, 2) < 10
            &&& 100 * next.byte(state.i, 0) + 10 * next.byte(state.i, 1) + next.byte(state.i, 2)
                == state.reg(x)
        }),
{
    let value = state.reg(x);
    let digits = seq![value / 100, (value / 10) % 10, value % 10];
    lemma_written_read(state.memory, state.i, digits, 0);
    lemma_written_read(state.memory, state.i, digits, 1);
    lemma_written_read(state.memory, state.i, digits, 2);
}

/// A store followed by a load from the same `I` gives back the
/// registers. With the quirk `load_store` the store leaves `I` where it
/// was; without it, `I` has to be set back between the two.
pub proof fn lemma_store_then_load(state: Chip8View, x: Register, random: u8, other: u8)
    requires
        state.sized(),
    ensures
        ({
            let stored = state.after(Instruction::Store(x), random);
            let reset = Chip8View { i: state.i, ..stored };
            &&& reset.after(Instruction::Load(x), other).v == state.v
            &&& is_on(state.options.quirks.load_store) ==> reset == stored
        }),
{
    let stored = state.stored(x);
    let reset = Chip8View { i: state.i, ..stored };
    let loaded = reset.loaded(x);
    assert forall|r: int| 0 <= r < 16 implies loaded.v[r] == state.v[r] by {
        if r <= x.number() {
            lemma_written_read(state.memory, state.i, state.v.take(x.number() + 1), r);
        }
    }
}

/// What was written is what is read, as long as the bytes do not lap the
/// memory.
pub proof fn lemma_written_read(memory: Seq<u8>, at: u16, bytes: Seq<u8>, k: int)
    requires
        memory.len() == 0x10000,
        0 <= k < bytes.len() <= 0x10000,
    ensures
        written(memory, at, bytes)[(at + k) % 0x10000] == bytes[k],
{
}

/// A flipped bit flips back.
proof fn lemma_flip_twice(cell: u8, plane: u8)
    ensures
        (cell ^ plane) ^ plane == cell,
{
    assert((cell ^ plane) ^ plane == cell) by (bit_vector);
}

/// Drawing a sprite twice at the same place gives back the cells.
pub proof fn lemma_draw_twice(display: DisplayView, sprite: Seq<Seq<u8>>, x: u8, y: u8)
    requires
        display.full_size(),
    ensures
        display.drawn(sprite, x, y).drawn(sprite, x, y).cells == display.cells,
{
    let once = display.drawn(sprite, x, y);
    let twice = once.drawn(sprite, x, y);
    assert forall|r: int| 0 <= r < 64 implies #[trigger] twice.cells[r] =~= display.cells[r] by {
        assert forall|c: int| 0 <= c < 128 implies twice.cells[r][c] == display.cells[r][c] by {
            lemma_flip_twice(display.cells[r][c], display.active_plane);
        }
    }
}

/// On a display whose active planes are dark, a first draw collides with
/// nothing, and a second draw of the same sprite at the same place
/// collides if and only if the first one lit a pixel.
pub proof fn lemma_draw_twice_collides(display: DisplayView, sprite: Seq<Seq<u8>>, x: u8, y: u8)
    requires
        display.wf(),
        forall|r: int, c: int|
            display.defined(r, c) ==> #[trigger] display.cells[r][c] & display.active_plane == 0,
    ensures
        display.collision(sprite, x, y) == 0,
        display.drawn(sprite, x, y).collision(sprite, x, y) == 1 <==> exists|r: int, c: int|
            display.defined(r, c) && #[trigger] display.drawn(sprite, x, y).cells[r][c]
                & display.active_plane != 0,
{
    let once = display.drawn(sprite, x, y);
    let plane = display.active_plane;
    if exists|r: int, c: int|
        display.defined(r, c) && #[trigger] once.cells[r][c] & plane != 0 {
        let (r, c) = choose|r: int, c: int|
            display.defined(r, c) && #[trigger] once.cells[r][c] & plane != 0;
        assert(once.hit(sprite, x, y, r, c));
    }
}

/// In a well-formed display a set `clear` flag means that every cell of
/// the current mode is zero. Right after `clear` the flag says exactly
/// whether the buffer is blank; right after a draw it says so unless the
/// draw has emptied the buffer.
pub proof fn lemma_clear_flag(
    display: DisplayView,
    all_planes: bool,
    sprite: Seq<Seq<u8>>,
    x: u8,
    y: u8,
)
    requires
        display.wf(),
    ensures
        display.clear ==> forall|r: int, c: int|
            display.defined(r, c) ==> #[trigger] display.cells[r][c] == 0,
        display.cleared(all_planes).flag_exact(),
        display.drawn(sprite, x, y).flag_exact() <==> !display.drawn(sprite, x, y).blank(),
{
    let after = display.cleared(all_planes);
    let wiped = DisplayView { cells: after.cells, ..display };
    if wiped.blank() {
        assert forall|r: int, c: int| 0 <= r < 64 && 0 <= c < 128 implies (
        #[trigger] after.cells[r][c]) == 0 by {
            assert(wiped.cells[r][c] == 0);
        }
    }
}

/// A scroll by no pixels leaves the display as it is, clear or not.
pub proof fn lemma_scroll_by_nothing(display: DisplayView)
    ensures
        display.scrolled_up(0) == display,
        display.scrolled_down(0) == display,
        display.scrolled_left(0) == display,
        display.scrolled_right(0) == display,
{
}

} // verus!
