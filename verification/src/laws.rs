//! Laws of the machine, proved of the model that the contracts speak of.

use vstd::prelude::*;
use vstd::arithmetic::div_mod::{lemma_div_pos_is_pos, lemma_mod_pos_bound};
use crate::display::{shade, Screen};
use crate::instruction::{decoded, Instruction};
use crate::machine::{add8, first_pressed, flag, sub8, Fault, Machine};
use crate::memory::{
    font_in_place, overwritten, write_error, FONT, FONT_SIZE, FONT_START, MEMORY_SIZE,
};
use crate::stack::{StackError, STACK_CAPACITY};

verus! {

/// `add8` and `sub8` are the sum and the difference modulo 256.
pub proof fn lemma_bytes_modulo(a: u8, b: u8)
    ensures
        add8(a, b) == (a + b) % 256,
        sub8(a, b) == (a - b) % 256,
{
}

/// Addition sets the flag to 1 exactly if the sum of the two registers does
/// not fit in eight bits, and to 0 otherwise.
pub proof fn lemma_add_flag(m: Machine, x: u8, y: u8, random: u8)
    requires
        m.wf(),
        x < 16,
        y < 16,
    ensures
        m.execute(Instruction::Add { x, y }, random).machine.v[15] == flag(
            m.v[x as int] + m.v[y as int] > 255,
        ),
        m.execute(Instruction::Add { x, y }, random).result == Ok::<bool, Fault>(false),
        x != 15 ==> m.execute(Instruction::Add { x, y }, random).machine.v[x as int] == (m.v[x as int]
            + m.v[y as int]) % 256,
{
    lemma_bytes_modulo(m.v[x as int], m.v[y as int]);
}

/// Subtraction `V[x] - V[y]` sets the flag to 1 exactly if `V[x] >= V[y]`,
/// and to 0 otherwise.
pub proof fn lemma_sub_flag(m: Machine, x: u8, y: u8, random: u8)
    requires
        m.wf(),
        x < 16,
        y < 16,
    ensures
        m.execute(Instruction::Sub { x, y }, random).machine.v[15] == flag(
            m.v[x as int] >= m.v[y as int],
        ),
        m.execute(Instruction::Sub { x, y }, random).result == Ok::<bool, Fault>(false),
        x != 15 ==> m.execute(Instruction::Sub { x, y }, random).machine.v[x as int] == (m.v[x as int]
            - m.v[y as int]) % 256,
{
    lemma_bytes_modulo(m.v[x as int], m.v[y as int]);
}

/// Reverse subtraction `V[y] - V[x]` sets the flag to 1 exactly if
/// `V[y] >= V[x]`, and to 0 otherwise.
pub proof fn lemma_sub_from_flag(m: Machine, x: u8, y: u8, random: u8)
    requires
        m.wf(),
        x < 16,
        y < 16,
    ensures
        m.execute(Instruction::SubFrom { x, y }, random).machine.v[15] == flag(
            m.v[y as int] >= m.v[x as int],
        ),
        m.execute(Instruction::SubFrom { x, y }, random).result == Ok::<bool, Fault>(false),
        x != 15 ==> m.execute(Instruction::SubFrom { x, y }, random).machine.v[x as int] == (
        m.v[y as int] - m.v[x as int]) % 256,
{
    lemma_bytes_modulo(m.v[y as int], m.v[x as int]);
}

/// A cleared screen paints the background colour into every cell of a frame
/// that it has and that fits in the frame.
pub proof fn lemma_cleared_frame_is_background(s: Screen, before: Seq<u8>, cell: int)
    requires
        s.wf(),
        s.has_cell(cell),
        4 * cell + 4 <= before.len(),
    ensures
        s.cleared().frame(before).subrange(4 * cell, 4 * cell + 4) == shade(false),
{
    let w = s.width as int;
    lemma_mod_pos_bound(cell, w);
    lemma_div_pos_is_pos(cell, w);
    let clear = s.cleared();
    assert(clear.has_cell(cell));
    assert(!clear.cell(cell));
    let painted = clear.frame(before).subrange(4 * cell, 4 * cell + 4);
    assert forall|k: int| 0 <= k < 4 implies painted[k] == shade(false)[k] by {
        let j = 4 * cell + k;
        assert(j / 4 == cell && j % 4 == k);
        assert(clear.frame(before)[j] == shade(clear.cell(cell))[k]);
    }
    assert(painted =~= shade(false));
}

/// A cleared screen paints a frame of exactly its size as background from
/// end to end.
pub proof fn lemma_cleared_frame_is_all_background(s: Screen, before: Seq<u8>)
    requires
        s.wf(),
        before.len() == 4 * (s.width * s.height),
    ensures
        forall|cell: int|
            0 <= cell < s.width * s.height ==> #[trigger] s.cleared().frame(before).subrange(
                4 * cell,
                4 * cell + 4,
            ) == shade(false),
{
    assert forall|cell: int| 0 <= cell < s.width * s.height implies #[trigger] s.cleared().frame(
        before,
    ).subrange(4 * cell, 4 * cell + 4) == shade(false) by {
        s.lemma_has_cell(cell);
        lemma_cleared_frame_is_background(s, before, cell);
    }
}

/// The clear-screen instruction leaves a display that paints as background
/// everywhere.
pub proof fn lemma_clear_screen_paints_background(
    m: Machine,
    random: u8,
    before: Seq<u8>,
    cell: int,
)
    requires
        m.wf(),
        m.screen.has_cell(cell),
        4 * cell + 4 <= before.len(),
    ensures
        m.execute(Instruction::ClearScreen, random).result == Ok::<bool, Fault>(true),
        m.execute(Instruction::ClearScreen, random).machine.screen.frame(before).subrange(
            4 * cell,
            4 * cell + 4,
        ) == shade(false),
{
    lemma_cleared_frame_is_background(m.screen, before, cell);
    assert(m.screen.cleared().cleared() == m.screen.cleared());
}

/// Drawing a sprite twice at the same place brings every pixel back.
pub proof fn lemma_blit_twice_restores(s: Screen, x: u8, y: u8, sprite: Seq<u8>)
    requires
        s.wf(),
    ensures
        s.blit(x, y, sprite).blit(x, y, sprite) == s,
{
    let once = s.blit(x, y, sprite);
    let twice = once.blit(x, y, sprite);
    assert forall|r: int| 0 <= r < s.height implies #[trigger] twice.rows[r] == s.rows[r] by {
        assert forall|c: int| 0 <= c < s.width implies twice.rows[r][c] == s.rows[r][c] by {
            assert(once.at(c, r) == (s.at(c, r) != s.inked(x, y, sprite, c, r)));
            assert(once.inked(x, y, sprite, c, r) == s.inked(x, y, sprite, c, r));
        }
        assert(twice.rows[r] =~= s.rows[r]);
    }
    assert(twice.rows =~= s.rows);
}

/// The second of two draws at the same place reports a collision exactly if
/// the sprite is opaque over some pixel that was off before the first draw.
pub proof fn lemma_second_blit_collides(s: Screen, x: u8, y: u8, sprite: Seq<u8>)
    requires
        s.wf(),
    ensures
        s.blit(x, y, sprite).collides(x, y, sprite) <==> exists|c: int, r: int|
            s.contains(c, r) && !s.at(c, r) && #[trigger] s.inked(x, y, sprite, c, r),
{
    let once = s.blit(x, y, sprite);
    assert forall|c: int, r: int| s.contains(c, r) implies once.at(c, r) == (s.at(c, r) != s.inked(
        x,
        y,
        sprite,
        c,
        r,
    )) && #[trigger] once.inked(x, y, sprite, c, r) == s.inked(x, y, sprite, c, r) by {}
    if once.collides(x, y, sprite) {
        let (c, r) = choose|c: int, r: int|
            once.contains(c, r) && once.at(c, r) && #[trigger] once.inked(x, y, sprite, c, r);
        assert(s.contains(c, r) && !s.at(c, r) && s.inked(x, y, sprite, c, r));
    }
    if exists|c: int, r: int|
        s.contains(c, r) && !s.at(c, r) && #[trigger] s.inked(x, y, sprite, c, r) {
        let (c, r) = choose|c: int, r: int|
            s.contains(c, r) && !s.at(c, r) && #[trigger] s.inked(x, y, sprite, c, r);
        assert(once.contains(c, r) && once.at(c, r) && once.inked(x, y, sprite, c, r));
    }
}

/// Where the sprite is opaque over some pixel that was off, the second of
/// two draws at the same place reports a collision.
pub proof fn lemma_second_blit_hits(s: Screen, x: u8, y: u8, sprite: Seq<u8>, c: int, r: int)
    requires
        s.wf(),
        s.contains(c, r),
        !s.at(c, r),
        s.inked(x, y, sprite, c, r),
    ensures
        s.blit(x, y, sprite).collides(x, y, sprite),
{
    lemma_second_blit_collides(s, x, y, sprite);
}

/// Two draw instructions in a row, with coordinates taken from registers
/// other than the flag, restore the display, and the second sets the flag
/// exactly if the sprite is opaque over some pixel that was off at first.
pub proof fn lemma_draw_twice(m: Machine, x: u8, y: u8, n: u8, random: u8)
    requires
        m.wf(),
        x < 15,
        y < 15,
        n < 16,
        m.index + n <= MEMORY_SIZE,
    ensures
        ({
            let draw = Instruction::Draw { x, y, n };
            let once = m.execute(draw, random).machine;
            let twice = once.execute(draw, random);
            let sprite = m.mem.subrange(m.index, m.index + n);
            &&& twice.result == Ok::<bool, Fault>(true)
            &&& twice.machine.screen == m.screen
            &&& twice.machine.v[15] == flag(
                exists|c: int, r: int|
                    m.screen.contains(c, r) && !m.screen.at(c, r) && #[trigger] m.screen.inked(
                        m.v[x as int],
                        m.v[y as int],
                        sprite,
                        c,
                        r,
                    ),
            )
        }),
{
    let sprite = m.mem.subrange(m.index, m.index + n);
    lemma_blit_twice_restores(m.screen, m.v[x as int], m.v[y as int], sprite);
    lemma_second_blit_collides(m.screen, m.v[x as int], m.v[y as int], sprite);
}

/// A call followed at once by a return continues right after the call, with
/// the stack as it was. `m` is the machine after the call has been fetched.
pub proof fn lemma_call_then_return(m: Machine, addr: u16, random: u8)
    requires
        m.wf(),
        m.stack.len() < STACK_CAPACITY,
    ensures
        ({
            let called = m.execute(Instruction::Call { addr }, random);
            let returned = called.machine.execute(Instruction::Return, random);
            &&& called.result == Ok::<bool, Fault>(false)
            &&& called.machine.pc == addr
            &&& returned.result == Ok::<bool, Fault>(false)
            &&& returned.machine == m
        }),
{
    let called = m.execute(Instruction::Call { addr }, random).machine;
    assert(called.stack.drop_last() =~= m.stack);
}

/// A call whose target holds a return, run as two whole steps, leaves the
/// program counter just past the call.
pub proof fn lemma_call_return_steps(m: Machine, call: u16, addr: u16, random: u8, second: u8)
    requires
        m.wf(),
        m.stack.len() < STACK_CAPACITY,
        m.fetch() == Some(call),
        decoded(call) == Ok::<Instruction, crate::instruction::DecodeError>(
            Instruction::Call { addr },
        ),
        addr + 1 < MEMORY_SIZE,
        m.mem[addr as int] == 0x00,
        m.mem[addr + 1] == 0xEE,
    ensures
        m.step(random).machine.step(second).machine.pc == m.pc + 2,
        m.step(random).machine.step(second).machine.stack == m.stack,
        m.step(random).machine.step(second).result == Ok::<bool, Fault>(false),
{
    let fetched = Machine { pc: m.pc + 2, ..m };
    lemma_call_then_return(fetched, addr, random);
    let called = m.step(random).machine;
    assert(called == fetched.execute(Instruction::Call { addr }, random).machine);
    assert(called.fetch() == Some(0x00EEu16));
    let landed = Machine { pc: called.pc + 2, ..called };
    assert(landed.stack.drop_last() =~= m.stack);
}

/// A call on a full stack is refused with `StackOverflow`, a return on an
/// empty stack with `StackUnderflow`, and neither changes the machine.
pub proof fn lemma_stack_faults(m: Machine, addr: u16, random: u8)
    ensures
        m.stack.len() >= STACK_CAPACITY ==> m.execute(Instruction::Call { addr }, random) == m.fault(
            Fault::Stack(StackError::StackOverflow),
        ),
        m.stack.len() == 0 ==> m.execute(Instruction::Return, random) == m.fault(
            Fault::Stack(StackError::StackUnderflow),
        ),
{
}

/// `first_pressed` finds the lowest key held down at or after `from`.
pub proof fn lemma_first_pressed(keys: Seq<bool>, from: int)
    requires
        0 <= from <= keys.len(),
    ensures
        from <= first_pressed(keys, from) <= keys.len(),
        first_pressed(keys, from) < keys.len() ==> keys[first_pressed(keys, from)],
        forall|j: int| from <= j < first_pressed(keys, from) ==> !keys[j],
    decreases keys.len() - from,
{
    if from < keys.len() && !keys[from] {
        lemma_first_pressed(keys, from + 1);
    }
}

/// The machine after one step for each byte of `randoms`, whatever the
/// steps report.
pub open spec fn run(m: Machine, randoms: Seq<u8>) -> Machine
    decreases randoms.len(),
{
    if randoms.len() == 0 {
        m
    } else {
        run(m.step(randoms[0]).machine, randoms.drop_first())
    }
}

/// While no key is held down, a machine that stands at a wait-for-key
/// instruction stays exactly as it is, however many steps it takes.
pub proof fn lemma_wait_key_idles(m: Machine, word: u16, x: u8, randoms: Seq<u8>)
    requires
        m.wf(),
        m.fetch() == Some(word),
        decoded(word) == Ok::<Instruction, crate::instruction::DecodeError>(
            Instruction::WaitKey { x },
        ),
        forall|k: int| 0 <= k < 16 ==> !m.keys[k],
    ensures
        run(m, randoms) == m,
        forall|random: u8| #[trigger] m.step(random).machine == m,
        forall|random: u8| #[trigger] m.step(random).result == Ok::<bool, Fault>(false),
    decreases randoms.len(),
{
    lemma_first_pressed(m.keys, 0);
    assert forall|random: u8| #[trigger]
        m.step(random).machine == m && m.step(random).result == Ok::<bool, Fault>(false) by {
        let next = Machine { pc: m.pc + 2, ..m };
        assert(m.step(random) == next.execute(Instruction::WaitKey { x }, random));
        assert(m.step(random).machine =~= m);
    }
    if randoms.len() > 0 {
        assert(m.step(randoms[0]).machine == m);
        lemma_wait_key_idles(m, word, x, randoms.drop_first());
    }
}

/// Once a key is held down, a machine that stands at a wait-for-key
/// instruction stores the number of the lowest such key in `V[x]` and moves
/// on to the next instruction.
pub proof fn lemma_wait_key_takes_key(m: Machine, word: u16, x: u8, key: int, random: u8)
    requires
        m.wf(),
        m.fetch() == Some(word),
        decoded(word) == Ok::<Instruction, crate::instruction::DecodeError>(
            Instruction::WaitKey { x },
        ),
        0 <= key < 16,
        m.keys[key],
        forall|k: int| 0 <= k < key ==> !m.keys[k],
    ensures
        m.step(random).result == Ok::<bool, Fault>(false),
        m.step(random).machine == (Machine { pc: m.pc + 2, ..m }).set_reg(x, key as u8),
{
    lemma_first_pressed(m.keys, 0);
    let found = first_pressed(m.keys, 0);
    assert(found == key) by {
        if found < key {
            assert(!m.keys[found]);
        }
    }
}

/// The machine after the timers have been counted down `n` times.
pub open spec fn timers_ticked_times(m: Machine, n: nat) -> Machine
    decreases n,
{
    if n == 0 {
        m
    } else {
        timers_ticked_times(m.timers_ticked(), (n - 1) as nat)
    }
}

/// However often the timers are counted down, each ends at its old value
/// less the number of times, or at zero if that would be negative, and
/// nothing else changes.
pub proof fn lemma_timers_never_underflow(m: Machine, n: nat)
    ensures
        timers_ticked_times(m, n) == (Machine {
            delay: if m.delay >= n {
                (m.delay - n) as u8
            } else {
                0
            },
            sound: if m.sound >= n {
                (m.sound - n) as u8
            } else {
                0
            },
            ..m
        }),
        timers_ticked_times(m, n).delay >= 0,
        timers_ticked_times(m, n).sound >= 0,
    decreases n,
{
    if n > 0 {
        lemma_timers_never_underflow(m.timers_ticked(), (n - 1) as nat);
    }
}

/// Storing bytes clear of the font table leaves the font table in place.
proof fn lemma_store_keeps_font(mem: Seq<u8>, start: int, bytes: Seq<u8>)
    requires
        mem.len() == MEMORY_SIZE,
        font_in_place(mem),
        0 <= start,
        write_error(start, bytes.len() as int) is None,
    ensures
        font_in_place(overwritten(mem, start, bytes)),
        overwritten(mem, start, bytes).len() == MEMORY_SIZE,
{
    let after = overwritten(mem, start, bytes);
    assert forall|i: int| 0 <= i < FONT_SIZE implies after[FONT_START + i] == #[trigger] FONT@[i] by {
        assert(mem[FONT_START + i] == FONT@[i]);
    }
}

/// No instruction leads out of the well-formed machines: sizes stay, the
/// stack stays within its capacity, and the font table stays in place.
pub proof fn lemma_execute_preserves_wf(m: Machine, instr: Instruction, random: u8)
    requires
        m.wf(),
        instr.valid(),
        2 <= m.pc <= MEMORY_SIZE,
    ensures
        m.execute(instr, random).machine.wf(),
{
    match instr {
        Instruction::StoreBcd { x } => {
            let a = m.v[x as int];
            if write_error(m.index, 3) is None {
                lemma_store_keeps_font(m.mem, m.index, seq![a / 100, (a / 10) % 10, a % 10]);
            }
        },
        Instruction::StoreRegs { x } => {
            if write_error(m.index, x + 1) is None {
                lemma_store_keeps_font(m.mem, m.index, m.v.subrange(0, x + 1));
            }
        },
        _ => {},
    }
}

/// No step leads out of the well-formed machines.
pub proof fn lemma_step_preserves_wf(m: Machine, random: u8)
    requires
        m.wf(),
    ensures
        m.step(random).machine.wf(),
{
    match m.fetch() {
        None => {},
        Some(word) => {
            let next = Machine { pc: m.pc + 2, ..m };
            match decoded(word) {
                Ok(instr) => {
                    crate::instruction::lemma_decoded_valid(word);
                    lemma_execute_preserves_wf(next, instr, random);
                },
                Err(_) => {},
            }
        },
    }
}

/// However many steps a well-formed machine takes, it stays well formed.
pub proof fn lemma_run_preserves_wf(m: Machine, randoms: Seq<u8>)
    requires
        m.wf(),
    ensures
        run(m, randoms).wf(),
    decreases randoms.len(),
{
    if randoms.len() > 0 {
        lemma_step_preserves_wf(m, randoms[0]);
        lemma_run_preserves_wf(m.step(randoms[0]).machine, randoms.drop_first());
    }
}

} // verus!
