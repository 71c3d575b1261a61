//! Laws of the machine: what every cycle keeps, and what pairs of
//! instructions undo or give back.
use vstd::prelude::*;
use crate::bits::{lemma_flip_pixel, lemma_flip_twice, lemma_mask};
use crate::model::{
    beeps, cycle_defined, draw_gfx, execute, fetch, fetched, op_group, op_n, op_nn, op_nnn, op_x,
    op_y, operands_ok, step, waits_for_key, Machine, MEMORY_SIZE, STACK_DEPTH,
};

verus! {

/// Executing any opcode whose operands are in range keeps the machine well
/// formed.
proof fn lemma_execute_preserves_wf(m: Machine, rnd: u8)
    requires
        m.wf(),
        operands_ok(m),
        m.pc + 1 < MEMORY_SIZE,
    ensures
        execute(m, rnd).wf(),
{
    let e = execute(m, rnd);
    if op_group(m.opcode) == 0x2 {
        assert forall|k: int| 0 <= k < STACK_DEPTH implies #[trigger] e.stack[k] < MEMORY_SIZE
            - 1 by {
            if k != m.sp {
                assert(e.stack[k] == m.stack[k]);
            }
        }
    }
}

/// Every cycle keeps the machine well formed: the arrays keep their sizes,
/// the stack pointer stays within the stack, and return addresses stay in
/// memory.
pub proof fn lemma_step_preserves_wf(m: Machine, rnd: u8)
    requires
        m.wf(),
        cycle_defined(m),
    ensures
        step(m, rnd).wf(),
{
    let f = fetched(m);
    assert(f.wf());
    lemma_execute_preserves_wf(f, rnd);
}

/// A screen whose pixels are all off (0) or on (1) stays so through every
/// cycle: clearing turns pixels off and drawing flips them.
pub proof fn lemma_step_keeps_screen_binary(m: Machine, rnd: u8)
    requires
        m.wf(),
        m.screen_binary(),
        cycle_defined(m),
    ensures
        step(m, rnd).screen_binary(),
{
    let f = fetched(m);
    let e = execute(f, rnd);
    if op_group(f.opcode) == 0xD {
        assert forall|p: int| 0 <= p < e.gfx.len() implies #[trigger] e.gfx[p] <= 1 by {
            lemma_flip_pixel(m.gfx[p]);
        }
    }
}

/// Drawing the same sprite twice at the same place gives the screen back:
/// XOR drawing undoes itself.
pub proof fn lemma_draw_twice(gfx: Seq<u8>, mem: Seq<u8>, i: int, x: int, y: int, n: int)
    ensures
        draw_gfx(draw_gfx(gfx, mem, i, x, y, n), mem, i, x, y, n) == gfx,
{
    let once = draw_gfx(gfx, mem, i, x, y, n);
    let twice = draw_gfx(once, mem, i, x, y, n);
    assert forall|p: int| 0 <= p < gfx.len() implies twice[p] == gfx[p] by {
        lemma_flip_twice(gfx[p]);
    }
    assert(twice =~= gfx);
}

/// Two DXYN in a row with the same operands, neither of which is VF, leave
/// the screen as it was before the first.
pub proof fn lemma_redraw_restores_screen(m: Machine, r1: u8, r2: u8)
    requires
        m.wf(),
        cycle_defined(m),
        op_group(fetch(m)) == 0xD,
        op_x(fetch(m)) != 15,
        op_y(fetch(m)) != 15,
        cycle_defined(step(m, r1)),
        fetch(step(m, r1)) == fetch(m),
    ensures
        step(step(m, r1), r2).gfx == m.gfx,
{
    let op = fetch(m);
    let s1 = step(m, r1);
    assert(s1.v[op_x(op)] == m.v[op_x(op)]);
    assert(s1.v[op_y(op)] == m.v[op_y(op)]);
    lemma_draw_twice(
        m.gfx,
        m.memory,
        m.i as int,
        m.v[op_x(op)] as int,
        m.v[op_y(op)] as int,
        op_n(op) as int,
    );
}

/// A call (2NNN) enters the subroutine at NNN, and a return (00EE) right
/// there comes back to the instruction after the call, with the stack
/// pointer as it was before the call.
pub proof fn lemma_call_then_return(m: Machine, r1: u8, r2: u8)
    requires
        m.wf(),
        cycle_defined(m),
        op_group(fetch(m)) == 0x2,
        cycle_defined(step(m, r1)),
        fetch(step(m, r1)) == 0x00EE,
    ensures
        step(m, r1).pc == op_nnn(fetch(m)),
        step(m, r1).sp == m.sp + 1,
        step(step(m, r1), r2).pc == m.pc + 2,
        step(step(m, r1), r2).sp == m.sp,
{
}

/// FX33 stores the decimal digits of VX, hundreds first, at I, I+1 and I+2:
/// each is a digit and together they make VX.
pub proof fn lemma_bcd_digits(m: Machine, r: u8)
    requires
        m.wf(),
        cycle_defined(m),
        op_group(fetch(m)) == 0xF,
        op_nn(fetch(m)) == 0x33,
    ensures
        ({
            let s = step(m, r);
            let i = m.i as int;
            &&& s.memory[i] < 10
            &&& s.memory[i + 1] < 10
            &&& s.memory[i + 2] < 10
            &&& s.memory[i] * 100 + s.memory[i + 1] * 10 + s.memory[i + 2] == m.v[op_x(fetch(m))]
        }),
{
    let v = m.v[op_x(fetch(m))];
    assert((v / 100) * 100 + ((v / 10) % 10) * 10 + (v % 100) % 10 == v) by (bit_vector);
    assert(v / 100 < 10) by (bit_vector);
}

/// FX55 followed by FX65 with the same X gives every register back: what is
/// stored is what is loaded.
pub proof fn lemma_store_then_load(m: Machine, r1: u8, r2: u8)
    requires
        m.wf(),
        cycle_defined(m),
        op_group(fetch(m)) == 0xF,
        op_nn(fetch(m)) == 0x55,
        cycle_defined(step(m, r1)),
        op_group(fetch(step(m, r1))) == 0xF,
        op_nn(fetch(step(m, r1))) == 0x65,
        op_x(fetch(step(m, r1))) == op_x(fetch(m)),
    ensures
        step(step(m, r1), r2).v == m.v,
{
    let s1 = step(m, r1);
    let s2 = step(s1, r2);
    assert(s2.v =~= m.v);
}

/// CXNN sets VX to the random byte masked by NN: no bit outside NN is set.
pub proof fn lemma_random_is_masked(m: Machine, r: u8)
    requires
        m.wf(),
        cycle_defined(m),
        op_group(fetch(m)) == 0xC,
    ensures
        step(m, r).v[op_x(fetch(m))] == r & op_nn(fetch(m)),
        step(m, r).v[op_x(fetch(m))] & !op_nn(fetch(m)) == 0,
        step(m, r).v[op_x(fetch(m))] <= op_nn(fetch(m)),
{
    lemma_mask(r, op_nn(fetch(m)));
}

/// Only CXNN depends on the random byte: every other opcode moves the machine
/// the same way whatever byte is given.
pub proof fn lemma_only_cxnn_is_random(m: Machine, r1: u8, r2: u8)
    requires
        op_group(fetch(m)) != 0xC,
    ensures
        step(m, r1) == step(m, r2),
        beeps(m, r1) == beeps(m, r2),
{
}

/// 8XY4 with X other than F: VF is the carry out of the 8-bit sum of the
/// old VX and VY, so that VF * 256 + VX is the true sum.
pub proof fn lemma_add_carry(m: Machine, r: u8)
    requires
        m.wf(),
        cycle_defined(m),
        op_group(fetch(m)) == 0x8,
        op_n(fetch(m)) == 4,
        op_x(fetch(m)) != 15,
    ensures
        ({
            let s = step(m, r);
            let x = op_x(fetch(m));
            let y = op_y(fetch(m));
            &&& s.v[15] <= 1
            &&& s.v[15] * 256 + s.v[x] == m.v[x] + m.v[y]
        }),
{
}

/// 8XY6 and 8XYE: VF ends with the bit shifted out of VX, whatever X is,
/// and for an X other than F, VX is the old VX halved or doubled modulo 256.
pub proof fn lemma_shift_out_bit(m: Machine, r: u8)
    requires
        m.wf(),
        cycle_defined(m),
        op_group(fetch(m)) == 0x8,
        op_n(fetch(m)) == 6 || op_n(fetch(m)) == 0xE,
    ensures
        ({
            let s = step(m, r);
            let x = op_x(fetch(m));
            let vx = m.v[x];
            &&& op_n(fetch(m)) == 6 ==> s.v[15] == vx % 2 && (x != 15 ==> s.v[x] == vx / 2)
            &&& op_n(fetch(m)) == 0xE ==> s.v[15] == vx / 128 && (x != 15 ==> s.v[x] == (vx * 2)
                % 256)
        }),
{
}

/// 8XY5 and 8XY7 with X and Y other than F: VF is 1 exactly when the
/// subtraction does not borrow, and VX is the difference modulo 256.
pub proof fn lemma_sub_borrow(m: Machine, r: u8)
    requires
        m.wf(),
        cycle_defined(m),
        op_group(fetch(m)) == 0x8,
        op_n(fetch(m)) == 5 || op_n(fetch(m)) == 7,
        op_x(fetch(m)) != 15,
        op_y(fetch(m)) != 15,
    ensures
        ({
            let s = step(m, r);
            let x = op_x(fetch(m));
            let y = op_y(fetch(m));
            let (a, b) = if op_n(fetch(m)) == 5 { (m.v[x], m.v[y]) } else { (m.v[y], m.v[x]) };
            &&& s.v[15] == (if a >= b { 1u8 } else { 0u8 })
            &&& s.v[x] + b == a + 256 * (1 - s.v[15])
        }),
{
}

/// Unless the machine waits for a key, each cycle counts both timers down
/// by one while they are above zero; only FX15 and FX18 set them.
pub proof fn lemma_timers_count_down(m: Machine, r: u8)
    requires
        m.wf(),
        cycle_defined(m),
        !waits_for_key(fetched(m)),
        !(op_group(fetch(m)) == 0xF && (op_nn(fetch(m)) == 0x15 || op_nn(fetch(m)) == 0x18)),
    ensures
        step(m, r).delay_timer == if m.delay_timer > 0 { m.delay_timer - 1 } else { 0 },
        step(m, r).sound_timer == if m.sound_timer > 0 { m.sound_timer - 1 } else { 0 },
{
}

/// While FX0A finds no key pressed, a cycle changes nothing but the opcode
/// register: the program counter and the timers stand still.
pub proof fn lemma_waiting_stands_still(m: Machine, r: u8)
    requires
        waits_for_key(fetched(m)),
    ensures
        step(m, r) == (Machine { opcode: fetch(m), ..m }),
{
}

} // verus!
