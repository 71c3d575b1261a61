//! What each instruction does, stated over the two bytes at the program
//! counter and the machine's registers, memory and screen: for an opcode
//! with bytes `hi`, `lo`, the family is `hi / 16`, X is `hi % 16`, Y is
//! `lo / 16`, N is `lo % 16`, NN is `lo` and NNN is `(hi % 16) * 256 + lo`.
use vstd::prelude::*;
use crate::draw::lemma_offset;
use crate::bits::{lemma_flip_pixel, lemma_mask};
use crate::model::{
    beeps, cycle_defined, fetch, hit, is_known, pixel_index, op_group, op_n, op_nn, op_nnn, op_x, op_y, sprite_px, step,
    Machine, KEY_COUNT, MEMORY_SIZE, REGISTER_COUNT, SCREEN_SIZE, STACK_DEPTH,
};

verus! {

/// The opcode at the program counter, taken apart through its two bytes.
proof fn lemma_fetch_fields(m: Machine)
    requires
        m.wf(),
        m.pc + 1 < MEMORY_SIZE,
    ensures
        ({
            let hi = m.memory[m.pc as int] as int;
            let lo = m.memory[m.pc as int + 1] as int;
            &&& fetch(m) == hi * 256 + lo
            &&& op_group(fetch(m)) == hi / 16
            &&& op_x(fetch(m)) == hi % 16
            &&& op_y(fetch(m)) == lo / 16
            &&& op_n(fetch(m)) == lo % 16
            &&& op_nn(fetch(m)) == lo
            &&& op_nnn(fetch(m)) == (hi % 16) * 256 + lo
        }),
{
    let hi = m.memory[m.pc as int] as int;
    let lo = m.memory[m.pc as int + 1] as int;
    let op = hi * 256 + lo;
    assert(0 <= op < 0x10000);
    assert(fetch(m) == op);
    vstd::arithmetic::div_mod::lemma_fundamental_div_mod(hi, 16);
    vstd::arithmetic::div_mod::lemma_fundamental_div_mod(lo, 16);
    vstd::arithmetic::div_mod::lemma_fundamental_div_mod_converse(
        op,
        0x1000,
        hi / 16,
        (hi % 16) * 256 + lo,
    );
    vstd::arithmetic::div_mod::lemma_fundamental_div_mod_converse(op, 0x100, hi, lo);
    vstd::arithmetic::div_mod::lemma_fundamental_div_mod_converse(hi, 0x10, hi / 16, hi % 16);
    vstd::arithmetic::div_mod::lemma_fundamental_div_mod_converse(
        op,
        0x10,
        hi * 16 + lo / 16,
        lo % 16,
    );
    vstd::arithmetic::div_mod::lemma_fundamental_div_mod_converse(
        hi * 16 + lo / 16,
        0x10,
        hi,
        lo / 16,
    );
}

/// 00E0 (and every 0NN0): the screen goes dark, a redraw is requested, and
/// execution goes on with the next instruction.
pub proof fn law_clear_screen(m: Machine, r: u8)
    requires
        m.wf(),
        cycle_defined(m),
        m.memory[m.pc as int] / 16 == 0,
        m.memory[m.pc as int + 1] % 16 == 0,
    ensures
        forall|p: int| 0 <= p < SCREEN_SIZE ==> #[trigger] step(m, r).gfx[p] == 0,
        step(m, r).draw_flag,
        step(m, r).pc == m.pc + 2,
        step(m, r).v == m.v,
        step(m, r).memory == m.memory,
{
    lemma_fetch_fields(m);
}

/// 00EE (and every 0NNE): the return address on top of the stack is popped,
/// and execution goes on after the call that pushed it.
pub proof fn law_return(m: Machine, r: u8)
    requires
        m.wf(),
        cycle_defined(m),
        m.memory[m.pc as int] / 16 == 0,
        m.memory[m.pc as int + 1] % 16 == 0xE,
    ensures
        m.sp >= 1,
        step(m, r).sp == m.sp - 1,
        step(m, r).pc == m.stack[m.sp - 1] + 2,
        step(m, r).stack == m.stack,
        step(m, r).v == m.v,
{
    lemma_fetch_fields(m);
}

/// 1NNN jumps to NNN; 2NNN pushes the address of the call and jumps to NNN;
/// BNNN jumps to NNN plus V0.
pub proof fn law_jumps(m: Machine, r: u8)
    requires
        m.wf(),
        cycle_defined(m),
        m.memory[m.pc as int] / 16 == 1 || m.memory[m.pc as int] / 16 == 2 || m.memory[m.pc as int]
            / 16 == 0xB,
    ensures
        ({
            let hi = m.memory[m.pc as int];
            let lo = m.memory[m.pc as int + 1];
            let nnn = (hi % 16) * 256 + lo;
            let s = step(m, r);
            &&& hi / 16 == 1 ==> s.pc == nnn && s.sp == m.sp && s.stack == m.stack
            &&& hi / 16 == 2 ==> {
                &&& s.pc == nnn
                &&& s.sp == m.sp + 1
                &&& s.stack[m.sp as int] == m.pc
                &&& forall|k: int| 0 <= k < STACK_DEPTH && k != m.sp ==> #[trigger] s.stack[k] == m.stack[k]
            }
            &&& hi / 16 == 0xB ==> s.pc == nnn + m.v[0] && s.sp == m.sp
            &&& s.v == m.v
        }),
{
    lemma_fetch_fields(m);
}

/// 3XNN, 4XNN, 5XY0, 9XY0, EX9E and EXA1 skip the next instruction (the
/// program counter moves by 4) exactly when their condition holds, and else
/// go on with the next one (it moves by 2): VX equal to NN, VX not equal to
/// NN, VX equal to VY, VX not equal to VY, the key VX pressed, the key VX
/// not in state 1.  Nothing else but the timers changes.
pub proof fn law_skips(m: Machine, r: u8)
    requires
        m.wf(),
        cycle_defined(m),
        ({
            let hi = m.memory[m.pc as int];
            let lo = m.memory[m.pc as int + 1];
            ||| hi / 16 == 3 || hi / 16 == 4 || hi / 16 == 5 || hi / 16 == 9
            ||| hi / 16 == 0xE && (lo == 0x9E || lo == 0xA1)
        }),
    ensures
        ({
            let hi = m.memory[m.pc as int];
            let lo = m.memory[m.pc as int + 1];
            let vx = m.v[(hi % 16) as int];
            let vy = m.v[(lo / 16) as int];
            let skip = if hi / 16 == 3 {
                vx == lo
            } else if hi / 16 == 4 {
                vx != lo
            } else if hi / 16 == 5 {
                vx == vy
            } else if hi / 16 == 9 {
                vx != vy
            } else if lo == 0x9E {
                m.key[vx as int] != 0
            } else {
                m.key[vx as int] != 1
            };
            let s = step(m, r);
            &&& s.pc == m.pc + if skip { 4int } else { 2int }
            &&& s.v == m.v
            &&& s.i == m.i
            &&& s.memory == m.memory
            &&& s.gfx == m.gfx
            &&& s.sp == m.sp
        }),
{
    lemma_fetch_fields(m);
}

/// Where sprite pixel (`row`, `col`) lands when the sprite is drawn at
/// (`x`, `y`) on the 64 pixels wide screen.
pub open spec fn screen_pos(x: int, y: int, row: int, col: int) -> int {
    x + col + (y + row) * 64
}

/// Whether bit `col` (0 = the most significant) of `byte` is set.
pub open spec fn bit_set(byte: u8, col: int) -> bool {
    byte & (0x80u8 >> (col as u8)) != 0
}

/// DXYN draws the N rows high sprite at I, at (VX, VY): each set sprite pixel
/// flips the screen pixel under it, no other screen pixel changes, and VF
/// ends as 1 exactly when some pixel that was on went off, and as 0
/// otherwise, whatever it held before.  The other registers keep their
/// values, a redraw is requested and execution goes on with the next
/// instruction.
pub proof fn law_draw(m: Machine, r: u8)
    requires
        m.wf(),
        cycle_defined(m),
        m.memory[m.pc as int] / 16 == 0xD,
    ensures
        ({
            let hi = m.memory[m.pc as int];
            let lo = m.memory[m.pc as int + 1];
            let x = m.v[(hi % 16) as int] as int;
            let y = m.v[(lo / 16) as int] as int;
            let n = (lo % 16) as int;
            let s = step(m, r);
            &&& forall|row: int, col: int|
                0 <= row < n && 0 <= col < 8 && bit_set(m.memory[m.i + row], col) ==> {
                    &&& 0 <= #[trigger] screen_pos(x, y, row, col) < SCREEN_SIZE
                    &&& s.gfx[screen_pos(x, y, row, col)] == m.gfx[screen_pos(x, y, row, col)]
                        ^ 1u8
                }
            &&& forall|p: int|
                0 <= p < SCREEN_SIZE && #[trigger] s.gfx[p] != m.gfx[p] ==> exists|row: int, col: int|
                    0 <= row < n && 0 <= col < 8 && bit_set(m.memory[m.i + row], col) && p
                        == #[trigger] screen_pos(x, y, row, col)
            &&& s.v[15] == if exists|p: int|
                0 <= p < SCREEN_SIZE && m.gfx[p] == 1 && #[trigger] s.gfx[p] == 0 {
                1u8
            } else {
                0u8
            }
            &&& forall|k: int| 0 <= k < 15 ==> #[trigger] s.v[k] == m.v[k]
            &&& s.draw_flag
            &&& s.pc == m.pc + 2
            &&& s.memory == m.memory
            &&& s.i == m.i
        }),
{
    lemma_fetch_fields(m);
    let hi = m.memory[m.pc as int];
    let lo = m.memory[m.pc as int + 1];
    let x = m.v[(hi % 16) as int] as int;
    let y = m.v[(lo / 16) as int] as int;
    let n = (lo % 16) as int;
    let i = m.i as int;
    let s = step(m, r);
    assert forall|row: int, col: int|
        0 <= row < n && 0 <= col < 8 && bit_set(m.memory[m.i + row], col) implies {
        &&& 0 <= #[trigger] screen_pos(x, y, row, col) < SCREEN_SIZE
        &&& s.gfx[screen_pos(x, y, row, col)] == m.gfx[screen_pos(x, y, row, col)] ^ 1u8
    } by {
        assert(sprite_px(m.memory, i, row, col));
        lemma_offset(row, col);
        let p = screen_pos(x, y, row, col);
        assert(p - x - 64 * y == col + 64 * row);
        assert(hit(m.memory, i, x, y, n, p));
    }
    assert forall|p: int| 0 <= p < SCREEN_SIZE && #[trigger] s.gfx[p] != m.gfx[p] implies exists|
        row: int,
        col: int,
    |
        0 <= row < n && 0 <= col < 8 && bit_set(m.memory[m.i + row], col) && p
            == #[trigger] screen_pos(x, y, row, col) by {
        assert(hit(m.memory, i, x, y, n, p));
        let d = p - x - 64 * y;
        vstd::arithmetic::div_mod::lemma_fundamental_div_mod(d, 64);
        assert(p == screen_pos(x, y, d / 64, d % 64));
    }
    let went_off = exists|p: int| 0 <= p < SCREEN_SIZE && m.gfx[p] == 1 && #[trigger] s.gfx[p] == 0;
    if went_off {
        let p = choose|p: int| 0 <= p < SCREEN_SIZE && m.gfx[p] == 1 && #[trigger] s.gfx[p] == 0;
        assert(hit(m.memory, i, x, y, n, p));
    }
    if s.v[15] == 1 {
        let p = choose|p: int|
            0 <= p < m.gfx.len() && #[trigger] hit(m.memory, i, x, y, n, p) && m.gfx[p] == 1;
        assert(1u8 ^ 1u8 == 0u8) by (bit_vector);
        assert(s.gfx[p] == 0);
    }
}

/// 6XNN sets VX to NN; 7XNN adds NN to VX modulo 256 and leaves VF alone.
/// No other register changes, and execution goes on with the next
/// instruction.
pub proof fn law_set_and_add(m: Machine, r: u8)
    requires
        m.wf(),
        cycle_defined(m),
        m.memory[m.pc as int] / 16 == 6 || m.memory[m.pc as int] / 16 == 7,
    ensures
        ({
            let hi = m.memory[m.pc as int];
            let lo = m.memory[m.pc as int + 1];
            let x = (hi % 16) as int;
            let s = step(m, r);
            &&& hi / 16 == 6 ==> s.v[x] == lo
            &&& hi / 16 == 7 ==> s.v[x] == (m.v[x] + lo) % 256
            &&& forall|k: int| 0 <= k < REGISTER_COUNT && k != x ==> #[trigger] s.v[k] == m.v[k]
            &&& s.pc == m.pc + 2
            &&& s.i == m.i
        }),
{
    lemma_fetch_fields(m);
}

/// 8XYN.  With VX and VY the registers before the instruction:
/// 8XY0 copies VY into VX; 8XY1, 8XY2 and 8XY3 set VX to VX or, and, xor VY;
/// 8XY4 sets VF to the carry out of VX + VY and (for X other than F) VX to
/// the sum modulo 256; 8XY6 and 8XYE set VF to the bit shifted out of VX and
/// (for X other than F) VX to VX halved or doubled modulo 256; 8XY5 and 8XY7
/// set VF to 1 exactly when VX >= VY, respectively VY >= VX, and (for X and
/// Y other than F) VX to VX - VY, respectively VY - VX, modulo 256.  The
/// registers other than VX and VF keep their values.
pub proof fn law_alu(m: Machine, r: u8)
    requires
        m.wf(),
        cycle_defined(m),
        m.memory[m.pc as int] / 16 == 8,
    ensures
        ({
            let hi = m.memory[m.pc as int];
            let lo = m.memory[m.pc as int + 1];
            let x = (hi % 16) as int;
            let y = (lo / 16) as int;
            let n = lo % 16;
            let vx = m.v[x];
            let vy = m.v[y];
            let s = step(m, r);
            &&& n == 0 ==> s.v[x] == vy
            &&& n == 1 ==> s.v[x] == vx | vy
            &&& n == 2 ==> s.v[x] == vx & vy
            &&& n == 3 ==> s.v[x] == vx ^ vy
            &&& n == 4 ==> s.v[15] == (if vx + vy > 255 { 1u8 } else { 0u8 }) && (x != 15 ==> s.v[x]
                == (vx + vy) % 256)
            &&& n == 5 ==> (x != 15 ==> s.v[15] == (if vx >= vy { 1u8 } else { 0u8 })) && (x != 15
                && y != 15 ==> s.v[x] == (vx - vy) % 256)
            &&& n == 7 ==> (x != 15 ==> s.v[15] == (if vy >= vx { 1u8 } else { 0u8 })) && (x != 15
                && y != 15 ==> s.v[x] == (vy - vx) % 256)
            &&& n == 6 ==> s.v[15] == vx % 2 && (x != 15 ==> s.v[x] == vx / 2)
            &&& n == 0xE ==> s.v[15] == vx / 128 && (x != 15 ==> s.v[x] == (vx * 2) % 256)
            &&& forall|k: int|
                0 <= k < 15 && k != x ==> #[trigger] s.v[k] == m.v[k]
            &&& (n <= 3 && x != 15) ==> s.v[15] == m.v[15]
            &&& (n <= 7 || n == 0xE) ==> s.pc == m.pc + 2
        }),
{
    lemma_fetch_fields(m);
}

/// ANNN sets I to NNN; FX1E adds VX to I modulo 0x10000; FX29 sets I to
/// 5 * VX modulo 256, the address of the font glyph of VX for VX below 16.
pub proof fn law_index(m: Machine, r: u8)
    requires
        m.wf(),
        cycle_defined(m),
        ({
            let hi = m.memory[m.pc as int];
            let lo = m.memory[m.pc as int + 1];
            hi / 16 == 0xA || (hi / 16 == 0xF && (lo == 0x1E || lo == 0x29))
        }),
    ensures
        ({
            let hi = m.memory[m.pc as int];
            let lo = m.memory[m.pc as int + 1];
            let vx = m.v[(hi % 16) as int];
            let s = step(m, r);
            &&& hi / 16 == 0xA ==> s.i == (hi % 16) * 256 + lo
            &&& hi / 16 == 0xF && lo == 0x1E ==> s.i == (m.i + vx) % 0x10000
            &&& hi / 16 == 0xF && lo == 0x29 ==> s.i == (vx * 5) % 256
            &&& vx < 16 && hi / 16 == 0xF && lo == 0x29 ==> s.i == vx * 5
            &&& s.v == m.v
            &&& s.memory == m.memory
            &&& s.pc == m.pc + 2
        }),
{
    lemma_fetch_fields(m);
}

/// FX07 copies the delay timer (as it was before the cycle) into VX; FX15
/// and FX18 set the delay or sound timer to VX, which then ticks once in the
/// same cycle, and FX18 sounds the buzzer exactly when VX is 1.
pub proof fn law_timers(m: Machine, r: u8)
    requires
        m.wf(),
        cycle_defined(m),
        ({
            let hi = m.memory[m.pc as int];
            let lo = m.memory[m.pc as int + 1];
            hi / 16 == 0xF && (lo == 0x07 || lo == 0x15 || lo == 0x18)
        }),
    ensures
        ({
            let hi = m.memory[m.pc as int];
            let lo = m.memory[m.pc as int + 1];
            let x = (hi % 16) as int;
            let vx = m.v[x];
            let s = step(m, r);
            &&& lo == 0x07 ==> s.v[x] == m.delay_timer && forall|k: int|
                0 <= k < REGISTER_COUNT && k != x ==> #[trigger] s.v[k] == m.v[k]
            &&& lo == 0x15 ==> s.delay_timer == (if vx > 0 { vx - 1 } else { 0 }) && s.v == m.v
            &&& lo == 0x18 ==> s.sound_timer == (if vx > 0 { vx - 1 } else { 0 }) && s.v == m.v
                && beeps(m, r) == (vx == 1)
            &&& s.pc == m.pc + 2
        }),
{
    lemma_fetch_fields(m);
}

/// FX33 writes the decimal digits of VX, hundreds first, at I, I + 1 and
/// I + 2; FX55 copies V0..=VX to memory from I on; FX65 copies memory from I
/// on into V0..=VX.  Nothing else in memory or the registers changes.
pub proof fn law_memory_transfers(m: Machine, r: u8)
    requires
        m.wf(),
        cycle_defined(m),
        ({
            let hi = m.memory[m.pc as int];
            let lo = m.memory[m.pc as int + 1];
            hi / 16 == 0xF && (lo == 0x33 || lo == 0x55 || lo == 0x65)
        }),
    ensures
        ({
            let hi = m.memory[m.pc as int];
            let lo = m.memory[m.pc as int + 1];
            let x = (hi % 16) as int;
            let vx = m.v[x];
            let i = m.i as int;
            let s = step(m, r);
            &&& lo == 0x33 ==> {
                &&& s.memory[i] < 10 && s.memory[i + 1] < 10 && s.memory[i + 2] < 10
                &&& s.memory[i] * 100 + s.memory[i + 1] * 10 + s.memory[i + 2] == vx
                &&& forall|a: int|
                    0 <= a < MEMORY_SIZE && !(i <= a <= i + 2) ==> #[trigger] s.memory[a]
                        == m.memory[a]
                &&& s.v == m.v
            }
            &&& lo == 0x55 ==> {
                &&& forall|k: int| 0 <= k <= x ==> #[trigger] s.memory[i + k] == m.v[k]
                &&& forall|a: int|
                    0 <= a < MEMORY_SIZE && !(i <= a <= i + x) ==> #[trigger] s.memory[a]
                        == m.memory[a]
                &&& s.v == m.v
            }
            &&& lo == 0x65 ==> {
                &&& forall|k: int| 0 <= k <= x ==> #[trigger] s.v[k] == m.memory[i + k]
                &&& forall|k: int| x < k < REGISTER_COUNT ==> #[trigger] s.v[k] == m.v[k]
                &&& s.memory == m.memory
            }
            &&& s.i == m.i
            &&& s.pc == m.pc + 2
        }),
{
    lemma_fetch_fields(m);
    let v = m.v[(m.memory[m.pc as int] % 16) as int];
    assert((v / 100) * 100 + ((v / 10) % 10) * 10 + (v % 100) % 10 == v) by (bit_vector);
    assert(v / 100 < 10) by (bit_vector);
}

/// CXNN sets VX to the random byte masked by NN; no other register changes.
pub proof fn law_random(m: Machine, r: u8)
    requires
        m.wf(),
        cycle_defined(m),
        m.memory[m.pc as int] / 16 == 0xC,
    ensures
        ({
            let hi = m.memory[m.pc as int];
            let lo = m.memory[m.pc as int + 1];
            let x = (hi % 16) as int;
            let s = step(m, r);
            &&& s.v[x] == r & lo
            &&& s.v[x] & !lo == 0
            &&& forall|k: int| 0 <= k < REGISTER_COUNT && k != x ==> #[trigger] s.v[k] == m.v[k]
            &&& s.pc == m.pc + 2
        }),
{
    lemma_fetch_fields(m);
    lemma_mask(r, m.memory[m.pc as int + 1]);
}

/// FX0A: when some key is pressed, VX takes the highest pressed key and
/// execution goes on with the next instruction; when none is, the program
/// counter and the timers stay, so the instruction runs again.
pub proof fn law_wait_for_key(m: Machine, r: u8)
    requires
        m.wf(),
        cycle_defined(m),
        m.memory[m.pc as int] / 16 == 0xF,
        m.memory[m.pc as int + 1] == 0x0A,
    ensures
        ({
            let x = (m.memory[m.pc as int] % 16) as int;
            let s = step(m, r);
            let pressed = exists|k: int| 0 <= k < KEY_COUNT && #[trigger] m.key[k] != 0;
            &&& pressed ==> {
                &&& s.v[x] < KEY_COUNT
                &&& m.key[s.v[x] as int] != 0
                &&& forall|k: int| s.v[x] < k < KEY_COUNT ==> #[trigger] m.key[k] == 0
                &&& s.pc == m.pc + 2
            }
            &&& !pressed ==> s.pc == m.pc && s.v == m.v && s.delay_timer == m.delay_timer
                && s.sound_timer == m.sound_timer
        }),
{
    lemma_fetch_fields(m);
    lemma_last_pressed(m.key, KEY_COUNT as int);
}

/// The highest pressed key below `n`, or -1 exactly when none is pressed.
proof fn lemma_last_pressed(key: Seq<u8>, n: int)
    requires
        0 <= n <= key.len(),
    ensures
        ({
            let k = crate::model::last_pressed_below(key, n);
            &&& -1 <= k < n
            &&& k >= 0 ==> key[k] != 0
            &&& forall|j: int| k < j < n ==> #[trigger] key[j] == 0
            &&& (k == -1) == (forall|j: int| 0 <= j < n ==> #[trigger] key[j] == 0)
        }),
    decreases n,
{
    if n > 0 {
        lemma_last_pressed(key, n - 1);
    }
}

/// A cycle is defined exactly when the original runs it without a panic:
/// both opcode bytes lie in memory, a return finds the stack not empty, a
/// call finds it not full, every set pixel of a sprite lands on the screen
/// and its rows lie in memory, EX9E and EXA1 name one of the sixteen keys,
/// and FX33, FX55 and FX65 stay in memory.
pub proof fn law_defined(m: Machine)
    requires
        m.wf(),
    ensures
        cycle_defined(m) <==> m.pc + 1 < MEMORY_SIZE && ({
            let hi = m.memory[m.pc as int];
            let lo = m.memory[m.pc as int + 1];
            let g = hi / 16;
            let x = (hi % 16) as int;
            let i = m.i as int;
            if g == 0 && lo % 16 == 0xE {
                m.sp >= 1
            } else if g == 2 {
                m.sp < STACK_DEPTH
            } else if g == 0xD {
                let n = (lo % 16) as int;
                &&& n > 0 ==> i + n <= MEMORY_SIZE
                &&& forall|row: int, col: int|
                    0 <= row < n && 0 <= col < 8 && bit_set(m.memory[i + row], col) ==> #[trigger] screen_pos(
                        m.v[x] as int,
                        m.v[(lo / 16) as int] as int,
                        row,
                        col,
                    ) < SCREEN_SIZE
            } else if g == 0xE && (lo == 0x9E || lo == 0xA1) {
                m.v[x] < KEY_COUNT
            } else if g == 0xF && lo == 0x33 {
                i + 2 < MEMORY_SIZE
            } else if g == 0xF && (lo == 0x55 || lo == 0x65) {
                i + x < MEMORY_SIZE
            } else {
                true
            }
        }),
{
    if m.pc + 1 < MEMORY_SIZE {
        lemma_fetch_fields(m);
        let hi = m.memory[m.pc as int];
        let lo = m.memory[m.pc as int + 1];
        let x = m.v[(hi % 16) as int] as int;
        let y = m.v[(lo / 16) as int] as int;
        let i = m.i as int;
        let n = (lo % 16) as int;
        assert forall|row: int, col: int| #![all_triggers]
            sprite_px(m.memory, i, row, col) == bit_set(m.memory[i + row], col) && pixel_index(
                x,
                y,
                row,
                col,
            ) == screen_pos(x, y, row, col) by {}
    }
}

/// Which opcodes the emulator implements: every 1NNN to DXYN, 00E0 and 00EE
/// (every 0NN0 and 0NNE), 8XY0 to 8XY7 and 8XYE, EX9E and EXA1, and FX07,
/// FX0A, FX15, FX18, FX1E, FX29, FX33, FX55, FX65.  Any other opcode is
/// reported as unknown, and its cycle changes nothing but the opcode
/// register and the timers.
pub proof fn law_unknown(m: Machine, r: u8)
    requires
        m.wf(),
        cycle_defined(m),
    ensures
        ({
            let hi = m.memory[m.pc as int];
            let lo = m.memory[m.pc as int + 1];
            let g = hi / 16;
            let known = if g == 0 {
                lo % 16 == 0 || lo % 16 == 0xE
            } else if g == 8 {
                lo % 16 <= 7 || lo % 16 == 0xE
            } else if g == 0xE {
                lo == 0x9E || lo == 0xA1
            } else if g == 0xF {
                lo == 0x07 || lo == 0x0A || lo == 0x15 || lo == 0x18 || lo == 0x1E || lo == 0x29
                    || lo == 0x33 || lo == 0x55 || lo == 0x65
            } else {
                true
            };
            let s = step(m, r);
            &&& is_known(fetch(m)) == known
            &&& s.opcode == hi * 256 + lo
            &&& !known ==> {
                &&& s.pc == m.pc
                &&& s.v == m.v
                &&& s.i == m.i
                &&& s.memory == m.memory
                &&& s.gfx == m.gfx
                &&& s.stack == m.stack
                &&& s.sp == m.sp
                &&& s.draw_flag == m.draw_flag
            }
        }),
{
    lemma_fetch_fields(m);
}

/// Unless the instruction sets the sound timer (FX18) or waits for a key, a
/// cycle sounds the buzzer exactly when the sound timer stood at 1.
pub proof fn law_beep(m: Machine, r: u8)
    requires
        m.wf(),
        cycle_defined(m),
        ({
            let hi = m.memory[m.pc as int];
            let lo = m.memory[m.pc as int + 1];
            !(hi / 16 == 0xF && (lo == 0x18 || lo == 0x0A))
        }),
    ensures
        beeps(m, r) == (m.sound_timer == 1),
{
    lemma_fetch_fields(m);
}

} // verus!
