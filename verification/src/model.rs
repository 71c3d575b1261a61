//! The mathematical model of the CHIP-8 machine: its state as sequences and
//! fixed-width registers, how an opcode is decoded, and what one cycle does.
use vstd::prelude::*;

verus! {

/// Bytes of main memory.
pub const MEMORY_SIZE: usize = 4096;

/// Pixels of the 64 x 32 screen.
pub const SCREEN_SIZE: usize = 2048;

/// Address at which a program is loaded and execution starts.
pub const PROGRAM_START: u16 = 0x200;

/// Number of general purpose registers V0..VF.
pub const REGISTER_COUNT: usize = 16;

/// Depth of the call stack.
pub const STACK_DEPTH: usize = 16;

/// Number of keys on the hexadecimal keypad.
pub const KEY_COUNT: usize = 16;

/// The whole state of a CHIP-8 machine, as the contracts see it.
#[verifier::ext_equal]
pub struct Machine {
    pub opcode: u16,
    pub memory: Seq<u8>,
    pub v: Seq<u8>,
    pub i: u16,
    pub pc: u16,
    pub gfx: Seq<u8>,
    pub key: Seq<u8>,
    pub delay_timer: u8,
    pub sound_timer: u8,
    pub stack: Seq<u16>,
    pub sp: u16,
    pub draw_flag: bool,
}

/// The sixteen hexadecimal digit glyphs, five bytes each, stored from address 0.
pub open spec fn fontset() -> Seq<u8> {
    seq![
        0xF0u8, 0x90, 0x90, 0x90, 0xF0, // 0
        0x20, 0x60, 0x20, 0x20, 0x70, // 1
        0xF0, 0x10, 0xF0, 0x80, 0xF0, // 2
        0xF0, 0x10, 0xF0, 0x10, 0xF0, // 3
        0x90, 0x90, 0xF0, 0x10, 0x10, // 4
        0xF0, 0x80, 0xF0, 0x10, 0xF0, // 5
        0xF0, 0x80, 0xF0, 0x90, 0xF0, // 6
        0xF0, 0x10, 0x20, 0x40, 0x40, // 7
        0xF0, 0x90, 0xF0, 0x90, 0xF0, // 8
        0xF0, 0x90, 0xF0, 0x10, 0xF0, // 9
        0xF0, 0x90, 0xF0, 0x90, 0x90, // A
        0xE0, 0x90, 0xE0, 0x90, 0xE0, // B
        0xF0, 0x80, 0x80, 0x80, 0xF0, // C
        0xE0, 0x90, 0x90, 0x90, 0xE0, // D
        0xF0, 0x80, 0xF0, 0x80, 0xF0, // E
        0xF0, 0x80, 0xF0, 0x80, 0x80, // F
    ]
}

/// The state right after power-on: the font at address 0, everything else
/// zero, the program counter at the program start and a redraw requested.
pub open spec fn power_on() -> Machine {
    Machine {
        opcode: 0,
        memory: Seq::new(MEMORY_SIZE as nat, |a: int| if a < 80 { fontset()[a] } else { 0u8 }),
        v: Seq::new(REGISTER_COUNT as nat, |r: int| 0u8),
        i: 0,
        pc: PROGRAM_START,
        gfx: Seq::new(SCREEN_SIZE as nat, |p: int| 0u8),
        key: Seq::new(KEY_COUNT as nat, |k: int| 0u8),
        delay_timer: 0,
        sound_timer: 0,
        stack: Seq::new(STACK_DEPTH as nat, |k: int| 0u16),
        sp: 0,
        draw_flag: true,
    }
}

impl Machine {
    /// The shape of every reachable state: the sizes of the arrays, a stack
    /// pointer within the stack, and return addresses from which an
    /// instruction can be fetched.
    pub open spec fn wf(self) -> bool {
        &&& self.memory.len() == MEMORY_SIZE
        &&& self.v.len() == REGISTER_COUNT
        &&& self.gfx.len() == SCREEN_SIZE
        &&& self.key.len() == KEY_COUNT
        &&& self.stack.len() == STACK_DEPTH
        &&& self.sp <= STACK_DEPTH
        &&& forall|k: int| 0 <= k < STACK_DEPTH ==> #[trigger] self.stack[k] < MEMORY_SIZE - 1
    }

    /// Every pixel is either off (0) or on (1).
    pub open spec fn screen_binary(self) -> bool {
        forall|p: int| 0 <= p < self.gfx.len() ==> #[trigger] self.gfx[p] <= 1
    }
}

// ---------------------------------------------------------------------------
// Decoding
// ---------------------------------------------------------------------------

/// The two bytes at the program counter, big endian.
pub open spec fn fetch(m: Machine) -> u16 {
    (m.memory[m.pc as int] as int * 256 + m.memory[m.pc as int + 1] as int) as u16
}

/// The highest nibble, which selects the instruction family.
pub open spec fn op_group(op: u16) -> u16 {
    op / 0x1000
}

/// The register named by the second nibble.
pub open spec fn op_x(op: u16) -> int {
    ((op / 0x100) % 0x10) as int
}

/// The register named by the third nibble.
pub open spec fn op_y(op: u16) -> int {
    ((op / 0x10) % 0x10) as int
}

/// The lowest nibble.
pub open spec fn op_n(op: u16) -> u16 {
    op % 0x10
}

/// The lowest byte.
pub open spec fn op_nn(op: u16) -> u8 {
    (op % 0x100) as u8
}

/// The lowest twelve bits: an address.
pub open spec fn op_nnn(op: u16) -> u16 {
    op % 0x1000
}

/// Whether the emulator implements the opcode.  Families 0, 8, E and F are
/// refined by their low bits; unknown members do nothing but tick the timers.
pub open spec fn is_known(op: u16) -> bool {
    let g = op_group(op);
    let n = op_n(op);
    let nn = op_nn(op);
    if g == 0 {
        n == 0x0 || n == 0xE
    } else if g == 8 {
        n <= 7 || n == 0xE
    } else if g == 0xE {
        nn == 0x9E || nn == 0xA1
    } else if g == 0xF {
        nn == 0x07 || nn == 0x0A || nn == 0x15 || nn == 0x18 || nn == 0x1E || nn == 0x29 || nn
            == 0x33 || nn == 0x55 || nn == 0x65
    } else {
        true
    }
}

// ---------------------------------------------------------------------------
// Small state changes
// ---------------------------------------------------------------------------

/// Reduce an integer to a byte, as 8-bit registers wrap.
pub open spec fn wrap8(k: int) -> u8 {
    (k % 256) as u8
}

/// Move the program counter forward by `k` bytes.
pub open spec fn advance(m: Machine, k: int) -> Machine {
    Machine { pc: (m.pc + k) as u16, ..m }
}

/// Skip the next instruction when `cond` holds, else go to the next one.
pub open spec fn skip_if(m: Machine, cond: bool) -> Machine {
    advance(m, if cond { 4 } else { 2 })
}

/// Write register `r`.
pub open spec fn set_reg(m: Machine, r: int, val: u8) -> Machine {
    Machine { v: m.v.update(r, val), ..m }
}

/// Each timer that is above zero counts down by one.
pub open spec fn tick(m: Machine) -> Machine {
    Machine {
        delay_timer: if m.delay_timer > 0 { (m.delay_timer - 1) as u8 } else { 0 },
        sound_timer: if m.sound_timer > 0 { (m.sound_timer - 1) as u8 } else { 0 },
        ..m
    }
}

// ---------------------------------------------------------------------------
// Sprites
// ---------------------------------------------------------------------------

/// Whether column `col` (0 = leftmost) of a sprite row is set.
pub open spec fn sprite_bit(row: u8, col: int) -> bool {
    row & (0x80u8 >> (col as u8)) != 0
}

/// Whether the pixel at (`row`, `col`) of the sprite stored at `i` is set.
pub open spec fn sprite_px(mem: Seq<u8>, i: int, row: int, col: int) -> bool {
    sprite_bit(mem[i + row], col)
}

/// The screen index at which sprite pixel (`row`, `col`) lands when the
/// sprite is drawn at (`x`, `y`): rows follow each other at a stride of 64,
/// and nothing wraps around.
pub open spec fn pixel_index(x: int, y: int, row: int, col: int) -> int {
    x + col + (y + row) * 64
}

/// Whether screen pixel `p` is flipped by drawing the `n` rows high sprite at
/// `i` at (`x`, `y`).  The offset of `p` from the sprite's origin names the
/// sprite pixel (its row is the offset / 64, its column the offset % 64).
pub open spec fn hit(mem: Seq<u8>, i: int, x: int, y: int, n: int, p: int) -> bool {
    let d = p - x - 64 * y;
    &&& 0 <= d
    &&& d % 64 < 8
    &&& d / 64 < n
    &&& sprite_px(mem, i, d / 64, d % 64)
}

/// The screen after drawing the sprite in XOR mode.
pub open spec fn draw_gfx(gfx: Seq<u8>, mem: Seq<u8>, i: int, x: int, y: int, n: int) -> Seq<u8> {
    Seq::new(gfx.len(), |p: int| if hit(mem, i, x, y, n, p) { gfx[p] ^ 1u8 } else { gfx[p] })
}

/// Whether drawing the sprite turns off a pixel that was on.
pub open spec fn collides(gfx: Seq<u8>, mem: Seq<u8>, i: int, x: int, y: int, n: int) -> bool {
    exists|p: int| 0 <= p < gfx.len() && #[trigger] hit(mem, i, x, y, n, p) && gfx[p] == 1
}

/// Whether the sprite can be drawn: its rows lie in memory and each of its
/// set pixels lands on the screen.
pub open spec fn sprite_fits(mem: Seq<u8>, i: int, x: int, y: int, n: int) -> bool {
    &&& n > 0 ==> i + n <= MEMORY_SIZE
    &&& forall|row: int, col: int|
        0 <= row < n && 0 <= col < 8 && #[trigger] sprite_px(mem, i, row, col) ==> pixel_index(
            x,
            y,
            row,
            col,
        ) < SCREEN_SIZE
}

// ---------------------------------------------------------------------------
// Keys
// ---------------------------------------------------------------------------

/// The highest key below `n` that is pressed, or -1 if none is.
pub open spec fn last_pressed_below(key: Seq<u8>, n: int) -> int
    decreases n,
{
    if n <= 0 {
        -1
    } else if key[n - 1] != 0 {
        n - 1
    } else {
        last_pressed_below(key, n - 1)
    }
}

/// The key that FX0A stores: the highest pressed one, or -1 if none is.
pub open spec fn pressed_key(key: Seq<u8>) -> int {
    last_pressed_below(key, KEY_COUNT as int)
}

// ---------------------------------------------------------------------------
// Instruction families
// ---------------------------------------------------------------------------

/// 00E0 (clear the screen) and 00EE (return from a subroutine).
pub open spec fn exec_sys(m: Machine) -> Machine {
    let n = op_n(m.opcode);
    if n == 0 {
        Machine {
            gfx: Seq::new(SCREEN_SIZE as nat, |p: int| 0u8),
            draw_flag: true,
            pc: (m.pc + 2) as u16,
            ..m
        }
    } else if n == 0xE {
        let sp = (m.sp - 1) as u16;
        Machine { sp, pc: (m.stack[sp as int] + 2) as u16, ..m }
    } else {
        m
    }
}

/// 8XYN: register to register arithmetic.  For 8XY4 (add with carry), 8XY6
/// and 8XYE (shift, the bit shifted out going to VF), VX takes the result
/// computed from the old VX and VY, and VF takes the flag last, so that an X
/// of F ends with the flag.  For 8XY5 and 8XY7 (subtract) VF takes the
/// no-borrow flag first, and the subtraction then reads the registers as they
/// are, so that an X or Y of F sees the flag.
pub open spec fn exec_alu(m: Machine) -> Machine {
    let op = m.opcode;
    let x = op_x(op);
    let y = op_y(op);
    let vx = m.v[x];
    let vy = m.v[y];
    let n = op_n(op);
    if n == 0 {
        advance(set_reg(m, x, vy), 2)
    } else if n == 1 {
        advance(set_reg(m, x, vx | vy), 2)
    } else if n == 2 {
        advance(set_reg(m, x, vx & vy), 2)
    } else if n == 3 {
        advance(set_reg(m, x, vx ^ vy), 2)
    } else if n == 4 {
        let r = set_reg(m, x, wrap8(vx + vy));
        advance(set_reg(r, 15, if vx + vy > 255 { 1 } else { 0 }), 2)
    } else if n == 5 {
        let f = set_reg(m, 15, if vy > vx { 0 } else { 1 });
        advance(set_reg(f, x, wrap8(f.v[x] - f.v[y])), 2)
    } else if n == 6 {
        let r = set_reg(m, x, vx / 2);
        advance(set_reg(r, 15, vx % 2), 2)
    } else if n == 7 {
        let f = set_reg(m, 15, if vy < vx { 0 } else { 1 });
        advance(set_reg(f, x, wrap8(f.v[y] - f.v[x])), 2)
    } else if n == 0xE {
        let r = set_reg(m, x, wrap8(vx * 2));
        advance(set_reg(r, 15, vx / 128), 2)
    } else {
        m
    }
}

/// DXYN: draw the sprite at I, N rows high, at (VX, VY); VF tells whether a
/// pixel that was on went off.
pub open spec fn exec_draw(m: Machine) -> Machine {
    let op = m.opcode;
    let x = m.v[op_x(op)] as int;
    let y = m.v[op_y(op)] as int;
    let n = op_n(op) as int;
    let i = m.i as int;
    Machine {
        gfx: draw_gfx(m.gfx, m.memory, i, x, y, n),
        v: m.v.update(15, if collides(m.gfx, m.memory, i, x, y, n) { 1u8 } else { 0u8 }),
        draw_flag: true,
        pc: (m.pc + 2) as u16,
        ..m
    }
}

/// EX9E and EXA1: skip on the state of the key named by VX.
pub open spec fn exec_keys(m: Machine) -> Machine {
    let op = m.opcode;
    let k = m.key[m.v[op_x(op)] as int];
    if op_nn(op) == 0x9E {
        skip_if(m, k != 0)
    } else if op_nn(op) == 0xA1 {
        skip_if(m, k != 1)
    } else {
        m
    }
}

/// FX33: the decimal digits of `val`, hundreds first, at `i`, `i + 1`, `i + 2`.
pub open spec fn store_bcd(mem: Seq<u8>, i: int, val: u8) -> Seq<u8> {
    mem.update(i, val / 100).update(i + 1, (val / 10) % 10).update(i + 2, (val % 100) % 10)
}

/// FX55: registers V0..=VX copied to memory from `i` on.
pub open spec fn store_regs(mem: Seq<u8>, v: Seq<u8>, i: int, x: int) -> Seq<u8> {
    Seq::new(mem.len(), |a: int| if i <= a <= i + x { v[a - i] } else { mem[a] })
}

/// FX65: registers V0..=VX filled from memory from `i` on.
pub open spec fn load_regs(mem: Seq<u8>, v: Seq<u8>, i: int, x: int) -> Seq<u8> {
    Seq::new(v.len(), |r: int| if r <= x { mem[i + r] } else { v[r] })
}

/// FXNN: timers, waiting for a key, the index register and memory transfers.
pub open spec fn exec_misc(m: Machine) -> Machine {
    let op = m.opcode;
    let x = op_x(op);
    let vx = m.v[x];
    let nn = op_nn(op);
    if nn == 0x07 {
        advance(set_reg(m, x, m.delay_timer), 2)
    } else if nn == 0x0A {
        let k = pressed_key(m.key);
        if k >= 0 {
            advance(set_reg(m, x, k as u8), 2)
        } else {
            m
        }
    } else if nn == 0x15 {
        advance(Machine { delay_timer: vx, ..m }, 2)
    } else if nn == 0x18 {
        advance(Machine { sound_timer: vx, ..m }, 2)
    } else if nn == 0x1E {
        advance(Machine { i: ((m.i + vx) % 0x10000) as u16, ..m }, 2)
    } else if nn == 0x29 {
        advance(Machine { i: wrap8(vx * 5) as u16, ..m }, 2)
    } else if nn == 0x33 {
        advance(Machine { memory: store_bcd(m.memory, m.i as int, vx), ..m }, 2)
    } else if nn == 0x55 {
        advance(Machine { memory: store_regs(m.memory, m.v, m.i as int, x), ..m }, 2)
    } else if nn == 0x65 {
        advance(Machine { v: load_regs(m.memory, m.v, m.i as int, x), ..m }, 2)
    } else {
        m
    }
}

/// What the opcode in `m.opcode` does, before the timers tick.  `rnd` is the
/// random byte that CXNN masks.
pub open spec fn execute(m: Machine, rnd: u8) -> Machine {
    let op = m.opcode;
    let g = op_group(op);
    let x = op_x(op);
    let y = op_y(op);
    let nn = op_nn(op);
    let nnn = op_nnn(op);
    if g == 0x0 {
        exec_sys(m)
    } else if g == 0x1 {
        Machine { pc: nnn, ..m }
    } else if g == 0x2 {
        Machine { stack: m.stack.update(m.sp as int, m.pc), sp: (m.sp + 1) as u16, pc: nnn, ..m }
    } else if g == 0x3 {
        skip_if(m, m.v[x] == nn)
    } else if g == 0x4 {
        skip_if(m, m.v[x] != nn)
    } else if g == 0x5 {
        skip_if(m, m.v[x] == m.v[y])
    } else if g == 0x6 {
        advance(set_reg(m, x, nn), 2)
    } else if g == 0x7 {
        advance(set_reg(m, x, wrap8(m.v[x] + nn)), 2)
    } else if g == 0x8 {
        exec_alu(m)
    } else if g == 0x9 {
        skip_if(m, m.v[x] != m.v[y])
    } else if g == 0xA {
        advance(Machine { i: nnn, ..m }, 2)
    } else if g == 0xB {
        Machine { pc: (nnn + m.v[0]) as u16, ..m }
    } else if g == 0xC {
        advance(set_reg(m, x, rnd & nn), 2)
    } else if g == 0xD {
        exec_draw(m)
    } else if g == 0xE {
        exec_keys(m)
    } else {
        exec_misc(m)
    }
}

/// FX0A with no key pressed: the cycle ends at once, with the program counter
/// and the timers left as they are, so the same instruction runs again.
pub open spec fn waits_for_key(m: Machine) -> bool {
    op_group(m.opcode) == 0xF && op_nn(m.opcode) == 0x0A && pressed_key(m.key) < 0
}

/// The state with the next opcode fetched into `opcode`.
pub open spec fn fetched(m: Machine) -> Machine {
    Machine { opcode: fetch(m), ..m }
}

/// One emulation cycle: fetch, decode and execute one opcode, then let the
/// timers tick (unless the machine waits for a key).
pub open spec fn step(m: Machine, rnd: u8) -> Machine {
    let f = fetched(m);
    if waits_for_key(f) {
        f
    } else {
        tick(execute(f, rnd))
    }
}

/// Whether the cycle sounds the buzzer: the sound timer is at 1 when the
/// timers tick.
pub open spec fn beeps(m: Machine, rnd: u8) -> bool {
    let f = fetched(m);
    !waits_for_key(f) && execute(f, rnd).sound_timer == 1
}

/// Whether the operands of the fetched opcode in `m` are in range: the stack
/// is not empty on a return nor full on a call, a sprite fits, a key index
/// names a key, and memory transfers stay in memory.
pub open spec fn operands_ok(m: Machine) -> bool {
    let op = m.opcode;
    let g = op_group(op);
    let x = op_x(op);
    let nn = op_nn(op);
    if g == 0 && op_n(op) == 0xE {
        m.sp >= 1
    } else if g == 2 {
        m.sp < STACK_DEPTH
    } else if g == 0xD {
        sprite_fits(m.memory, m.i as int, m.v[x] as int, m.v[op_y(op)] as int, op_n(op) as int)
    } else if g == 0xE && (nn == 0x9E || nn == 0xA1) {
        m.v[x] < KEY_COUNT
    } else if g == 0xF && nn == 0x33 {
        m.i + 2 < MEMORY_SIZE
    } else if g == 0xF && (nn == 0x55 || nn == 0x65) {
        m.i + x < MEMORY_SIZE
    } else {
        true
    }
}

/// Whether a cycle from `m` is defined: an opcode can be fetched and its
/// operands are in range.
pub open spec fn cycle_defined(m: Machine) -> bool {
    m.pc + 1 < MEMORY_SIZE && operands_ok(fetched(m))
}

} // verus!
