//! The CHIP-8 machine and its emulation cycle.
use vstd::prelude::*;
use crate::bits::{lemma_decode, lemma_join_bytes, lemma_shifts};
use crate::draw::{draw_sprite, sprite_fits_exec};
use crate::model::{
    beeps, cycle_defined, exec_alu, exec_draw, exec_keys, exec_misc, exec_sys, execute, fetch,
    fetched, fontset, is_known, last_pressed_below, op_group, op_n, op_x, op_y, operands_ok, power_on, step,
    waits_for_key, Machine, KEY_COUNT, MEMORY_SIZE, PROGRAM_START, REGISTER_COUNT, SCREEN_SIZE,
    STACK_DEPTH,
};

verus! {

/// A CHIP-8 machine: 4 KiB of memory, sixteen 8-bit registers, the index
/// register, the program counter, a 64 x 32 monochrome screen, a hexadecimal
/// keypad, two timers and a sixteen deep call stack.
pub struct Chip8 {
    opcode: u16,
    memory: [u8; 4096],
    v: [u8; 16],
    i: u16,
    pc: u16,
    /// The screen, row by row, 64 pixels a row: 1 is on, 0 is off.
    pub gfx: [u8; 2048],
    key: [u8; 16],
    delay_timer: u8,
    sound_timer: u8,
    stack: [u16; 16],
    sp: u16,
    /// Set when an instruction changed the screen.
    pub draw_flag: bool,
}

/// What one emulation cycle reports besides its effect on the machine.
#[derive(Clone, Copy, Debug, PartialEq, Eq, Structural)]
pub struct CycleReport {
    /// The opcode that was executed.
    pub opcode: u16,
    /// Whether the emulator implements that opcode.
    pub known: bool,
    /// Whether the buzzer sounds: the sound timer ran out at this cycle.
    pub beep: bool,
}

/// Why an emulation cycle could not run.
#[derive(Clone, Copy, Debug, PartialEq, Eq, Structural)]
pub enum CycleError {
    /// CXNN needed a random byte and the operating system could not give one.
    NoRandomByte,
}

/// The report of the cycle from `m` with `r` as the random byte.
pub open spec fn cycle_report(m: Machine, r: u8) -> CycleReport {
    CycleReport { opcode: fetch(m), known: is_known(fetch(m)), beep: beeps(m, r) }
}

impl View for Chip8 {
    type V = Machine;

    closed spec fn view(&self) -> Machine {
        Machine {
            opcode: self.opcode,
            memory: self.memory@,
            v: self.v@,
            i: self.i,
            pc: self.pc,
            gfx: self.gfx@,
            key: self.key@,
            delay_timer: self.delay_timer,
            sound_timer: self.sound_timer,
            stack: self.stack@,
            sp: self.sp,
            draw_flag: self.draw_flag,
        }
    }
}

/// The machine with `rom` copied into memory from the program start on.
pub open spec fn loaded_rom(m: Machine, rom: Seq<u8>) -> Machine {
    Machine {
        memory: Seq::new(
            m.memory.len(),
            |a: int|
                if PROGRAM_START <= a < PROGRAM_START + rom.len() {
                    rom[a - PROGRAM_START]
                } else {
                    m.memory[a]
                },
        ),
        ..m
    }
}

/// Whether the emulator implements `op`.
fn opcode_is_known(op: u16) -> (known: bool)
    ensures
        known == is_known(op),
{
    proof {
        lemma_decode(op);
    }
    let n = op & 0x000F;
    let nn = op & 0x00FF;
    match op & 0xF000 {
        0x0000 => n == 0x0 || n == 0xE,
        0x8000 => n <= 7 || n == 0xE,
        0xE000 => nn == 0x9E || nn == 0xA1,
        0xF000 => nn == 0x07 || nn == 0x0A || nn == 0x15 || nn == 0x18 || nn == 0x1E || nn == 0x29
            || nn == 0x33 || nn == 0x55 || nn == 0x65,
        _ => true,
    }
}

impl Chip8 {
    /// A machine right after power-on: the font loaded at address 0,
    /// everything else cleared, execution starting at 0x200.
    pub fn new() -> (c: Chip8)
        ensures
            c@ == power_on(),
            c@.wf(),
            c@.screen_binary(),
            c@.pc == 0x200 && c@.i == 0 && c@.sp == 0 && c@.opcode == 0,
            c@.delay_timer == 0 && c@.sound_timer == 0 && c@.draw_flag,
            forall|a: int| 0 <= a < 80 ==> #[trigger] c@.memory[a] == fontset()[a],
            forall|a: int| 80 <= a < MEMORY_SIZE ==> #[trigger] c@.memory[a] == 0,
            forall|k: int|
                0 <= k < REGISTER_COUNT ==> #[trigger] c@.v[k] == 0 && c@.key[k] == 0 && c@.stack[k]
                    == 0,
            forall|p: int| 0 <= p < SCREEN_SIZE ==> #[trigger] c@.gfx[p] == 0,
    {
        let mut memory: [u8; 4096] = [0; 4096];

        let chip8_fontset: [u8; 80] = [
            0xF0, 0x90, 0x90, 0x90, 0xF0,  // 0
            0x20, 0x60, 0x20, 0x20, 0x70,  // 1
            0xF0, 0x10, 0xF0, 0x80, 0xF0,  // 2
            0xF0, 0x10, 0xF0, 0x10, 0xF0,  // 3
            0x90, 0x90, 0xF0, 0x10, 0x10,  // 4
            0xF0, 0x80, 0xF0, 0x10, 0xF0,  // 5
            0xF0, 0x80, 0xF0, 0x90, 0xF0,  // 6
            0xF0, 0x10, 0x20, 0x40, 0x40,  // 7
            0xF0, 0x90, 0xF0, 0x90, 0xF0,  // 8
            0xF0, 0x90, 0xF0, 0x10, 0xF0,  // 9
            0xF0, 0x90, 0xF0, 0x90, 0x90,  // A
            0xE0, 0x90, 0xE0, 0x90, 0xE0,  // B
            0xF0, 0x80, 0x80, 0x80, 0xF0,  // C
            0xE0, 0x90, 0x90, 0x90, 0xE0,  // D
            0xF0, 0x80, 0xF0, 0x80, 0xF0,  // E
            0xF0, 0x80, 0xF0, 0x80, 0x80,  // F
        ];
        assert(chip8_fontset@ =~= fontset());
        for k in 0..80
            invariant
                chip8_fontset@ == fontset(),
                forall|a: int|
                    0 <= a < MEMORY_SIZE ==> #[trigger] memory@[a] == if a < k {
                        fontset()[a]
                    } else {
                        0u8
                    },
        {
            memory[k] = chip8_fontset[k];
        }
        let c = Chip8 {
            pc: 0x200,
            i: 0,
            opcode: 0,
            v: [0; 16],
            memory: memory,
            gfx: [0; 2048],
            key: [0; 16],
            stack: [0; 16],
            sp: 0,
            delay_timer: 0,
            sound_timer: 0,
            draw_flag: true,
        };
        assert(c@ =~= power_on());
        c
    }

    /// Copies a program into memory from address 0x200 on; the rest of the
    /// machine is left as it is.
    pub fn load_game(&mut self, game: &[u8])
        requires
            game.len() <= MEMORY_SIZE - PROGRAM_START,
        ensures
            final(self)@ == loaded_rom(old(self)@, game@),
            forall|k: int| 0 <= k < game.len() ==> #[trigger] final(self)@.memory[0x200 + k] == game@[k],
            forall|a: int|
                0 <= a < MEMORY_SIZE && !(0x200 <= a < 0x200 + game.len()) ==> #[trigger] final(self)@.memory[a]
                    == old(self)@.memory[a],
            final(self)@.memory.len() == old(self)@.memory.len(),
            final(self)@ == (Machine { memory: final(self)@.memory, ..old(self)@ }),
            old(self)@.wf() ==> final(self)@.wf(),
            old(self)@.screen_binary() ==> final(self)@.screen_binary(),
    {
        let buffer_size = game.len();
        for k in 0..buffer_size
            invariant
                buffer_size == game.len(),
                buffer_size <= MEMORY_SIZE - PROGRAM_START,
                self.opcode == old(self).opcode,
                self.v == old(self).v,
                self.i == old(self).i,
                self.pc == old(self).pc,
                self.gfx == old(self).gfx,
                self.key == old(self).key,
                self.delay_timer == old(self).delay_timer,
                self.sound_timer == old(self).sound_timer,
                self.stack == old(self).stack,
                self.sp == old(self).sp,
                self.draw_flag == old(self).draw_flag,
                forall|a: int|
                    0 <= a < MEMORY_SIZE ==> #[trigger] self.memory@[a] == if PROGRAM_START <= a
                        < PROGRAM_START + k {
                        game@[a - PROGRAM_START]
                    } else {
                        old(self).memory@[a]
                    },
        {
            self.memory[k + 512] = game[k];
        }
        assert(self@ =~= loaded_rom(old(self)@, game@));
    }

    /// 00E0 and 00EE.
    fn exec_sys(&mut self)
        requires
            op_group(old(self).opcode) == 0,
            operands_ok(old(self)@),
            old(self)@.wf(),
            old(self).pc + 1 < MEMORY_SIZE,
        ensures
            final(self)@ == exec_sys(old(self)@),
    {
        proof {
            lemma_decode(self.opcode);
        }
        let n = self.opcode & 0x000F;
        if n == 0x0000 {
            self.gfx = [0; 2048];
            self.draw_flag = true;
            self.pc = self.pc + 2;
        } else if n == 0x000E {
            self.sp = self.sp - 1;
            assert(self.stack@[self.sp as int] < MEMORY_SIZE - 1);
            self.pc = self.stack[self.sp as usize];
            self.pc = self.pc + 2;
        }
        assert(self@ =~= exec_sys(old(self)@));
    }

    /// 8XYN.
    fn exec_alu(&mut self)
        requires
            op_group(old(self).opcode) == 8,
            old(self)@.wf(),
            old(self).pc + 1 < MEMORY_SIZE,
        ensures
            final(self)@ == exec_alu(old(self)@),
    {
        let op = self.opcode;
        proof {
            lemma_decode(op);
        }
        let x = ((op & 0x0F00) >> 8) as usize;
        let y = ((op & 0x00F0) >> 4) as usize;
        let n = op & 0x000F;
        if n <= 0x0003 {
            self.alu_logic(x, y, n);
        } else if n == 0x0004 || n == 0x0005 || n == 0x0007 {
            self.alu_arith(x, y, n);
        } else if n == 0x0006 || n == 0x000E {
            self.alu_shift(x, n);
        } else {
            assert(self@ =~= exec_alu(old(self)@));
        }
    }

    /// 8XY0 to 8XY3: copy, or, and, xor.
    fn alu_logic(&mut self, x: usize, y: usize, n: u16)
        requires
            op_group(old(self).opcode) == 8,
            x == op_x(old(self).opcode),
            y == op_y(old(self).opcode),
            n == op_n(old(self).opcode),
            n <= 3,
            old(self)@.wf(),
            old(self).pc + 1 < MEMORY_SIZE,
        ensures
            final(self)@ == exec_alu(old(self)@),
    {
        let vx = self.v[x];
        let vy = self.v[y];
        self.v[x] = if n == 0 {
            vy
        } else if n == 1 {
            vx | vy
        } else if n == 2 {
            vx & vy
        } else {
            vx ^ vy
        };
        self.pc = self.pc + 2;
        assert(self@ =~= exec_alu(old(self)@));
    }

    /// 8XY4, 8XY5, 8XY7: add with carry, subtract with borrow in either
    /// direction.
    fn alu_arith(&mut self, x: usize, y: usize, n: u16)
        requires
            op_group(old(self).opcode) == 8,
            x == op_x(old(self).opcode),
            y == op_y(old(self).opcode),
            n == op_n(old(self).opcode),
            n == 4 || n == 5 || n == 7,
            old(self)@.wf(),
            old(self).pc + 1 < MEMORY_SIZE,
        ensures
            final(self)@ == exec_alu(old(self)@),
    {
        if n == 0x0004 {
            self.alu_add(x, y);
        } else {
            self.alu_sub(x, y, n);
        }
    }

    /// 8XY4: the sum is computed from the old VX and VY, and the carry is
    /// written last.
    fn alu_add(&mut self, x: usize, y: usize)
        requires
            op_group(old(self).opcode) == 8,
            x == op_x(old(self).opcode),
            y == op_y(old(self).opcode),
            op_n(old(self).opcode) == 4,
            old(self)@.wf(),
            old(self).pc + 1 < MEMORY_SIZE,
        ensures
            final(self)@ == exec_alu(old(self)@),
    {
        let vx = self.v[x];
        let vy = self.v[y];
        let carry: u8 = if vy > 0xFF - vx {
            1
        } else {
            0
        };
        self.v[x] = vx.wrapping_add(vy);
        self.v[0xF] = carry;
        self.pc = self.pc + 2;
        assert(self@ =~= exec_alu(old(self)@));
    }

    /// 8XY5 and 8XY7: VF takes the no-borrow flag first, then VX the
    /// difference modulo 256.
    #[verifier::rlimit(40)]
    fn alu_sub(&mut self, x: usize, y: usize, n: u16)
        requires
            op_group(old(self).opcode) == 8,
            x == op_x(old(self).opcode),
            y == op_y(old(self).opcode),
            n == op_n(old(self).opcode),
            n == 5 || n == 7,
            old(self)@.wf(),
            old(self).pc + 1 < MEMORY_SIZE,
        ensures
            final(self)@ == exec_alu(old(self)@),
    {
        if n == 0x0005 {
            if self.v[y] > self.v[x] {
                self.v[0xF] = 0;
            } else {
                self.v[0xF] = 1;
            }
            self.v[x] = self.v[x].wrapping_sub(self.v[y]);
            self.pc = self.pc + 2;
            assert(self@ =~= exec_alu(old(self)@));
        } else {
            if self.v[y] < self.v[x] {
                self.v[0xF] = 0;
            } else {
                self.v[0xF] = 1;
            }
            self.v[x] = self.v[y].wrapping_sub(self.v[x]);
            self.pc = self.pc + 2;
            assert(self@ =~= exec_alu(old(self)@));
        }
    }

    /// 8XY6 and 8XYE: shift VX right or left by one; VF takes the bit
    /// shifted out, written last.
    fn alu_shift(&mut self, x: usize, n: u16)
        requires
            op_group(old(self).opcode) == 8,
            x == op_x(old(self).opcode),
            n == op_n(old(self).opcode),
            n == 6 || n == 0xE,
            old(self)@.wf(),
            old(self).pc + 1 < MEMORY_SIZE,
        ensures
            final(self)@ == exec_alu(old(self)@),
    {
        let vx = self.v[x];
        proof {
            lemma_shifts(vx);
        }
        if n == 0x0006 {
            let lsb_vx = (vx << 7u8) >> 7u8;
            self.v[x] = vx >> 1u8;
            self.v[0xF] = lsb_vx;
        } else {
            let msb_vx = vx >> 7u8;
            self.v[x] = vx << 1u8;
            self.v[0xF] = msb_vx;
        }
        self.pc = self.pc + 2;
        assert(self@ =~= exec_alu(old(self)@));
    }

    /// DXYN.
    fn exec_draw(&mut self)
        requires
            op_group(old(self).opcode) == 0xD,
            operands_ok(old(self)@),
            old(self)@.wf(),
            old(self).pc + 1 < MEMORY_SIZE,
        ensures
            final(self)@ == exec_draw(old(self)@),
    {
        let op = self.opcode;
        proof {
            lemma_decode(op);
        }
        let x = self.v[((op & 0x0F00) >> 8) as usize];
        let y = self.v[((op & 0x00F0) >> 4) as usize];
        let height = op & 0x000F;
        let mut gfx = self.gfx;
        let collision = draw_sprite(&mut gfx, &self.memory, self.i, x, y, height);
        self.gfx = gfx;
        self.v[0xF] = if collision {
            1
        } else {
            0
        };
        self.draw_flag = true;
        self.pc = self.pc + 2;
        assert(self@ =~= exec_draw(old(self)@));
    }

    /// EX9E and EXA1.
    fn exec_keys(&mut self)
        requires
            op_group(old(self).opcode) == 0xE,
            operands_ok(old(self)@),
            old(self)@.wf(),
            old(self).pc + 1 < MEMORY_SIZE,
        ensures
            final(self)@ == exec_keys(old(self)@),
    {
        let op = self.opcode;
        proof {
            lemma_decode(op);
        }
        let x = ((op & 0x0F00) >> 8) as usize;
        let nn = op & 0x00FF;
        if nn == 0x009E {
            if self.key[self.v[x] as usize] != 0 {
                self.pc = self.pc + 4;
            } else {
                self.pc = self.pc + 2;
            }
        } else if nn == 0x00A1 {
            if self.key[self.v[x] as usize] != 1 {
                self.pc = self.pc + 4;
            } else {
                self.pc = self.pc + 2;
            }
        }
        assert(self@ =~= exec_keys(old(self)@));
    }

    /// FXNN; returns false when FX0A finds no key pressed.
    fn exec_misc(&mut self) -> (proceed: bool)
        requires
            op_group(old(self).opcode) == 0xF,
            operands_ok(old(self)@),
            old(self)@.wf(),
            old(self).pc + 1 < MEMORY_SIZE,
        ensures
            final(self)@ == exec_misc(old(self)@),
            proceed == !waits_for_key(old(self)@),
    {
        let op = self.opcode;
        proof {
            lemma_decode(op);
        }
        let x = ((op & 0x0F00) >> 8) as usize;
        let nn = op & 0x00FF;
        if nn == 0x0007 {
            self.v[x] = self.delay_timer;
            self.pc = self.pc + 2;
        } else if nn == 0x000A {
            let mut key_press = false;
            let mut pressed: u8 = 0;
            for k in 0..16
                invariant
                    self.key@.len() == KEY_COUNT,
                    key_press == (last_pressed_below(self.key@, k as int) >= 0),
                    key_press ==> pressed == last_pressed_below(self.key@, k as int),
            {
                if self.key[k] != 0 {
                    pressed = k as u8;
                    key_press = true;
                }
            }
            if !key_press {
                assert(self@ =~= exec_misc(old(self)@));
                return false;
            }
            self.v[x] = pressed;
            self.pc = self.pc + 2;
        } else if nn == 0x0015 {
            self.delay_timer = self.v[x];
            self.pc = self.pc + 2;
        } else if nn == 0x0018 {
            self.sound_timer = self.v[x];
            self.pc = self.pc + 2;
        } else if nn == 0x001E {
            self.i = self.i.wrapping_add(self.v[x] as u16);
            self.pc = self.pc + 2;
        } else if nn == 0x0029 {
            self.i = self.v[x].wrapping_mul(5) as u16;
            self.pc = self.pc + 2;
        } else if nn == 0x0033 {
            let i = self.i as usize;
            let vx = self.v[x];
            self.memory[i] = vx / 100;
            self.memory[i + 1] = (vx / 10) % 10;
            self.memory[i + 2] = (vx % 100) % 10;
            self.pc = self.pc + 2;
        } else if nn == 0x0055 {
            let i = self.i as usize;
            let mut memory = self.memory;
            for index in 0..x + 1
                invariant
                    x < REGISTER_COUNT,
                    i + x < MEMORY_SIZE,
                    i == old(self).i,
                    self.v == old(self).v,
                    forall|a: int|
                        0 <= a < MEMORY_SIZE ==> #[trigger] memory@[a] == if i <= a < i + index {
                            self.v@[a - i]
                        } else {
                            old(self).memory@[a]
                        },
            {
                memory[i + index] = self.v[index];
            }
            self.memory = memory;
            self.pc = self.pc + 2;
        } else if nn == 0x0065 {
            let i = self.i as usize;
            let mut regs = self.v;
            for index in 0..x + 1
                invariant
                    x < REGISTER_COUNT,
                    i + x < MEMORY_SIZE,
                    i == old(self).i,
                    self.memory == old(self).memory,
                    forall|r: int|
                        0 <= r < REGISTER_COUNT ==> #[trigger] regs@[r] == if r < index {
                            self.memory@[i + r]
                        } else {
                            old(self).v@[r]
                        },
            {
                regs[index] = self.memory[i + index];
            }
            self.v = regs;
            self.pc = self.pc + 2;
        }
        assert(self@ =~= exec_misc(old(self)@));
        true
    }

    /// Executes the fetched opcode; returns false when FX0A finds no key
    /// pressed.
    fn execute(&mut self, random: u8) -> (proceed: bool)
        requires
            operands_ok(old(self)@),
            old(self)@.wf(),
            old(self).pc + 1 < MEMORY_SIZE,
        ensures
            final(self)@ == execute(old(self)@, random),
            proceed == !waits_for_key(old(self)@),
    {
        let op = self.opcode;
        proof {
            lemma_decode(op);
        }
        let x = ((op & 0x0F00) >> 8) as usize;
        let y = ((op & 0x00F0) >> 4) as usize;
        let nn = op & 0x00FF;
        let nnn = op & 0x0FFF;
        match op & 0xF000 {
            0x0000 => {
                self.exec_sys();
            },
            0x1000 => {
                self.pc = nnn;
            },
            0x2000 => {
                self.stack[self.sp as usize] = self.pc;
                self.sp = self.sp + 1;
                self.pc = nnn;
            },
            0x3000 => {
                if self.v[x] == (nn as u8) {
                    self.pc = self.pc + 4;
                } else {
                    self.pc = self.pc + 2;
                }
            },
            0x4000 => {
                if self.v[x] != (nn as u8) {
                    self.pc = self.pc + 4;
                } else {
                    self.pc = self.pc + 2;
                }
            },
            0x5000 => {
                if self.v[x] == self.v[y] {
                    self.pc = self.pc + 4;
                } else {
                    self.pc = self.pc + 2;
                }
            },
            0x6000 => {
                self.v[x] = nn as u8;
                self.pc = self.pc + 2;
            },
            0x7000 => {
                self.v[x] = self.v[x].wrapping_add(nn as u8);
                self.pc = self.pc + 2;
            },
            0x8000 => {
                self.exec_alu();
            },
            0x9000 => {
                if self.v[x] != self.v[y] {
                    self.pc = self.pc + 4;
                } else {
                    self.pc = self.pc + 2;
                }
            },
            0xA000 => {
                self.i = nnn;
                self.pc = self.pc + 2;
            },
            0xB000 => {
                self.pc = nnn + (self.v[0x0] as u16);
            },
            0xC000 => {
                self.v[x] = random & (nn as u8);
                self.pc = self.pc + 2;
            },
            0xD000 => {
                self.exec_draw();
            },
            0xE000 => {
                self.exec_keys();
            },
            _ => {
                let proceed = self.exec_misc();
                return proceed;
            },
        }
        assert(self@ =~= execute(old(self)@, random));
        true
    }

    /// One emulation cycle with `random` as the byte that CXNN masks: fetch
    /// the opcode at the program counter, execute it, then let the timers
    /// tick, unless FX0A waits for a key.
    pub fn emulate_cycle_with(&mut self, random: u8) -> (report: CycleReport)
        requires
            old(self)@.wf(),
            cycle_defined(old(self)@),
        ensures
            final(self)@ == step(old(self)@, random),
            final(self)@.wf(),
            old(self)@.screen_binary() ==> final(self)@.screen_binary(),
            report == cycle_report(old(self)@, random),
    {
        let pc = self.pc as usize;
        proof {
            lemma_join_bytes(self.memory@[pc as int], self.memory@[pc as int + 1]);
            crate::laws::lemma_step_preserves_wf(self@, random);
            if self@.screen_binary() {
                crate::laws::lemma_step_keeps_screen_binary(self@, random);
            }
        }
        self.opcode = ((self.memory[pc] as u16) << 8u16) | (self.memory[pc + 1] as u16);
        assert(self@ =~= fetched(old(self)@));
        let known = opcode_is_known(self.opcode);
        let report_opcode = self.opcode;
        let proceed = self.execute(random);
        if !proceed {
            return CycleReport { opcode: report_opcode, known, beep: false };
        }
        let beep = self.sound_timer == 1;
        if self.delay_timer > 0 {
            self.delay_timer = self.delay_timer - 1;
        }
        if self.sound_timer > 0 {
            self.sound_timer = self.sound_timer - 1;
        }
        assert(self@ =~= step(old(self)@, random));
        CycleReport { opcode: report_opcode, known, beep }
    }

    /// One emulation cycle.  CXNN draws its byte from the operating system's
    /// random source; every other opcode needs none, so its cycle always
    /// succeeds and moves the machine as `emulate_cycle_with` does.  When the
    /// random source fails, the machine is left as it was and the error says
    /// so.
    pub fn emulate_cycle(&mut self) -> (result: Result<CycleReport, CycleError>)
        requires
            old(self)@.wf(),
            cycle_defined(old(self)@),
        ensures
            final(self)@.wf(),
            old(self)@.screen_binary() ==> final(self)@.screen_binary(),
            op_group(fetch(old(self)@)) != 0xC ==> result == Ok::<CycleReport, CycleError>(
                cycle_report(old(self)@, 0),
            ) && final(self)@ == step(old(self)@, 0),
            match result {
                Ok(report) => exists|r: u8|
                    final(self)@ == step(old(self)@, r) && report == cycle_report(old(self)@, r),
                Err(e) => {
                    &&& e == CycleError::NoRandomByte
                    &&& op_group(fetch(old(self)@)) == 0xC
                    &&& final(self)@ == old(self)@
                },
            },
    {
        let pc = self.pc as usize;
        proof {
            lemma_join_bytes(self.memory@[pc as int], self.memory@[pc as int + 1]);
        }
        let op = ((self.memory[pc] as u16) << 8u16) | (self.memory[pc + 1] as u16);
        proof {
            lemma_decode(op);
        }
        if op & 0xF000 == 0xC000 {
            match crate::entropy::random_byte() {
                Some(r) => Ok(self.emulate_cycle_with(r)),
                None => Err(CycleError::NoRandomByte),
            }
        } else {
            Ok(self.emulate_cycle_with(0))
        }
    }

    /// Whether a cycle from this state is defined (see `cycle_defined`): the
    /// program counter lies in memory and the operands of the opcode there
    /// are in range.
    pub fn cycle_is_defined(&self) -> (ok: bool)
        requires
            self@.wf(),
        ensures
            ok == cycle_defined(self@),
    {
        if self.pc >= 4095 {
            return false;
        }
        let pc = self.pc as usize;
        proof {
            lemma_join_bytes(self.memory@[pc as int], self.memory@[pc as int + 1]);
        }
        let op = ((self.memory[pc] as u16) << 8u16) | (self.memory[pc + 1] as u16);
        proof {
            lemma_decode(op);
        }
        let x = ((op & 0x0F00) >> 8) as usize;
        let y = ((op & 0x00F0) >> 4) as usize;
        let n = op & 0x000F;
        let nn = op & 0x00FF;
        let group = op & 0xF000;
        if group == 0x0000 && n == 0x000E {
            self.sp >= 1
        } else if group == 0x2000 {
            self.sp < 16
        } else if group == 0xD000 {
            sprite_fits_exec(&self.memory, self.i, self.v[x], self.v[y], n)
        } else if group == 0xE000 && (nn == 0x009E || nn == 0x00A1) {
            self.v[x] < 16
        } else if group == 0xF000 && nn == 0x0033 {
            (self.i as usize) + 2 < 4096
        } else if group == 0xF000 && (nn == 0x0055 || nn == 0x0065) {
            (self.i as usize) + x < 4096
        } else {
            true
        }
    }

    /// The opcode that the last cycle executed.
    pub fn opcode(&self) -> (op: u16)
        ensures
            op == self@.opcode,
    {
        self.opcode
    }

    /// The program counter.
    pub fn pc(&self) -> (pc: u16)
        ensures
            pc == self@.pc,
    {
        self.pc
    }

    /// The index register I.
    pub fn index(&self) -> (i: u16)
        ensures
            i == self@.i,
    {
        self.i
    }

    /// The stack pointer: the number of return addresses on the stack.
    pub fn sp(&self) -> (sp: u16)
        ensures
            sp == self@.sp,
    {
        self.sp
    }

    /// Register V`r`.
    pub fn register(&self, r: usize) -> (val: u8)
        requires
            r < REGISTER_COUNT,
        ensures
            val == self@.v[r as int],
    {
        self.v[r]
    }

    /// The byte at address `addr`.
    pub fn memory_at(&self, addr: usize) -> (val: u8)
        requires
            addr < MEMORY_SIZE,
        ensures
            val == self@.memory[addr as int],
    {
        self.memory[addr]
    }

    /// Entry `k` of the call stack.
    pub fn stack_at(&self, k: usize) -> (val: u16)
        requires
            k < STACK_DEPTH,
        ensures
            val == self@.stack[k as int],
    {
        self.stack[k]
    }

    /// The state of key `k` (0 = released).
    pub fn key_state(&self, k: usize) -> (val: u8)
        requires
            k < KEY_COUNT,
        ensures
            val == self@.key[k as int],
    {
        self.key[k]
    }

    /// Screen pixel `p` (row `p / 64`, column `p % 64`): 1 is on, 0 is off.
    pub fn pixel(&self, p: usize) -> (val: u8)
        requires
            p < SCREEN_SIZE,
        ensures
            val == self@.gfx[p as int],
    {
        self.gfx[p]
    }

    /// Whether an instruction changed the screen (the redraw flag).
    pub fn draw_flag(&self) -> (b: bool)
        ensures
            b == self@.draw_flag,
    {
        self.draw_flag
    }

    /// The delay timer.
    pub fn delay_timer(&self) -> (t: u8)
        ensures
            t == self@.delay_timer,
    {
        self.delay_timer
    }

    /// The sound timer.
    pub fn sound_timer(&self) -> (t: u8)
        ensures
            t == self@.sound_timer,
    {
        self.sound_timer
    }

    /// Stores the state of the keypad; the keypad is not wired up yet, so
    /// nothing changes.
    pub fn set_keys(&self) {
    }
}

} // verus!
