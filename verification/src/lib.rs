//! A CHIP-8 virtual machine: the fetch, decode and execute engine and its
//! framebuffer, with every instruction's effect stated as a contract.

pub mod display;
pub mod keypad;
pub mod machine;
pub mod options;

pub use display::Display;
pub use keypad::HostKey;
pub use options::Options;
pub use options::Quirks;

use vstd::prelude::*;
use std::time::Duration;
use std::time::Instant;
use crate::keypad::pad_key;
use crate::keypad::pad_key_of;
use crate::machine::FONT_BASE;
use crate::machine::Machine;
use crate::machine::PROGRAM_BASE;
use crate::machine::RAM;
use crate::machine::STACK_DEPTH;
use crate::machine::TIMER_PERIOD;
use crate::machine::cell_of;
use crate::machine::lowest_pressed;
use crate::machine::op_class;
use crate::machine::op_n;
use crate::machine::op_nn;
use crate::machine::op_nnn;
use crate::machine::op_x;
use crate::machine::op_y;
use crate::options::FONT_SIZE;

verus! {

/// `std::time::Instant`, a point on the monotonic clock. Nothing is known of
/// what a value holds.
#[verifier::external_type_specification]
#[verifier::external_body]
pub struct ExInstant(std::time::Instant);

/// Calls `fastrand::u8` over the full range of bytes. Nothing is claimed of
/// the byte that comes back.
#[verifier::external_body]
fn random_byte() -> (b: u8) {
    fastrand::u8(..)
}

/// Calls `Instant::now`. Nothing is claimed of the instant that comes back.
#[verifier::external_body]
fn clock_start() -> (t: Instant) {
    Instant::now()
}

/// Calls `Instant::elapsed`. Nothing is claimed of the duration that comes back.
#[verifier::external_body]
fn clock_elapsed(start: &Instant) -> (d: Duration) {
    start.elapsed()
}

/// Calls `Duration::as_micros`. Nothing is claimed of the number that comes back.
#[verifier::external_body]
fn duration_micros(d: &Duration) -> (us: u128) {
    d.as_micros()
}

pub struct Chip8 {
    pc: u16,
    ir: u16,
    vr: [u8; 16],
    sp: usize,
    stack: [u16; STACK_DEPTH],
    memory: [u8; RAM],
    display: Display,
    delay_timer: u8,
    sound_timer: u8,
    options: Options,
    started: Instant,
    last_tick: u64,
    keyboard: [bool; 16],
}

impl View for Chip8 {
    type V = Machine;

    closed spec fn view(&self) -> Machine {
        Machine {
            pc: self.pc,
            ir: self.ir,
            vr: self.vr@,
            stack: self.stack@.take(self.sp as int),
            memory: self.memory@,
            screen: self.display@,
            delay_timer: self.delay_timer,
            sound_timer: self.sound_timer,
            keyboard: self.keyboard@,
            last_tick: self.last_tick,
            quirks: self.options.quirks,
        }
    }
}

/// The instruction family of `opcode`.
pub fn class_of(opcode: u16) -> (c: u16)
    ensures
        c == op_class(opcode),
        c < 16,
{
    assert((opcode & 0xF000) >> 12 < 16) by (bit_vector);
    (opcode & 0xF000) >> 12
}

/// The register operand `x` of `opcode`.
pub fn x_of(opcode: u16) -> (x: usize)
    ensures
        x == op_x(opcode),
        x < 16,
{
    assert((opcode & 0x0F00) >> 8 < 16) by (bit_vector);
    ((opcode & 0x0F00) >> 8) as usize
}

/// The register operand `y` of `opcode`.
pub fn y_of(opcode: u16) -> (y: usize)
    ensures
        y == op_y(opcode),
        y < 16,
{
    assert((opcode & 0x00F0) >> 4 < 16) by (bit_vector);
    ((opcode & 0x00F0) >> 4) as usize
}

/// The operand `n` of `opcode`.
pub fn n_of(opcode: u16) -> (n: u16)
    ensures
        n == op_n(opcode),
        n < 16,
{
    assert(opcode & 0x000F < 16) by (bit_vector);
    opcode & 0x000F
}

/// The immediate operand `nn` of `opcode`.
pub fn nn_of(opcode: u16) -> (nn: u8)
    ensures
        nn == op_nn(opcode),
{
    assert(opcode & 0x00FF < 256) by (bit_vector);
    (opcode & 0x00FF) as u8
}

/// The address operand `nnn` of `opcode`.
pub fn nnn_of(opcode: u16) -> (nnn: u16)
    ensures
        nnn == op_nnn(opcode),
        nnn <= 0x0FFF,
{
    assert(opcode & 0x0FFF <= 0x0FFF) by (bit_vector);
    opcode & 0x0FFF
}

impl Chip8 {
    /// What the fields keep beyond the model: the stack pointer is in range.
    pub closed spec fn inv(&self) -> bool {
        self.sp <= STACK_DEPTH
    }

    /// The machine is in a valid state.
    pub open spec fn wf(&self) -> bool {
        self.inv() && self@.wf()
    }

    /// A machine with the font of `options` in memory and no program. Its
    /// timers count from the moment it is built.
    pub fn new(options: Options) -> (c: Chip8)
        ensures
            c.wf(),
            c@ == Machine::initial(options.font@, options.quirks),
    {
        let mut memory = [0u8; RAM];
        let font = options.font();
        let mut i: usize = 0;
        while i < FONT_SIZE
            invariant
                i <= FONT_SIZE,
                font == options.font,
                forall|a: int|
                    0 <= a < RAM ==> #[trigger] memory[a] == (if FONT_BASE <= a < FONT_BASE + i {
                        font[a - FONT_BASE]
                    } else {
                        0u8
                    }),
            decreases FONT_SIZE - i,
        {
            memory[FONT_BASE as usize + i] = font[i];
            i += 1;
        }
        let c = Chip8 {
            pc: PROGRAM_BASE,
            ir: 0,
            vr: [0u8; 16],
            sp: 0,
            stack: [0u16; STACK_DEPTH],
            memory,
            display: Display::new(),
            delay_timer: 0,
            sound_timer: 0,
            options,
            started: clock_start(),
            last_tick: 0,
            keyboard: [false; 16],
        };
        proof {
            let m = Machine::initial(options.font@, options.quirks);
            assert(c@.vr =~= m.vr);
            assert(c@.stack =~= m.stack);
            assert(c@.memory =~= m.memory);
            assert(c@.keyboard =~= m.keyboard);
        }
        c
    }

    pub fn display(&self) -> (d: &Display)
        ensures
            d@ == self@.screen,
    {
        &self.display
    }

    /// Returns the screen's change flag and resets it.
    pub fn consume_redraw(&mut self) -> (r: bool)
        ensures
            r == old(self)@.screen.redraw,
            final(self)@ == (Machine {
                screen: crate::display::Screen { redraw: false, ..old(self)@.screen },
                ..old(self)@
            }),
            old(self).wf() ==> final(self).wf(),
    {
        self.display.consume_redraw()
    }

    pub fn program_counter(&self) -> (pc: u16)
        ensures
            pc == self@.pc,
    {
        self.pc
    }

    pub fn index_register(&self) -> (ir: u16)
        ensures
            ir == self@.ir,
    {
        self.ir
    }

    /// A copy of the registers V0 to VF.
    pub fn registers(&self) -> (vr: [u8; 16])
        ensures
            vr@ == self@.vr,
    {
        self.vr
    }

    pub fn memory(&self) -> (memory: &[u8; RAM])
        ensures
            memory@ == self@.memory,
    {
        &self.memory
    }

    /// Number of return addresses on the call stack.
    pub fn stack_depth(&self) -> (depth: usize)
        requires
            self.wf(),
        ensures
            depth == self@.stack.len(),
    {
        self.sp
    }

    pub fn delay_timer(&self) -> (t: u8)
        ensures
            t == self@.delay_timer,
    {
        self.delay_timer
    }

    pub fn sound_timer(&self) -> (t: u8)
        ensures
            t == self@.sound_timer,
    {
        self.sound_timer
    }

    /// A copy of the key states, key 0 first.
    pub fn keyboard(&self) -> (keys: [bool; 16])
        ensures
            keys@ == self@.keyboard,
    {
        self.keyboard
    }

    /// Copies `rom` into memory from the program base on. The program must
    /// fit between the base and the end of memory.
    pub fn load_rom(&mut self, rom: Vec<u8>)
        requires
            rom.len() <= RAM - PROGRAM_BASE,
        ensures
            final(self)@ == old(self)@.with_rom(rom@),
            old(self).wf() ==> final(self).wf(),
    {
        let mut i: usize = 0;
        while i < rom.len()
            invariant
                i <= rom.len(),
                rom.len() <= RAM - PROGRAM_BASE,
                *self == (Chip8 { memory: self.memory, ..*old(self) }),
                forall|a: int|
                    0 <= a < RAM ==> #[trigger] self.memory[a] == (if PROGRAM_BASE <= a
                        < PROGRAM_BASE + i {
                        rom[a - PROGRAM_BASE]
                    } else {
                        old(self).memory[a]
                    }),
            decreases rom.len() - i,
        {
            self.memory[PROGRAM_BASE as usize + i] = rom[i];
            i += 1;
        }
        assert(self@.memory =~= old(self)@.with_rom(rom@).memory);
    }

    /// Presses or releases key `key`. Returns whether there is such a key;
    /// nothing changes when there is none.
    pub fn set_key(&mut self, key: u8, pressed: bool) -> (known: bool)
        ensures
            known == (key < 16),
            final(self)@ == old(self)@.with_key(key, pressed),
            old(self).wf() ==> final(self).wf(),
    {
        if key < 16 {
            self.keyboard[key as usize] = pressed;
            assert(self@.keyboard =~= old(self)@.keyboard.update(key as int, pressed));
            true
        } else {
            false
        }
    }

    /// Takes a key event of the host keyboard: a bound key presses or
    /// releases its pad key. Returns whether the key is bound.
    pub fn input(&mut self, key: HostKey, pressed: bool) -> (handled: bool)
        ensures
            handled == (pad_key(key) is Some),
            final(self)@ == (match pad_key(key) {
                Some(k) => old(self)@.with_key(k, pressed),
                None => old(self)@,
            }),
            old(self).wf() ==> final(self).wf(),
    {
        match pad_key_of(key) {
            Some(k) => self.set_key(k, pressed),
            None => false,
        }
    }

    /// Reads the opcode at the program counter, two bytes big-endian, and
    /// moves the counter past it. Addresses wrap at the end of memory.
    pub fn fetch(&mut self) -> (opcode: u16)
        ensures
            opcode == old(self)@.opcode(),
            final(self)@ == old(self)@.fetched(),
            final(self).inv() == old(self).inv(),
            old(self).wf() ==> final(self).wf(),
    {
        let hi = self.memory[(self.pc % 4096) as usize];
        let lo = self.memory[(self.pc as usize + 1) % 4096];
        self.pc = self.pc.wrapping_add(2);
        (hi as u16) << 8 | (lo as u16)
    }
    fn set_reg(&mut self, x: usize, v: u8)
        requires
            x < 16,
        ensures
            final(self)@ == old(self)@.with_reg(x as int, v),
            final(self).inv() == old(self).inv(),
    {
        self.vr[x] = v;
        assert(self@.vr =~= old(self)@.vr.update(x as int, v));
    }

    fn set_flag(&mut self, on: bool)
        ensures
            final(self)@ == old(self)@.with_flag(on),
            final(self).inv() == old(self).inv(),
    {
        self.set_reg(
            15,
            if on {
                1
            } else {
                0
            },
        );
    }

    fn skip_if(&mut self, taken: bool)
        ensures
            final(self)@ == old(self)@.skipped(taken),
            final(self).inv() == old(self).inv(),
    {
        if taken {
            let _ = self.fetch();
        }
    }

    fn byte_at(&self, a: usize) -> (b: u8)
        ensures
            b == self@.byte_at(a as int),
    {
        self.memory[a % 4096]
    }

    fn key_down(&self, k: u8) -> (down: bool)
        ensures
            down == self@.key_down(k),
    {
        k < 16 && self.keyboard[k as usize]
    }

    fn find_key(&self) -> (k: usize)
        ensures
            k == lowest_pressed(self@.keyboard, 0),
            k <= 16,
    {
        let mut k: usize = 0;
        while k < 16 && !self.keyboard[k]
            invariant
                k <= 16,
                lowest_pressed(self@.keyboard, 0) == lowest_pressed(self@.keyboard, k as int),
            decreases 16 - k,
        {
            k += 1;
        }
        k
    }

    fn read_sprite(&self, n: usize) -> (rows: Vec<u8>)
        requires
            n < 16,
        ensures
            rows@ == self@.sprite(n as int),
    {
        let mut rows: Vec<u8> = Vec::new();
        let mut i: usize = 0;
        while i < n
            invariant
                i <= n,
                n < 16,
                rows@.len() == i,
                forall|j: int| 0 <= j < i ==> #[trigger] rows@[j] == self@.byte_at(self@.ir + j),
            decreases n - i,
        {
            rows.push(self.byte_at(self.ir as usize + i));
            i += 1;
        }
        assert(rows@ =~= self@.sprite(n as int));
        rows
    }

    fn draw_sprite(&mut self, x: usize, y: usize, n: usize)
        requires
            old(self).wf(),
            x < 16,
            y < 16,
            n < 16,
        ensures
            final(self).wf(),
            final(self)@ == old(self)@.sprite_drawn(x as int, y as int, n as int),
    {
        let rows = self.read_sprite(n);
        let collision = self.display.draw(rows.as_slice(), self.vr[x], self.vr[y]);
        self.set_flag(collision == 1);
    }

    fn store_bcd(&mut self, v: u8)
        ensures
            final(self)@ == old(self)@.bcd_stored(v),
            final(self).inv() == old(self).inv(),
    {
        let base = self.ir as usize;
        self.memory[base % 4096] = v / 100;
        self.memory[(base + 1) % 4096] = (v / 10) % 10;
        self.memory[(base + 2) % 4096] = v % 10;
        assert(self@.memory =~= old(self)@.bcd_stored(v).memory);
    }

    fn dump_registers(&mut self)
        ensures
            final(self)@ == old(self)@.dumped(),
            final(self).inv() == old(self).inv(),
    {
        let base = self.ir as usize % 4096;
        let mut i: usize = 0;
        while i < 16
            invariant
                i <= 16,
                base == cell_of(old(self).ir as int),
                *self == (Chip8 { memory: self.memory, ..*old(self) }),
                forall|a: int|
                    0 <= a < RAM ==> #[trigger] self.memory[a] == (if old(self)@.dump_slot(a) < i {
                        old(self).vr[old(self)@.dump_slot(a)]
                    } else {
                        old(self).memory[a]
                    }),
            decreases 16 - i,
        {
            self.memory[(base + i) % 4096] = self.vr[i];
            i += 1;
        }
        if self.options.quirks.dump_moves_index {
            self.ir = self.ir.wrapping_add(16);
        }
        assert(self@.memory =~= old(self)@.dumped().memory);
    }

    fn load_registers(&mut self)
        ensures
            final(self)@ == old(self)@.loaded(),
            final(self).inv() == old(self).inv(),
    {
        let base = self.ir as usize;
        let mut i: usize = 0;
        while i < 16
            invariant
                i <= 16,
                base == old(self).ir,
                *self == (Chip8 { vr: self.vr, ..*old(self) }),
                forall|j: int| 0 <= j < i ==> #[trigger] self.vr[j] == old(self)@.byte_at(base + j),
            decreases 16 - i,
        {
            self.vr[i] = self.memory[(base + i) % 4096];
            i += 1;
        }
        if self.options.quirks.dump_moves_index {
            self.ir = self.ir.wrapping_add(16);
        }
        assert(self@.vr =~= old(self)@.loaded().vr);
    }

    fn wait_key(&mut self, x: usize)
        requires
            x < 16,
        ensures
            final(self)@ == old(self)@.key_awaited(x as int),
            final(self).inv() == old(self).inv(),
    {
        let k = self.find_key();
        if k < 16 {
            self.vr[x] = k as u8;
            self.keyboard[k] = false;
            assert(self@.vr =~= old(self)@.vr.update(x as int, k as u8));
            assert(self@.keyboard =~= old(self)@.keyboard.update(k as int, false));
        } else {
            self.pc = self.pc.wrapping_sub(2);
        }
    }

    fn run_alu(&mut self, x: usize, y: usize, n: u16)
        requires
            x < 16,
            y < 16,
        ensures
            final(self)@ == old(self)@.alu(x as int, y as int, n),
            final(self).inv() == old(self).inv(),
    {
        let vx = self.vr[x];
        let vy = self.vr[y];
        if n == 0x0 {
            self.set_reg(x, vy);
        } else if n == 0x1 {
            self.set_reg(x, vx | vy);
        } else if n == 0x2 {
            self.set_reg(x, vx & vy);
        } else if n == 0x3 {
            self.set_reg(x, vx ^ vy);
        } else if n == 0x4 {
            let sum: u16 = vx as u16 + vy as u16;
            self.set_reg(x, (sum % 256) as u8);
            self.set_flag(sum > 255);
        } else if n == 0x5 {
            self.set_reg(x, vx.wrapping_sub(vy));
            self.set_flag(vx >= vy);
        } else if n == 0x6 {
            if self.options.quirks.shift_uses_copy {
                self.set_reg(x, vy);
            }
            let low = self.vr[x] & 1;
            self.set_reg(15, low);
            let copied = self.vr[x];
            self.set_reg(x, copied >> 1);
        } else if n == 0x7 {
            self.set_reg(x, vy.wrapping_sub(vx));
            self.set_flag(vy >= vx);
        } else if n == 0xE {
            if self.options.quirks.shift_uses_copy {
                self.set_reg(x, vy);
            }
            let high = (self.vr[x] & 0x80) >> 7;
            self.set_reg(15, high);
            let copied = self.vr[x];
            self.set_reg(x, copied << 1);
        }
    }

    fn run_misc(&mut self, x: usize, y: u16, n: u16)
        requires
            x < 16,
        ensures
            final(self)@ == old(self)@.misc(x as int, y, n),
            final(self).inv() == old(self).inv(),
    {
        let vx = self.vr[x];
        if y == 0x0 && n == 0x7 {
            self.set_reg(x, self.delay_timer);
        } else if y == 0x0 && n == 0xA {
            self.wait_key(x);
        } else if y == 0x1 && n == 0x5 {
            self.delay_timer = vx;
        } else if y == 0x1 && n == 0x8 {
            self.sound_timer = vx;
        } else if y == 0x1 && n == 0xE {
            let crosses = self.options.quirks.index_overflow_flag && self.ir <= 0x0FFF
                && self.ir as u32 + vx as u32 >= 0x1000;
            self.ir = self.ir.wrapping_add(vx as u16);
            if crosses {
                self.set_reg(15, 1);
            }
        } else if y == 0x2 && n == 0x9 {
            assert(vx & 0x0F <= 15) by (bit_vector);
            self.ir = FONT_BASE + ((vx & 0x0F) as u16) * 5;
        } else if y == 0x3 && n == 0x3 {
            self.store_bcd(vx);
        } else if y == 0x5 && n == 0x5 {
            self.dump_registers();
        } else if y == 0x6 && n == 0x5 {
            self.load_registers();
        }
    }

    /// Executes `opcode`, with `random` as the byte that the random
    /// instruction draws. A call on a full stack and a return on an empty one
    /// are reported and change nothing; an opcode outside the table does
    /// nothing.
    pub fn execute(&mut self, opcode: u16, random: u8) -> (r: Result<(), String>)
        requires
            old(self).wf(),
        ensures
            final(self).wf(),
            old(self)@.execute_outcome(opcode, random, final(self)@, r),
    {
        let c = class_of(opcode);
        let x = x_of(opcode);
        let y = y_of(opcode);
        let n = n_of(opcode);
        let nn = nn_of(opcode);
        let nnn = nnn_of(opcode);
        let vx = self.vr[x];
        let vy = self.vr[y];
        if c == 0x0 && x == 0 && y == 0xE && n == 0x0 {
            self.display.clear_screen();
        } else if c == 0x0 && x == 0 && y == 0xE && n == 0xE {
            if self.sp == 0 {
                return Err("Attempted to pop from empty stack.".to_owned());
            }
            self.sp = self.sp - 1;
            self.pc = self.stack[self.sp];
            assert(self@.stack =~= old(self)@.stack.drop_last());
        } else if c == 0x1 {
            self.pc = nnn;
        } else if c == 0x2 {
            if self.sp >= STACK_DEPTH {
                return Err("Stack limit reached.".to_owned());
            }
            self.stack[self.sp] = self.pc;
            self.sp = self.sp + 1;
            self.pc = nnn;
            assert(self@.stack =~= old(self)@.stack.push(old(self)@.pc));
        } else if c == 0x3 {
            self.skip_if(vx == nn);
        } else if c == 0x4 {
            self.skip_if(vx != nn);
        } else if c == 0x5 && n == 0 {
            self.skip_if(vx == vy);
        } else if c == 0x6 {
            self.set_reg(x, nn);
        } else if c == 0x7 {
            self.set_reg(x, vx.wrapping_add(nn));
        } else if c == 0x8 {
            self.run_alu(x, y, n);
        } else if c == 0x9 && n == 0 {
            self.skip_if(vx != vy);
        } else if c == 0xA {
            self.ir = nnn;
        } else if c == 0xB {
            let offset = if self.options.quirks.jump_adds_vx {
                vx
            } else {
                self.vr[0]
            };
            self.pc = nnn + offset as u16;
        } else if c == 0xC {
            self.set_reg(x, random & nn);
        } else if c == 0xD {
            self.draw_sprite(x, y, n as usize);
        } else if c == 0xE && y == 0x9 && n == 0xE {
            let down = self.key_down(vx);
            self.skip_if(down);
        } else if c == 0xE && y == 0xA && n == 0x1 {
            let down = self.key_down(vx);
            self.skip_if(!down);
        } else if c == 0xF {
            self.run_misc(x, y as u16, n);
        }
        Ok(())
    }

    /// Executes `opcode` as `execute` does, with a byte from the random
    /// generator.
    pub fn decode(&mut self, opcode: u16) -> (r: Result<(), String>)
        requires
            old(self).wf(),
        ensures
            final(self).wf(),
            exists|random: u8| old(self)@.execute_outcome(opcode, random, final(self)@, r),
    {
        let random = random_byte();
        self.execute(opcode, random)
    }

    /// Lets the timers tick if a period has passed at `now`, microseconds on
    /// the caller's clock, then fetches and executes one instruction with
    /// `random` as the random byte. After a fault the program counter stands
    /// behind the instruction that raised it.
    pub fn step(&mut self, now: u64, random: u8) -> (r: Result<(), String>)
        requires
            old(self).wf(),
        ensures
            final(self).wf(),
            old(self)@.step_outcome(now, random, final(self)@, r),
    {
        if now >= self.last_tick && now - self.last_tick >= TIMER_PERIOD {
            if self.delay_timer > 0 {
                self.delay_timer -= 1;
            }
            if self.sound_timer > 0 {
                self.sound_timer -= 1;
            }
            self.last_tick = now;
        }
        let opcode = self.fetch();
        self.execute(opcode, random)
    }

    /// One step at the current time, measured since the machine was built,
    /// with a byte from the random generator.
    pub fn run_cpu_cycle(&mut self) -> (r: Result<(), String>)
        requires
            old(self).wf(),
        ensures
            final(self).wf(),
            exists|now: u64, random: u8| old(self)@.step_outcome(now, random, final(self)@, r),
    {
        let elapsed = clock_elapsed(&self.started);
        let micros = duration_micros(&elapsed);
        let now: u64 = if micros > u64::MAX as u128 {
            u64::MAX
        } else {
            micros as u64
        };
        let random = random_byte();
        self.step(now, random)
    }
}

} // verus!
