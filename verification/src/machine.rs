//! The mathematical model of the machine: its state as plain sequences and the
//! effect of every instruction as a function from state to state.

use vstd::prelude::*;
use crate::display::Screen;
use crate::options::Quirks;

verus! {

/// Size of the address space in bytes.
pub const RAM: usize = 4096;

/// Address at which the font glyphs are stored.
pub const FONT_BASE: u16 = 0x50;

/// Address at which programs are loaded and start.
pub const PROGRAM_BASE: u16 = 0x200;

/// Number of return addresses the call stack can hold.
pub const STACK_DEPTH: usize = 16;

/// Microseconds between two timer ticks (60 Hz).
pub const TIMER_PERIOD: u64 = 16666;

/// The first nibble of an opcode, which selects the instruction family.
pub open spec fn op_class(op: u16) -> u16 {
    (op & 0xF000) >> 12
}

/// The second nibble: the register operand `x`.
pub open spec fn op_x(op: u16) -> u16 {
    (op & 0x0F00) >> 8
}

/// The third nibble: the register operand `y`.
pub open spec fn op_y(op: u16) -> u16 {
    (op & 0x00F0) >> 4
}

/// The fourth nibble: the operand `n`.
pub open spec fn op_n(op: u16) -> u16 {
    op & 0x000F
}

/// The low byte: the immediate operand `nn`.
pub open spec fn op_nn(op: u16) -> u8 {
    (op & 0x00FF) as u8
}

/// The low twelve bits: the address operand `nnn`.
pub open spec fn op_nnn(op: u16) -> u16 {
    op & 0x0FFF
}

/// The memory cell that address `a` names: addresses wrap at the end of memory.
pub open spec fn cell_of(a: int) -> int {
    a % 4096
}

/// Index of the lowest pressed key at or after `from`, or 16 if there is none.
pub open spec fn lowest_pressed(keys: Seq<bool>, from: int) -> int
    decreases 16 - from,
{
    if from >= 16 || from < 0 {
        16
    } else if keys[from] {
        from
    } else {
        lowest_pressed(keys, from + 1)
    }
}

/// Why an instruction could not be executed.
#[derive(Clone, Copy, Debug, PartialEq, Eq, Structural)]
pub enum Fault {
    /// A call was made with the call stack full.
    StackOverflow,
    /// A return was made with the call stack empty.
    StackUnderflow,
}

impl Fault {
    /// The text with which the fault is reported.
    pub open spec fn message(self) -> Seq<char> {
        match self {
            Fault::StackOverflow => "Stack limit reached."@,
            Fault::StackUnderflow => "Attempted to pop from empty stack."@,
        }
    }
}

/// State of the machine. `stack` holds the live return addresses, oldest first.
pub struct Machine {
    pub pc: u16,
    pub ir: u16,
    pub vr: Seq<u8>,
    pub stack: Seq<u16>,
    pub memory: Seq<u8>,
    pub screen: Screen,
    pub delay_timer: u8,
    pub sound_timer: u8,
    pub keyboard: Seq<bool>,
    pub last_tick: u64,
    pub quirks: Quirks,
}

impl Machine {
    pub open spec fn wf(self) -> bool {
        &&& self.vr.len() == 16
        &&& self.stack.len() <= STACK_DEPTH
        &&& self.memory.len() == RAM
        &&& self.keyboard.len() == 16
        &&& self.screen.wf()
    }

    /// The byte at address `a`.
    pub open spec fn byte_at(self, a: int) -> u8 {
        self.memory[cell_of(a)]
    }

    /// The opcode at the program counter: two bytes, big-endian.
    pub open spec fn opcode(self) -> u16 {
        (self.byte_at(self.pc as int) as u16) << 8 | (self.byte_at(self.pc + 1) as u16)
    }

    /// The program counter moved past one instruction.
    pub open spec fn advanced(self) -> Machine {
        Machine { pc: ((self.pc + 2) % 0x10000) as u16, ..self }
    }

    /// The program counter moved back by one instruction.
    pub open spec fn rewound(self) -> Machine {
        Machine { pc: ((self.pc + 0x10000 - 2) % 0x10000) as u16, ..self }
    }

    /// Skips the next instruction if `taken`.
    pub open spec fn skipped(self, taken: bool) -> Machine {
        if taken {
            self.advanced()
        } else {
            self
        }
    }

    /// Register `x` set to `v`.
    pub open spec fn with_reg(self, x: int, v: u8) -> Machine {
        Machine { vr: self.vr.update(x, v), ..self }
    }

    /// The flag register VF set to 1 if `on`, else to 0.
    pub open spec fn with_flag(self, on: bool) -> Machine {
        self.with_reg(
            15,
            if on {
                1u8
            } else {
                0u8
            },
        )
    }

    /// Whether key `k` exists and is held down.
    pub open spec fn key_down(self, k: u8) -> bool {
        k < 16 && self.keyboard[k as int]
    }

    /// What the jump with offset adds to its address: V0, or register `x`
    /// where jumps add it.
    pub open spec fn jump_offset(self, x: int) -> u8 {
        if self.quirks.jump_adds_vx {
            self.vr[x]
        } else {
            self.vr[0]
        }
    }

    /// The state after a call to `target`: the program counter is pushed.
    pub open spec fn called(self, target: u16) -> Machine {
        Machine { stack: self.stack.push(self.pc), pc: target, ..self }
    }

    /// The state after a return: the newest return address is popped.
    pub open spec fn returned(self) -> Machine {
        Machine { pc: self.stack.last(), stack: self.stack.drop_last(), ..self }
    }

    /// The timers after `now` microseconds on the caller's clock: once a
    /// period has passed since the last tick, each timer above zero loses one
    /// and the tick moves to `now`.
    pub open spec fn ticked(self, now: u64) -> Machine {
        if now >= self.last_tick && now - self.last_tick >= TIMER_PERIOD {
            Machine {
                delay_timer: if self.delay_timer > 0 {
                    (self.delay_timer - 1) as u8
                } else {
                    0
                },
                sound_timer: if self.sound_timer > 0 {
                    (self.sound_timer - 1) as u8
                } else {
                    0
                },
                last_tick: now,
                ..self
            }
        } else {
            self
        }
    }

    /// The `n` sprite rows that start at the index register.
    pub open spec fn sprite(self, n: int) -> Seq<u8> {
        Seq::new(n as nat, |i: int| self.byte_at(self.ir + i))
    }

    /// Sum of two registers modulo 256, then VF set on carry.
    pub open spec fn added(self, x: int, y: int) -> Machine {
        let sum = self.vr[x] + self.vr[y];
        self.with_reg(x, (sum % 256) as u8).with_flag(sum > 255)
    }

    /// Register `x` set to `a - b` modulo 256, then VF cleared on borrow and set otherwise.
    pub open spec fn subtracted(self, x: int, a: u8, b: u8) -> Machine {
        self.with_reg(x, ((a - b + 256) % 256) as u8).with_flag(a >= b)
    }

    /// What a shift works on: register `y` copied to `x` first, where the
    /// shifts copy.
    pub open spec fn shift_source(self, x: int, y: int) -> Machine {
        if self.quirks.shift_uses_copy {
            self.with_reg(x, self.vr[y])
        } else {
            self
        }
    }

    /// VF set to the low bit of the shift's source, then `x` shifted right.
    pub open spec fn shifted_right(self, x: int, y: int) -> Machine {
        let source = self.shift_source(x, y);
        let flagged = source.with_reg(15, source.vr[x] & 1);
        flagged.with_reg(x, flagged.vr[x] >> 1)
    }

    /// VF set to the high bit of the shift's source, then `x` shifted left.
    pub open spec fn shifted_left(self, x: int, y: int) -> Machine {
        let source = self.shift_source(x, y);
        let flagged = source.with_reg(15, (source.vr[x] & 0x80) >> 7);
        flagged.with_reg(x, flagged.vr[x] << 1)
    }

    /// The index register moved on by register `x`, modulo 65536; where the
    /// index flags its overflow, VF is set when the sum leaves the 12-bit
    /// address space from inside it.
    pub open spec fn index_added(self, x: int) -> Machine {
        let sum = self.ir + self.vr[x];
        let moved = Machine { ir: (sum % 0x10000) as u16, ..self };
        if self.quirks.index_overflow_flag && self.ir <= 0x0FFF && sum >= 0x1000 {
            moved.with_reg(15, 1)
        } else {
            moved
        }
    }

    /// The wait for a key: nothing moves while no key is down; otherwise the
    /// lowest pressed key goes to register `x`, the key is released and the
    /// program goes on.
    pub open spec fn key_awaited(self, x: int) -> Machine {
        let k = lowest_pressed(self.keyboard, 0);
        if k < 16 {
            Machine {
                vr: self.vr.update(x, k as u8),
                keyboard: self.keyboard.update(k, false),
                ..self
            }
        } else {
            self.rewound()
        }
    }

    /// The three decimal digits of `v` stored at the index register.
    pub open spec fn bcd_stored(self, v: u8) -> Machine {
        Machine {
            memory: self.memory.update(cell_of(self.ir as int), v / 100).update(
                cell_of(self.ir + 1),
                (v / 10) % 10,
            ).update(cell_of(self.ir + 2), v % 10),
            ..self
        }
    }

    /// Which register a dump at the index register writes to cell `a`, or 16 and more for none.
    pub open spec fn dump_slot(self, a: int) -> int {
        (a - cell_of(self.ir as int) + 4096) % 4096
    }

    /// Where the index register stands after a dump or a load.
    pub open spec fn index_after_block(self) -> u16 {
        if self.quirks.dump_moves_index {
            ((self.ir + 16) % 0x10000) as u16
        } else {
            self.ir
        }
    }

    /// All sixteen registers stored from the index register on.
    pub open spec fn dumped(self) -> Machine {
        Machine {
            ir: self.index_after_block(),
            memory: Seq::new(
                RAM as nat,
                |a: int|
                    if self.dump_slot(a) < 16 {
                        self.vr[self.dump_slot(a)]
                    } else {
                        self.memory[a]
                    },
            ),
            ..self
        }
    }

    /// All sixteen registers read from the index register on.
    pub open spec fn loaded(self) -> Machine {
        Machine {
            ir: self.index_after_block(),
            vr: Seq::new(16, |i: int| self.byte_at(self.ir + i)),
            ..self
        }
    }

    /// The sprite of `n` rows at the index register drawn at the position
    /// that registers `x` and `y` hold, then VF set on collision.
    pub open spec fn sprite_drawn(self, x: int, y: int, n: int) -> Machine {
        let rows = self.sprite(n);
        Machine { screen: self.screen.drawn(rows, self.vr[x], self.vr[y]), ..self }.with_flag(
            self.screen.collides(rows, self.vr[x], self.vr[y]),
        )
    }

    /// The fault that executing `op` raises, if any.
    pub open spec fn fault(self, op: u16) -> Option<Fault> {
        if op_class(op) == 0 && op_x(op) == 0 && op_y(op) == 0xE && op_n(op) == 0xE
            && self.stack.len() == 0 {
            Some(Fault::StackUnderflow)
        } else if op_class(op) == 2 && self.stack.len() >= STACK_DEPTH {
            Some(Fault::StackOverflow)
        } else {
            None
        }
    }

    /// The state after the arithmetic instruction `8xyn`.
    pub open spec fn alu(self, x: int, y: int, n: u16) -> Machine {
        let vx = self.vr[x];
        let vy = self.vr[y];
        if n == 0x0 {
            self.with_reg(x, vy)
        } else if n == 0x1 {
            self.with_reg(x, vx | vy)
        } else if n == 0x2 {
            self.with_reg(x, vx & vy)
        } else if n == 0x3 {
            self.with_reg(x, vx ^ vy)
        } else if n == 0x4 {
            self.added(x, y)
        } else if n == 0x5 {
            self.subtracted(x, vx, vy)
        } else if n == 0x6 {
            self.shifted_right(x, y)
        } else if n == 0x7 {
            self.subtracted(x, vy, vx)
        } else if n == 0xE {
            self.shifted_left(x, y)
        } else {
            self
        }
    }

    /// The state after the instruction `Fxkk`, where `kk` is `y` and `n`.
    pub open spec fn misc(self, x: int, y: u16, n: u16) -> Machine {
        let vx = self.vr[x];
        if y == 0x0 && n == 0x7 {
            self.with_reg(x, self.delay_timer)
        } else if y == 0x0 && n == 0xA {
            self.key_awaited(x)
        } else if y == 0x1 && n == 0x5 {
            Machine { delay_timer: vx, ..self }
        } else if y == 0x1 && n == 0x8 {
            Machine { sound_timer: vx, ..self }
        } else if y == 0x1 && n == 0xE {
            self.index_added(x)
        } else if y == 0x2 && n == 0x9 {
            Machine { ir: (FONT_BASE + (vx & 0x0F) * 5) as u16, ..self }
        } else if y == 0x3 && n == 0x3 {
            self.bcd_stored(vx)
        } else if y == 0x5 && n == 0x5 {
            self.dumped()
        } else if y == 0x6 && n == 0x5 {
            self.loaded()
        } else {
            self
        }
    }

    /// The state after executing `op`, where it raises no fault. `random` is
    /// the byte that the random instruction draws. Opcodes outside the table
    /// change nothing.
    pub open spec fn executed(self, op: u16, random: u8) -> Machine {
        let c = op_class(op);
        let x = op_x(op) as int;
        let y = op_y(op) as int;
        let n = op_n(op);
        let nn = op_nn(op);
        let nnn = op_nnn(op);
        let vx = self.vr[x];
        let vy = self.vr[y];
        if c == 0x0 && x == 0 && y == 0xE && n == 0x0 {
            Machine { screen: self.screen.cleared(), ..self }
        } else if c == 0x0 && x == 0 && y == 0xE && n == 0xE {
            self.returned()
        } else if c == 0x1 {
            Machine { pc: nnn, ..self }
        } else if c == 0x2 {
            self.called(nnn)
        } else if c == 0x3 {
            self.skipped(vx == nn)
        } else if c == 0x4 {
            self.skipped(vx != nn)
        } else if c == 0x5 && n == 0 {
            self.skipped(vx == vy)
        } else if c == 0x6 {
            self.with_reg(x, nn)
        } else if c == 0x7 {
            self.with_reg(x, ((vx + nn) % 256) as u8)
        } else if c == 0x8 {
            self.alu(x, y, n)
        } else if c == 0x9 && n == 0 {
            self.skipped(vx != vy)
        } else if c == 0xA {
            Machine { ir: nnn, ..self }
        } else if c == 0xB {
            Machine { pc: (nnn + self.jump_offset(x)) as u16, ..self }
        } else if c == 0xC {
            self.with_reg(x, random & nn)
        } else if c == 0xD {
            self.sprite_drawn(x, y, n as int)
        } else if c == 0xE && y == 0x9 && n == 0xE {
            self.skipped(self.key_down(vx))
        } else if c == 0xE && y == 0xA && n == 0x1 {
            self.skipped(!self.key_down(vx))
        } else if c == 0xF {
            self.misc(x, y as u16, n)
        } else {
            self
        }
    }

    /// The state after fetching at the program counter.
    pub open spec fn fetched(self) -> Machine {
        self.advanced()
    }

    /// The machine as it is built: the font at its base, the program counter
    /// at the program base, everything else zero, and a blank screen flagged
    /// for a first repaint.
    pub open spec fn initial(font: Seq<u8>, quirks: Quirks) -> Machine {
        Machine {
            pc: PROGRAM_BASE,
            ir: 0,
            vr: Seq::new(16, |i: int| 0u8),
            stack: Seq::empty(),
            memory: Seq::new(
                RAM as nat,
                |a: int|
                    if FONT_BASE <= a < FONT_BASE + font.len() {
                        font[a - FONT_BASE]
                    } else {
                        0u8
                    },
            ),
            screen: Screen { grid: Screen::blank_grid(), width: 64, height: 32, redraw: true },
            delay_timer: 0,
            sound_timer: 0,
            keyboard: Seq::new(16, |i: int| false),
            last_tick: 0,
            quirks,
        }
    }

    /// Memory with `rom` copied in from the program base on.
    pub open spec fn with_rom(self, rom: Seq<u8>) -> Machine {
        Machine {
            memory: Seq::new(
                RAM as nat,
                |a: int|
                    if PROGRAM_BASE <= a < PROGRAM_BASE + rom.len() {
                        rom[a - PROGRAM_BASE]
                    } else {
                        self.memory[a]
                    },
            ),
            ..self
        }
    }

    /// Key `key` set to `pressed`; keys past the sixteenth do not exist.
    pub open spec fn with_key(self, key: u8, pressed: bool) -> Machine {
        if key < 16 {
            Machine { keyboard: self.keyboard.update(key as int, pressed), ..self }
        } else {
            self
        }
    }

    /// Whether `r` and `after` are the outcome of executing `op` in state
    /// `self` with `random` as the random byte: a fault is reported by its
    /// message and changes nothing.
    pub open spec fn execute_outcome(
        self,
        op: u16,
        random: u8,
        after: Machine,
        r: Result<(), String>,
    ) -> bool {
        match r {
            Ok(_) => self.fault(op) is None && after == self.executed(op, random),
            Err(e) => self.fault(op) matches Some(f) && e@ == f.message() && after == self,
        }
    }

    /// Whether `r` and `after` are the outcome of one step at time `now`:
    /// the timers tick, the opcode at the program counter is fetched, then
    /// executed.
    pub open spec fn step_outcome(
        self,
        now: u64,
        random: u8,
        after: Machine,
        r: Result<(), String>,
    ) -> bool {
        let ready = self.ticked(now);
        ready.fetched().execute_outcome(ready.opcode(), random, after, r)
    }
}

impl Machine {
    /// The state after a run of nested calls: for each site in turn, the
    /// program counter stands at the site's return address (the first of the
    /// pair) and the call goes to its target (the second).
    pub open spec fn calls(self, sites: Seq<(u16, u16)>) -> Machine
        decreases sites.len(),
    {
        if sites.len() == 0 {
            self
        } else {
            Machine { pc: sites.last().0, ..self.calls(sites.drop_last()) }.called(sites.last().1)
        }
    }

    /// The state after `count` returns in a row.
    pub open spec fn unwound(self, count: nat) -> Machine
        decreases count,
    {
        if count == 0 {
            self
        } else {
            self.returned().unwound((count - 1) as nat)
        }
    }
}

/// The operand fields of an opcode are nibbles, and the address twelve bits.
pub proof fn lemma_fields_in_range(op: u16)
    ensures
        op_class(op) < 16,
        op_x(op) < 16,
        op_y(op) < 16,
        op_n(op) < 16,
        op_nnn(op) <= 0x0FFF,
{
    assert((op & 0xF000) >> 12 < 16) by (bit_vector);
    assert((op & 0x0F00) >> 8 < 16) by (bit_vector);
    assert((op & 0x00F0) >> 4 < 16) by (bit_vector);
    assert(op & 0x000F < 16) by (bit_vector);
    assert(op & 0x0FFF <= 0x0FFF) by (bit_vector);
}

/// The fields of an opcode as digits: the class is the first hexadecimal
/// digit, `x` the second, `y` the third and `n` the last; `nn` is the low
/// two digits and `nnn` the low three.
pub proof fn lemma_fields_are_digits(op: u16)
    ensures
        op_class(op) == op / 4096,
        op_x(op) == (op / 256) % 16,
        op_y(op) == (op / 16) % 16,
        op_n(op) == op % 16,
        op_nn(op) == op % 256,
        op_nnn(op) == op % 4096,
        op == op_class(op) * 4096 + op_x(op) * 256 + op_y(op) * 16 + op_n(op),
{
    assert((op & 0xF000) >> 12 == op / 4096) by (bit_vector);
    assert((op & 0x0F00) >> 8 == (op / 256) % 16) by (bit_vector);
    assert((op & 0x00F0) >> 4 == (op / 16) % 16) by (bit_vector);
    assert(op & 0x000F == op % 16) by (bit_vector);
    assert(op & 0x00FF == op % 256) by (bit_vector);
    assert(op & 0x0FFF == op % 4096) by (bit_vector);
    assert(op == ((op & 0xF000) >> 12) * 4096 + ((op & 0x0F00) >> 8) * 256 + ((op & 0x00F0) >> 4)
        * 16 + (op & 0x000F)) by (bit_vector);
}

/// The opcode at the program counter is 256 times the byte there plus the
/// byte behind it.
pub proof fn lemma_opcode_is_big_endian(m: Machine)
    ensures
        m.opcode() == m.byte_at(m.pc as int) * 256 + m.byte_at(m.pc + 1),
{
    let hi = m.byte_at(m.pc as int);
    let lo = m.byte_at(m.pc + 1);
    assert((hi as u16) << 8 | (lo as u16) == (hi as u16) * 256 + (lo as u16)) by (bit_vector);
}

/// What the bit operations of the shifts and of the glyph address compute:
/// the low bit is the remainder by 2 and the high bit the quotient by 128, a
/// shift right halves, a shift left doubles modulo 256, and the glyph digit
/// is the remainder by 16.
pub proof fn lemma_bit_operations(v: u8)
    ensures
        v & 1 == v % 2,
        (v & 0x80) >> 7 == v / 128,
        v >> 1 == v / 2,
        v << 1 == (v * 2) % 256,
        v & 0x0F == v % 16,
{
    assert(v & 1 == v % 2) by (bit_vector);
    assert((v & 0x80) >> 7 == v / 128) by (bit_vector);
    assert(v >> 1 == v / 2) by (bit_vector);
    assert(v << 1 == (v as u16 * 2) % 256) by (bit_vector);
    assert(v & 0x0F == v % 16) by (bit_vector);
}

/// `lowest_pressed` finds the first pressed key from `from` on: it is
/// pressed, no key between `from` and it is, and the result is 16 exactly when
/// none is pressed.
pub proof fn lemma_lowest_pressed(keys: Seq<bool>, from: int)
    requires
        0 <= from <= 16,
    ensures
        from <= lowest_pressed(keys, from) <= 16,
        lowest_pressed(keys, from) < 16 ==> keys[lowest_pressed(keys, from)],
        forall|j: int| from <= j < lowest_pressed(keys, from) ==> !#[trigger] keys[j],
    decreases 16 - from,
{
    if from < 16 && !keys[from] {
        lemma_lowest_pressed(keys, from + 1);
    }
}

/// Executing an instruction keeps a valid machine valid.
pub proof fn lemma_executed_wf(m: Machine, op: u16, random: u8)
    requires
        m.wf(),
        m.fault(op) is None,
    ensures
        m.executed(op, random).wf(),
{
    lemma_fields_in_range(op);
    lemma_lowest_pressed(m.keyboard, 0);
    crate::display::lemma_cleared_is_blank(m.screen);
    let x = op_x(op) as int;
    let y = op_y(op) as int;
    crate::display::lemma_drawn_wf(m.screen, m.sprite(op_n(op) as int), m.vr[x], m.vr[y]);
}

/// The add instruction `8xy4` sets VF to 1 exactly when the sum of the two
/// registers exceeds 255, and otherwise to 0; any other target register
/// receives the sum modulo 256.
pub proof fn lemma_add_sets_carry(m: Machine, op: u16, random: u8)
    requires
        m.wf(),
        op_class(op) == 8,
        op_n(op) == 4,
    ensures
        m.fault(op) is None,
        m.executed(op, random).vr[15] == (if m.vr[op_x(op) as int] + m.vr[op_y(op) as int] > 255 {
            1u8
        } else {
            0u8
        }),
        op_x(op) != 15 ==> m.executed(op, random).vr[op_x(op) as int] == (m.vr[op_x(op) as int]
            + m.vr[op_y(op) as int]) % 256,
{
    lemma_fields_in_range(op);
}

/// The subtract instruction `8xy5` sets VF to 0 exactly when the first
/// register is less than the second (a borrow), and otherwise to 1; any other
/// target register receives the difference modulo 256.
pub proof fn lemma_sub_clears_on_borrow(m: Machine, op: u16, random: u8)
    requires
        m.wf(),
        op_class(op) == 8,
        op_n(op) == 5,
    ensures
        m.fault(op) is None,
        m.executed(op, random).vr[15] == (if m.vr[op_x(op) as int] < m.vr[op_y(op) as int] {
            0u8
        } else {
            1u8
        }),
        op_x(op) != 15 ==> m.executed(op, random).vr[op_x(op) as int] == (m.vr[op_x(op) as int]
            - m.vr[op_y(op) as int]) % 256,
{
    lemma_fields_in_range(op);
}

/// The call instruction pushes the program counter and jumps, unless the
/// stack is full, which is a stack overflow.
pub proof fn lemma_call_pushes(m: Machine, op: u16, random: u8)
    requires
        m.wf(),
        op_class(op) == 2,
    ensures
        m.stack.len() < STACK_DEPTH ==> m.fault(op) is None && m.executed(op, random) == m.called(
            op_nnn(op),
        ),
        m.stack.len() == STACK_DEPTH ==> m.fault(op) == Some(Fault::StackOverflow),
{
    lemma_fields_in_range(op);
}

/// The return instruction `00EE` pops into the program counter, unless the
/// stack is empty, which is a stack underflow.
pub proof fn lemma_return_pops(m: Machine, random: u8)
    requires
        m.wf(),
    ensures
        m.stack.len() > 0 ==> m.fault(0x00EE) is None && m.executed(0x00EE, random)
            == m.returned(),
        m.stack.len() == 0 ==> m.fault(0x00EE) == Some(Fault::StackUnderflow),
{
    assert((0x00EEu16 & 0xF000) >> 12 == 0) by (bit_vector);
    assert((0x00EEu16 & 0x0F00) >> 8 == 0) by (bit_vector);
    assert((0x00EEu16 & 0x00F0) >> 4 == 0xE) by (bit_vector);
    assert(0x00EEu16 & 0x000F == 0xE) by (bit_vector);
}

/// A return undoes a call: the program counter is back behind the call and
/// the stack is as before.
pub proof fn lemma_call_then_return(m: Machine, target: u16)
    ensures
        m.called(target).returned() == m,
{
    assert(m.called(target).returned().stack =~= m.stack);
}

/// Calls and returns form a stack. Nested calls grow the stack by one each;
/// the `count`-th return after them leaves the program counter at the return
/// address of the `count`-th newest call, with the stack as it was before
/// that call. After as many returns as calls the stack is as at the start.
pub proof fn lemma_returns_unwind_calls(m: Machine, sites: Seq<(u16, u16)>, count: nat)
    requires
        1 <= count <= sites.len(),
    ensures
        m.calls(sites).stack.len() == m.stack.len() + sites.len(),
        m.calls(sites).unwound(count).pc == sites[sites.len() - count].0,
        m.calls(sites).unwound(count).stack == m.calls(sites.take(sites.len() - count)).stack,
        count == sites.len() ==> m.calls(sites).unwound(count).stack == m.stack,
    decreases count,
{
    let rest = sites.drop_last();
    let inner = m.calls(rest);
    lemma_calls_depth(m, sites);
    assert(m.calls(sites).returned().stack =~= inner.stack);
    assert(m.calls(sites).returned() == Machine { pc: sites.last().0, ..inner });
    if count == 1 {
        assert(m.calls(sites).unwound(1) == m.calls(sites).returned().unwound(0));
        assert(sites.take(sites.len() - 1) =~= rest);
    } else {
        let first = m.calls(sites).returned();
        assert(first.returned() == inner.returned());
        assert(m.calls(sites).unwound(count) == first.unwound((count - 1) as nat));
        assert(first.unwound((count - 1) as nat) == first.returned().unwound((count - 2) as nat));
        assert(inner.unwound((count - 1) as nat) == inner.returned().unwound((count - 2) as nat));
        lemma_returns_unwind_calls(m, rest, (count - 1) as nat);
        assert(rest.take(rest.len() - (count - 1)) =~= sites.take(sites.len() - count));
    }
    if count == sites.len() {
        assert(sites.take(0).len() == 0);
    }
}

/// Each nested call grows the stack by one.
pub proof fn lemma_calls_depth(m: Machine, sites: Seq<(u16, u16)>)
    ensures
        m.calls(sites).stack.len() == m.stack.len() + sites.len(),
    decreases sites.len(),
{
    if sites.len() > 0 {
        lemma_calls_depth(m, sites.drop_last());
    }
}

/// A register dump followed by a register load at the same index address
/// gives every register the value it had.
pub proof fn lemma_dump_then_load(m: Machine)
    requires
        m.wf(),
    ensures
        (Machine { ir: m.ir, ..m.dumped() }).loaded().vr == m.vr,
        !m.quirks.dump_moves_index ==> m.dumped().loaded() == m.dumped(),
{
    let d = Machine { ir: m.ir, ..m.dumped() };
    assert forall|i: int| 0 <= i < 16 implies #[trigger] d.loaded().vr[i] == m.vr[i] by {
        assert(m.dump_slot(cell_of(m.ir + i)) == i);
    }
    assert(d.loaded().vr =~= m.vr);
}

/// The opcodes `Fx55` and `Fx65` are the register dump and the register load.
pub proof fn lemma_dump_load_opcodes(m: Machine, op: u16, random: u8)
    requires
        m.wf(),
        op_class(op) == 0xF,
        op_n(op) == 5,
    ensures
        m.fault(op) is None,
        op_y(op) == 5 ==> m.executed(op, random) == m.dumped(),
        op_y(op) == 6 ==> m.executed(op, random) == m.loaded(),
{
    lemma_fields_in_range(op);
}

} // verus!
