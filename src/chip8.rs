//! The CHIP-8 machine state and its executor.
use vstd::prelude::*;

use crate::opcode::{decode, from_value, Opcode};

verus! {

/// Bytes of memory.
pub const MEMORY_SIZE: usize = 4096;

/// Address at which programs are loaded and execution starts.
pub const PROGRAM_START: usize = 0x200;

/// Screen width and height in pixels.
pub const SCREEN_WIDTH: usize = 64;

pub const SCREEN_HEIGHT: usize = 32;

/// Cells of the framebuffer.
pub const SCREEN_SIZE: usize = 2048;

/// Slots of the call stack.
pub const STACK_SIZE: usize = 16;

/// The mathematical model of a machine: every field as an integer or a
/// sequence.
pub ghost struct Machine {
    pub memory: Seq<u8>,
    pub v: Seq<u8>,
    pub i: int,
    pub pc: int,
    pub screen: Seq<bool>,
    pub delay_timer: int,
    pub sound_timer: int,
    pub stack: Seq<u16>,
    pub sp: int,
    pub keys: Seq<bool>,
}

/// The built-in hexadecimal font: five rows for each glyph `0` to `F`.
pub open spec fn font() -> Seq<u8> {
    seq![
        0xF0u8, 0x90, 0x90, 0x90, 0xF0, 0x20, 0x60, 0x20, 0x20, 0x70,
        0xF0, 0x10, 0xF0, 0x80, 0xF0, 0xF0, 0x10, 0xF0, 0x10, 0xF0,
        0x90, 0x90, 0xF0, 0x10, 0x10, 0xF0, 0x80, 0xF0, 0x10, 0xF0,
        0xF0, 0x80, 0xF0, 0x90, 0xF0, 0xF0, 0x10, 0x20, 0x40, 0x40,
        0xF0, 0x90, 0xF0, 0x90, 0xF0, 0xF0, 0x90, 0xF0, 0x10, 0xF0,
        0xF0, 0x90, 0xF0, 0x90, 0x90, 0xE0, 0x90, 0xE0, 0x90, 0xE0,
        0xF0, 0x80, 0x80, 0x80, 0xF0, 0xE0, 0x90, 0x90, 0x90, 0xE0,
        0xF0, 0x80, 0xF0, 0x80, 0xF0, 0xF0, 0x80, 0xF0, 0x80, 0x80,
    ]
}

impl Machine {
    /// The fixed sizes hold, the stack pointer is within the stack and the
    /// address register within memory.
    pub open spec fn wf(self) -> bool {
        &&& self.memory.len() == MEMORY_SIZE
        &&& self.v.len() == 16
        &&& self.screen.len() == SCREEN_SIZE
        &&& self.stack.len() == STACK_SIZE
        &&& self.keys.len() == 16
        &&& 0 <= self.sp <= STACK_SIZE
        &&& 0 <= self.i < MEMORY_SIZE
        &&& 0 <= self.pc <= u16::MAX
        &&& 0 <= self.delay_timer <= u8::MAX
        &&& 0 <= self.sound_timer <= u8::MAX
    }

    /// A machine with every field zero.
    pub open spec fn zeroed() -> Machine {
        Machine {
            memory: Seq::new(MEMORY_SIZE as nat, |k: int| 0u8),
            v: Seq::new(16, |k: int| 0u8),
            i: 0,
            pc: 0,
            screen: Seq::new(SCREEN_SIZE as nat, |k: int| false),
            delay_timer: 0,
            sound_timer: 0,
            stack: Seq::new(STACK_SIZE as nat, |k: int| 0u16),
            sp: 0,
            keys: Seq::new(16, |k: int| false),
        }
    }

    /// The machine at power-on: zeroed, the font at the start of memory and
    /// the program counter at the program start.
    pub open spec fn power_on() -> Machine {
        Machine {
            memory: Seq::new(
                MEMORY_SIZE as nat,
                |k: int|
                    if k < 80 {
                        font()[k]
                    } else {
                        0u8
                    },
            ),
            pc: PROGRAM_START as int,
            ..Machine::zeroed()
        }
    }

    /// Memory with `bytes` copied in at the program start.
    pub open spec fn with_program(self, bytes: Seq<u8>) -> Machine {
        Machine {
            memory: Seq::new(
                MEMORY_SIZE as nat,
                |k: int|
                    if PROGRAM_START <= k < PROGRAM_START + bytes.len() {
                        bytes[k - PROGRAM_START]
                    } else {
                        self.memory[k]
                    },
            ),
            ..self
        }
    }
}

/// Why a cycle could not run.
#[derive(Clone, Copy, Debug, PartialEq, Eq, Structural)]
pub enum Fault {
    /// The word at the program counter is no instruction: the word, then
    /// the program counter.
    UnknownOpcode(u16, u16),
    /// A memory access past the end of memory, a call with a full stack or
    /// a return with an empty one, or a key id above `0xF`.
    OutOfBounds,
}

/// What one cycle did.
#[derive(Clone, Copy, Debug, PartialEq, Eq, Structural)]
pub enum CycleOutcome {
    /// The instruction ran.
    Continue,
    /// The instruction ran and the sound timer reached zero.
    Beeped,
    /// Nothing ran and nothing changed.
    Fault(Fault),
}

/// Bit `c` of a sprite row, counted from the most significant bit.
pub open spec fn sprite_bit(b: u8, c: int) -> bool {
    (b & (0x80u8 >> (c as u8))) != 0
}

/// The lowest key id at or above `k` whose key is held.
pub open spec fn first_held(keys: Seq<bool>, k: int) -> Option<int>
    decreases 16 - k,
{
    if k >= 16 || k < 0 {
        None
    } else if keys[k] {
        Some(k)
    } else {
        first_held(keys, k + 1)
    }
}

impl Machine {
    pub open spec fn reg(self, x: u8) -> int {
        self.v[x as int] as int
    }

    pub open spec fn advance(self, n: int) -> Machine {
        Machine { pc: self.pc + n, ..self }
    }

    /// Skips the next instruction where `c` holds.
    pub open spec fn skip_if(self, c: bool) -> Machine {
        self.advance(
            if c {
                4
            } else {
                2
            },
        )
    }

    pub open spec fn set_reg(self, x: int, b: u8) -> Machine {
        Machine { v: self.v.update(x, b), ..self }
    }

    /// Writes `b` into register `x`, then the flag `f` into `VF`.
    pub open spec fn set_with_flag(self, x: u8, b: int, f: bool) -> Machine {
        self.set_reg(x as int, b as u8).set_reg(
            0xf,
            if f {
                1
            } else {
                0
            },
        ).advance(2)
    }

    /// Whether the sprite drawn by `Draw(x, y, n)` covers screen cell `k`
    /// with a set bit. Cells past the right or bottom edge are not drawn.
    pub open spec fn drawn(self, x: u8, y: u8, n: u8, k: int) -> bool {
        let px = k % (SCREEN_WIDTH as int);
        let py = k / (SCREEN_WIDTH as int);
        let vx = self.reg(x);
        let vy = self.reg(y);
        &&& vx <= px < vx + 8
        &&& vy <= py < vy + n
        &&& sprite_bit(self.memory[self.i + py - vy], px - vx)
    }

    /// Whether `Draw(x, y, n)` clears a set pixel.
    pub open spec fn collides(self, x: u8, y: u8, n: u8) -> bool {
        exists|k: int| 0 <= k < SCREEN_SIZE && #[trigger] self.drawn(x, y, n, k) && self.screen[k]
    }

    /// The machine after `op`, with `rnd` as the random byte; `None` where
    /// `op` would reach past memory, the stack or the keypad.
    ///
    /// Conventions, fixed here for every instruction:
    /// - a call pushes the address of the next instruction, and a return
    ///   jumps to the address popped;
    /// - subtractions set `VF` to 1 where no borrow occurs, 0 where one does;
    /// - shifts read `VY`, write `VX`, and put the bit shifted out in `VF`;
    /// - `VF` is written after `VX`, so the flag wins where `X` is `F`;
    /// - a sprite is clipped at the right and bottom edges of the screen;
    /// - the address register wraps within memory when added to;
    /// - waiting for a key leaves the program counter where it is.
    pub open spec fn apply(self, op: Opcode, rnd: u8) -> Option<Machine> {
        match op {
            Opcode::MachineCode(_) => Some(self.advance(2)),
            Opcode::ClearScreen => Some(
                Machine { screen: Seq::new(SCREEN_SIZE as nat, |k: int| false), ..self }.advance(
                    2,
                ),
            ),
            Opcode::ReturnFromSub => if self.sp == 0 {
                None
            } else {
                Some(Machine { sp: self.sp - 1, pc: self.stack[self.sp - 1] as int, ..self })
            },
            Opcode::Goto(a) => Some(Machine { pc: a as int, ..self }),
            Opcode::CallSub(a) => if self.sp >= STACK_SIZE {
                None
            } else {
                Some(
                    Machine {
                        stack: self.stack.update(self.sp, (self.pc + 2) as u16),
                        sp: self.sp + 1,
                        pc: a as int,
                        ..self
                    },
                )
            },
            Opcode::SkipEQ(x, c) => Some(self.skip_if(self.reg(x) == c)),
            Opcode::SkipNEQ(x, c) => Some(self.skip_if(self.reg(x) != c)),
            Opcode::SkipRegEQ(x, y) => Some(self.skip_if(self.reg(x) == self.reg(y))),
            Opcode::SkipRegNEQ(x, y) => Some(self.skip_if(self.reg(x) != self.reg(y))),
            Opcode::SetConst(x, c) => Some(self.set_reg(x as int, c).advance(2)),
            Opcode::AddConst(x, c) => Some(
                self.set_reg(x as int, ((self.reg(x) + c) % 256) as u8).advance(2),
            ),
            Opcode::SetReg(x, y) => Some(self.set_reg(x as int, self.v[y as int]).advance(2)),
            Opcode::Or(x, y) => Some(
                self.set_reg(x as int, self.v[x as int] | self.v[y as int]).advance(2),
            ),
            Opcode::And(x, y) => Some(
                self.set_reg(x as int, self.v[x as int] & self.v[y as int]).advance(2),
            ),
            Opcode::Xor(x, y) => Some(
                self.set_reg(x as int, self.v[x as int] ^ self.v[y as int]).advance(2),
            ),
            Opcode::AddReg(x, y) => Some(
                self.set_with_flag(
                    x,
                    (self.reg(x) + self.reg(y)) % 256,
                    self.reg(x) + self.reg(y) >= 256,
                ),
            ),
            Opcode::SubReg(x, y) => Some(
                self.set_with_flag(
                    x,
                    (self.reg(x) - self.reg(y)) % 256,
                    self.reg(x) >= self.reg(y),
                ),
            ),
            Opcode::Div2(x, y) => Some(self.set_with_flag(x, self.reg(y) / 2, self.reg(y) % 2 == 1)),
            Opcode::DiffReg(x, y) => Some(
                self.set_with_flag(
                    x,
                    (self.reg(y) - self.reg(x)) % 256,
                    self.reg(y) >= self.reg(x),
                ),
            ),
            Opcode::Mul2(x, y) => Some(
                self.set_with_flag(x, (self.reg(y) * 2) % 256, self.reg(y) >= 128),
            ),
            Opcode::SetAR(a) => Some(Machine { i: a as int, ..self }.advance(2)),
            Opcode::Jump(a) => Some(Machine { pc: a + self.reg(0), ..self }),
            Opcode::Rand(x, c) => Some(self.set_reg(x as int, rnd & c).advance(2)),
            Opcode::Draw(x, y, n) => if self.i + n > MEMORY_SIZE {
                None
            } else {
                Some(
                    Machine {
                        screen: Seq::new(
                            SCREEN_SIZE as nat,
                            |k: int| self.screen[k] != self.drawn(x, y, n, k),
                        ),
                        ..self
                    }.set_reg(
                        0xf,
                        if self.collides(x, y, n) {
                            1
                        } else {
                            0
                        },
                    ).advance(2),
                )
            },
            Opcode::KeyEQ(x) => if self.reg(x) >= 16 {
                None
            } else {
                Some(self.skip_if(self.keys[self.reg(x)]))
            },
            Opcode::KeyNEQ(x) => if self.reg(x) >= 16 {
                None
            } else {
                Some(self.skip_if(!self.keys[self.reg(x)]))
            },
            Opcode::GetDelayTimer(x) => Some(
                self.set_reg(x as int, self.delay_timer as u8).advance(2),
            ),
            Opcode::GetKey(x) => match first_held(self.keys, 0) {
                Some(k) => Some(self.set_reg(x as int, k as u8).advance(2)),
                None => Some(self),
            },
            Opcode::SetDelayTimer(x) => Some(
                Machine { delay_timer: self.reg(x), ..self }.advance(2),
            ),
            Opcode::SetSoundTimer(x) => Some(
                Machine { sound_timer: self.reg(x), ..self }.advance(2),
            ),
            Opcode::AddToI(x) => Some(
                Machine { i: (self.i + self.reg(x)) % (MEMORY_SIZE as int), ..self }.advance(2),
            ),
            Opcode::SetISprite(x) => Some(Machine { i: self.reg(x) * 5, ..self }.advance(2)),
            Opcode::BCD(x) => if self.i + 2 >= MEMORY_SIZE {
                None
            } else {
                Some(
                    Machine {
                        memory: self.memory.update(self.i, (self.reg(x) / 100) as u8).update(
                            self.i + 1,
                            ((self.reg(x) / 10) % 10) as u8,
                        ).update(self.i + 2, (self.reg(x) % 10) as u8),
                        ..self
                    }.advance(2),
                )
            },
            Opcode::RegDump(x) => if self.i + x >= MEMORY_SIZE {
                None
            } else {
                Some(
                    Machine {
                        memory: Seq::new(
                            MEMORY_SIZE as nat,
                            |k: int|
                                if self.i <= k <= self.i + x {
                                    self.v[k - self.i]
                                } else {
                                    self.memory[k]
                                },
                        ),
                        ..self
                    }.advance(2),
                )
            },
            Opcode::RegLoad(x) => if self.i + x >= MEMORY_SIZE {
                None
            } else {
                Some(
                    Machine {
                        v: Seq::new(
                            16,
                            |k: int|
                                if k <= x {
                                    self.memory[self.i + k]
                                } else {
                                    self.v[k]
                                },
                        ),
                        ..self
                    }.advance(2),
                )
            },
        }
    }

    /// Well-formed, with a whole instruction word at the program counter.
    pub open spec fn ready(self) -> bool {
        self.wf() && self.pc + 1 < MEMORY_SIZE
    }

    /// `r` and `after` are what running `op` on `self` gives: the new
    /// machine, or `OutOfBounds` with the machine unchanged.
    pub open spec fn runs_to(self, op: Opcode, rnd: u8, r: Result<(), Fault>, after: Machine) -> bool {
        match self.apply(op, rnd) {
            Some(m) => r is Ok && after == m,
            None => r == Err::<(), Fault>(Fault::OutOfBounds) && after == self,
        }
    }

    /// The instruction word at the program counter, big-endian.
    pub open spec fn fetch(self) -> u16 {
        (self.memory[self.pc] * 256 + self.memory[self.pc + 1]) as u16
    }

    /// Both timers count down by one, stopping at zero; the cycle beeps
    /// where the sound timer goes from one to zero.
    pub open spec fn tick(self) -> (Machine, CycleOutcome) {
        (
            Machine {
                delay_timer: if self.delay_timer > 0 {
                    self.delay_timer - 1
                } else {
                    0
                },
                sound_timer: if self.sound_timer > 0 {
                    self.sound_timer - 1
                } else {
                    0
                },
                ..self
            },
            if self.sound_timer == 1 {
                CycleOutcome::Beeped
            } else {
                CycleOutcome::Continue
            },
        )
    }

    /// One cycle: fetch, decode, execute with `rnd` as the random byte,
    /// then tick the timers. A fault leaves the machine as it was.
    pub open spec fn step(self, rnd: u8) -> (Machine, CycleOutcome) {
        if self.pc + 1 >= MEMORY_SIZE {
            (self, CycleOutcome::Fault(Fault::OutOfBounds))
        } else {
            match decode(self.fetch()) {
                None => (self, CycleOutcome::Fault(Fault::UnknownOpcode(self.fetch(), self.pc as u16))),
                Some(op) => match self.apply(op, rnd) {
                    None => (self, CycleOutcome::Fault(Fault::OutOfBounds)),
                    Some(m) => m.tick(),
                },
            }
        }
    }
}

/// Whether screen cell `k` lies before sprite position `(row, col)` in the
/// order in which `Draw(x, _, _)` visits the sprite.
spec fn visited(s: Machine, x: u8, y: u8, k: int, row: int, col: int) -> bool {
    let r = k / (SCREEN_WIDTH as int) - s.reg(y);
    let c = k % (SCREEN_WIDTH as int) - s.reg(x);
    r < row || (r == row && c < col)
}

/// The screen once the sprite has been drawn up to `(row, col)`.
spec fn screen_upto(s: Machine, x: u8, y: u8, n: u8, row: int, col: int) -> Seq<bool> {
    Seq::new(
        SCREEN_SIZE as nat,
        |k: int| s.screen[k] != (s.drawn(x, y, n, k) && visited(s, x, y, k, row, col)),
    )
}

spec fn hit(s: Machine, x: u8, y: u8, n: u8, row: int, col: int, k: int) -> bool {
    s.drawn(x, y, n, k) && visited(s, x, y, k, row, col) && s.screen[k]
}

/// Whether a set pixel was cleared before `(row, col)`.
spec fn collides_upto(s: Machine, x: u8, y: u8, n: u8, row: int, col: int) -> bool {
    exists|k: int| 0 <= k < SCREEN_SIZE && #[trigger] hit(s, x, y, n, row, col, k)
}

proof fn lemma_cell(px: int, py: int)
    requires
        0 <= px < SCREEN_WIDTH,
        0 <= py < SCREEN_HEIGHT,
    ensures
        0 <= px + py * SCREEN_WIDTH < SCREEN_SIZE,
        (px + py * SCREEN_WIDTH) % (SCREEN_WIDTH as int) == px,
        (px + py * SCREEN_WIDTH) / (SCREEN_WIDTH as int) == py,
        forall|k: int|
            0 <= k < SCREEN_SIZE && #[trigger] (k % (SCREEN_WIDTH as int)) == px && k / (
            SCREEN_WIDTH as int) == py ==> k == px + py * SCREEN_WIDTH,
{
    assert forall|k: int|
        0 <= k < SCREEN_SIZE && #[trigger] (k % (SCREEN_WIDTH as int)) == px && k / (
        SCREEN_WIDTH as int) == py implies k == px + py * SCREEN_WIDTH by {
        assert(k == (k / 64) * 64 + k % 64) by (nonlinear_arith);
    }
    assert((px + py * 64) % 64 == px && (px + py * 64) / 64 == py) by (nonlinear_arith)
        requires
            0 <= px < 64,
    ;
}

proof fn lemma_cell_range(k: int)
    requires
        0 <= k < SCREEN_SIZE,
    ensures
        0 <= k % (SCREEN_WIDTH as int) < SCREEN_WIDTH,
        0 <= k / (SCREEN_WIDTH as int) < SCREEN_HEIGHT,
{
}

/// Why a program can not be loaded.
#[derive(Clone, Copy, Debug, PartialEq, Eq, Structural)]
pub enum LoadError {
    /// The program does not fit between the program start and the end of
    /// memory.
    TooLarge,
}

/// A CHIP-8 machine: memory, registers, timers, call stack, keypad and
/// framebuffer.
pub struct Chip8Emulator {
    memory: [u8; 4096],
    v: [u8; 16],
    i: u16,
    pc: u16,
    screen: [bool; 2048],
    delay_timer: u8,
    sound_timer: u8,
    stack: [u16; 16],
    sp: usize,
    keys: [bool; 16],
}

impl View for Chip8Emulator {
    type V = Machine;

    closed spec fn view(&self) -> Machine {
        Machine {
            memory: self.memory@,
            v: self.v@,
            i: self.i as int,
            pc: self.pc as int,
            screen: self.screen@,
            delay_timer: self.delay_timer as int,
            sound_timer: self.sound_timer as int,
            stack: self.stack@,
            sp: self.sp as int,
            keys: self.keys@,
        }
    }
}

fn font_glyphs() -> (r: [u8; 80])
    ensures
        r@ == font(),
{
    let r: [u8; 80] = [
        0xF0, 0x90, 0x90, 0x90, 0xF0, 0x20, 0x60, 0x20, 0x20, 0x70,
        0xF0, 0x10, 0xF0, 0x80, 0xF0, 0xF0, 0x10, 0xF0, 0x10, 0xF0,
        0x90, 0x90, 0xF0, 0x10, 0x10, 0xF0, 0x80, 0xF0, 0x10, 0xF0,
        0xF0, 0x80, 0xF0, 0x90, 0xF0, 0xF0, 0x10, 0x20, 0x40, 0x40,
        0xF0, 0x90, 0xF0, 0x90, 0xF0, 0xF0, 0x90, 0xF0, 0x10, 0xF0,
        0xF0, 0x90, 0xF0, 0x90, 0x90, 0xE0, 0x90, 0xE0, 0x90, 0xE0,
        0xF0, 0x80, 0x80, 0x80, 0xF0, 0xE0, 0x90, 0x90, 0x90, 0xE0,
        0xF0, 0x80, 0xF0, 0x80, 0xF0, 0xF0, 0x80, 0xF0, 0x80, 0x80,
    ];
    assert(r@ =~= font());
    r
}

/// Relies on rand::random: a byte from the thread-local generator, of which
/// nothing is known.
#[verifier::external_body]
fn random_byte() -> u8 {
    rand::random::<u8>()
}

impl Chip8Emulator {
    /// A machine with every field zero; `initialize` brings it to power-on.
    pub fn new() -> (r: Self)
        ensures
            r@ == Machine::zeroed(),
            r@.wf(),
    {
        let r = Chip8Emulator {
            memory: [0; 4096],
            v: [0; 16],
            i: 0,
            pc: 0,
            screen: [false; 2048],
            delay_timer: 0,
            sound_timer: 0,
            stack: [0; 16],
            sp: 0,
            keys: [false; 16],
        };
        assert(r@.memory =~= Machine::zeroed().memory);
        assert(r@.v =~= Machine::zeroed().v);
        assert(r@.screen =~= Machine::zeroed().screen);
        assert(r@.stack =~= Machine::zeroed().stack);
        assert(r@.keys =~= Machine::zeroed().keys);
        r
    }

    /// Resets every field to its power-on value and copies the font into
    /// memory; callable again as a hardware reset.
    pub fn initialize(&mut self)
        ensures
            final(self)@ == Machine::power_on(),
    {
        *self = Self::new();
        let glyphs = font_glyphs();
        let mut k: usize = 0;
        assert(self@.memory =~= Seq::new(
            MEMORY_SIZE as nat,
            |j: int|
                if j < k {
                    font()[j]
                } else {
                    0u8
                },
        ));
        while k < 80
            invariant
                0 <= k <= 80,
                glyphs@ == font(),
                self@ == (Machine {
                    memory: Seq::new(
                        MEMORY_SIZE as nat,
                        |j: int|
                            if j < k {
                                font()[j]
                            } else {
                                0u8
                            },
                    ),
                    ..Machine::zeroed()
                }),
            decreases 80 - k,
        {
            self.memory[k] = glyphs[k];
            k = k + 1;
            assert(self@.memory =~= Seq::new(
                MEMORY_SIZE as nat,
                |j: int|
                    if j < k {
                        font()[j]
                    } else {
                        0u8
                    },
            ));
        }
        self.pc = PROGRAM_START as u16;
        assert(self@.memory =~= Machine::power_on().memory);
    }

    /// Copies `rom` into memory at the program start. Fails, leaving the
    /// machine as it was, where `rom` does not fit before the end of memory.
    pub fn load_game(&mut self, rom: &[u8]) -> (r: Result<(), LoadError>)
        ensures
            rom@.len() > MEMORY_SIZE - PROGRAM_START ==> r == Err::<(), LoadError>(
                LoadError::TooLarge,
            ) && final(self)@ == old(self)@,
            rom@.len() <= MEMORY_SIZE - PROGRAM_START ==> r is Ok && final(self)@ == old(
                self,
            )@.with_program(rom@),
    {
        if rom.len() > MEMORY_SIZE - PROGRAM_START {
            return Err(LoadError::TooLarge);
        }
        let ghost start = self@;
        let mut k: usize = 0;
        assert(self@.memory =~= start.with_program(rom@.take(0)).memory);
        while k < rom.len()
            invariant
                0 <= k <= rom@.len() <= MEMORY_SIZE - PROGRAM_START,
                self@ == start.with_program(rom@.take(k as int)),
            decreases rom@.len() - k,
        {
            self.memory[PROGRAM_START + k] = rom[k];
            k = k + 1;
            assert(self@.memory =~= start.with_program(rom@.take(k as int)).memory);
        }
        assert(rom@.take(k as int) =~= rom@);
        Ok(())
    }

    /// Read access to register `x`.
    pub fn register(&self, x: u8) -> (r: u8)
        requires
            x < 16,
        ensures
            r == self@.v[x as int],
    {
        self.v[x as usize]
    }

    fn clear_screen(&mut self)
        requires
            old(self)@.ready(),
        ensures
            old(self)@.apply(Opcode::ClearScreen, 0) == Some(final(self)@),
    {
        self.screen = [false; 2048];
        self.pc = self.pc + 2;
        assert(self@.screen =~= Seq::new(SCREEN_SIZE as nat, |k: int| false));
    }

    fn return_subroutine(&mut self) -> (r: Result<(), Fault>)
        requires
            old(self)@.ready(),
        ensures
            old(self)@.runs_to(Opcode::ReturnFromSub, 0, r, final(self)@),
    {
        if self.sp == 0 {
            return Err(Fault::OutOfBounds);
        }
        self.sp = self.sp - 1;
        self.pc = self.stack[self.sp];
        Ok(())
    }

    fn machine_code_routine(&mut self, address: u16)
        requires
            old(self)@.ready(),
        ensures
            old(self)@.apply(Opcode::MachineCode(address), 0) == Some(final(self)@),
    {
        self.pc = self.pc + 2;
    }

    fn goto(&mut self, address: u16)
        requires
            old(self)@.ready(),
        ensures
            old(self)@.apply(Opcode::Goto(address), 0) == Some(final(self)@),
    {
        self.pc = address;
    }

    /// Pushes the address of the next instruction and jumps to `address`.
    fn call_subroutine(&mut self, address: u16) -> (r: Result<(), Fault>)
        requires
            old(self)@.ready(),
        ensures
            old(self)@.runs_to(Opcode::CallSub(address), 0, r, final(self)@),
    {
        if self.sp >= STACK_SIZE {
            return Err(Fault::OutOfBounds);
        }
        self.stack[self.sp] = self.pc + 2;
        self.sp = self.sp + 1;
        self.pc = address;
        Ok(())
    }

    fn skip_const_eq(&mut self, reg: u8, c: u8)
        requires
            old(self)@.ready(),
            reg < 16,
        ensures
            old(self)@.apply(Opcode::SkipEQ(reg, c), 0) == Some(final(self)@),
    {
        if self.v[reg as usize] == c {
            self.pc = self.pc + 4;
        } else {
            self.pc = self.pc + 2;
        }
    }

    fn skip_const_neq(&mut self, reg: u8, c: u8)
        requires
            old(self)@.ready(),
            reg < 16,
        ensures
            old(self)@.apply(Opcode::SkipNEQ(reg, c), 0) == Some(final(self)@),
    {
        if self.v[reg as usize] != c {
            self.pc = self.pc + 4;
        } else {
            self.pc = self.pc + 2;
        }
    }

    fn skip_reg_eq(&mut self, reg: u8, reg2: u8)
        requires
            old(self)@.ready(),
            reg < 16,
            reg2 < 16,
        ensures
            old(self)@.apply(Opcode::SkipRegEQ(reg, reg2), 0) == Some(final(self)@),
    {
        if self.v[reg as usize] == self.v[reg2 as usize] {
            self.pc = self.pc + 4;
        } else {
            self.pc = self.pc + 2;
        }
    }

    fn skip_reg_neq(&mut self, reg: u8, reg2: u8)
        requires
            old(self)@.ready(),
            reg < 16,
            reg2 < 16,
        ensures
            old(self)@.apply(Opcode::SkipRegNEQ(reg, reg2), 0) == Some(final(self)@),
    {
        if self.v[reg as usize] != self.v[reg2 as usize] {
            self.pc = self.pc + 4;
        } else {
            self.pc = self.pc + 2;
        }
    }

    fn set_const(&mut self, reg: u8, c: u8)
        requires
            old(self)@.ready(),
            reg < 16,
        ensures
            old(self)@.apply(Opcode::SetConst(reg, c), 0) == Some(final(self)@),
    {
        self.v[reg as usize] = c;
        self.pc = self.pc + 2;
    }

    fn add_const(&mut self, reg: u8, c: u8)
        requires
            old(self)@.ready(),
            reg < 16,
        ensures
            old(self)@.apply(Opcode::AddConst(reg, c), 0) == Some(final(self)@),
    {
        let r = reg as usize;
        self.v[r] = self.v[r].wrapping_add(c);
        self.pc = self.pc + 2;
    }

    fn set(&mut self, reg: u8, reg2: u8)
        requires
            old(self)@.ready(),
            reg < 16,
            reg2 < 16,
        ensures
            old(self)@.apply(Opcode::SetReg(reg, reg2), 0) == Some(final(self)@),
    {
        self.v[reg as usize] = self.v[reg2 as usize];
        self.pc = self.pc + 2;
    }

    fn or(&mut self, reg: u8, reg2: u8)
        requires
            old(self)@.ready(),
            reg < 16,
            reg2 < 16,
        ensures
            old(self)@.apply(Opcode::Or(reg, reg2), 0) == Some(final(self)@),
    {
        self.v[reg as usize] = self.v[reg as usize] | self.v[reg2 as usize];
        self.pc = self.pc + 2;
    }

    fn and(&mut self, reg: u8, reg2: u8)
        requires
            old(self)@.ready(),
            reg < 16,
            reg2 < 16,
        ensures
            old(self)@.apply(Opcode::And(reg, reg2), 0) == Some(final(self)@),
    {
        self.v[reg as usize] = self.v[reg as usize] & self.v[reg2 as usize];
        self.pc = self.pc + 2;
    }

    fn xor(&mut self, reg: u8, reg2: u8)
        requires
            old(self)@.ready(),
            reg < 16,
            reg2 < 16,
        ensures
            old(self)@.apply(Opcode::Xor(reg, reg2), 0) == Some(final(self)@),
    {
        self.v[reg as usize] = self.v[reg as usize] ^ self.v[reg2 as usize];
        self.pc = self.pc + 2;
    }

    /// `VX = VX + VY`; `VF` is 1 where the sum overflows a byte.
    fn add(&mut self, reg: u8, reg2: u8)
        requires
            old(self)@.ready(),
            reg < 16,
            reg2 < 16,
        ensures
            old(self)@.apply(Opcode::AddReg(reg, reg2), 0) == Some(final(self)@),
    {
        let a = self.v[reg as usize];
        let b = self.v[reg2 as usize];
        self.v[reg as usize] = a.wrapping_add(b);
        self.v[0xf] = if a as u16 + b as u16 >= 256 { 1 } else { 0 };
        self.pc = self.pc + 2;
    }

    /// `VX = VX - VY`; `VF` is 1 where no borrow occurs.
    fn sub(&mut self, reg: u8, reg2: u8)
        requires
            old(self)@.ready(),
            reg < 16,
            reg2 < 16,
        ensures
            old(self)@.apply(Opcode::SubReg(reg, reg2), 0) == Some(final(self)@),
    {
        let a = self.v[reg as usize];
        let b = self.v[reg2 as usize];
        self.v[reg as usize] = a.wrapping_sub(b);
        self.v[0xf] = if a >= b { 1 } else { 0 };
        self.pc = self.pc + 2;
    }

    /// `VX = VY >> 1`; `VF` gets the bit shifted out.
    fn div_2(&mut self, reg: u8, reg2: u8)
        requires
            old(self)@.ready(),
            reg < 16,
            reg2 < 16,
        ensures
            old(self)@.apply(Opcode::Div2(reg, reg2), 0) == Some(final(self)@),
    {
        let b = self.v[reg2 as usize];
        self.v[reg as usize] = b / 2;
        self.v[0xf] = b % 2;
        self.pc = self.pc + 2;
    }

    /// `VX = VY - VX`; `VF` is 1 where no borrow occurs.
    fn diff(&mut self, reg: u8, reg2: u8)
        requires
            old(self)@.ready(),
            reg < 16,
            reg2 < 16,
        ensures
            old(self)@.apply(Opcode::DiffReg(reg, reg2), 0) == Some(final(self)@),
    {
        let a = self.v[reg as usize];
        let b = self.v[reg2 as usize];
        self.v[reg as usize] = b.wrapping_sub(a);
        self.v[0xf] = if b >= a { 1 } else { 0 };
        self.pc = self.pc + 2;
    }

    /// `VX = VY << 1`; `VF` gets the bit shifted out.
    fn mul_2(&mut self, reg: u8, reg2: u8)
        requires
            old(self)@.ready(),
            reg < 16,
            reg2 < 16,
        ensures
            old(self)@.apply(Opcode::Mul2(reg, reg2), 0) == Some(final(self)@),
    {
        let b = self.v[reg2 as usize];
        self.v[reg as usize] = b.wrapping_mul(2);
        self.v[0xf] = b / 128;
        self.pc = self.pc + 2;
    }

    fn set_i(&mut self, address: u16)
        requires
            old(self)@.ready(),
            address < 0x1000,
        ensures
            old(self)@.apply(Opcode::SetAR(address), 0) == Some(final(self)@),
    {
        self.i = address;
        self.pc = self.pc + 2;
    }

    fn jump_offset(&mut self, address: u16)
        requires
            old(self)@.ready(),
            address < 0x1000,
        ensures
            old(self)@.apply(Opcode::Jump(address), 0) == Some(final(self)@),
    {
        self.pc = address + self.v[0] as u16;
    }

    fn rand(&mut self, reg: u8, c: u8, rnd: u8)
        requires
            old(self)@.ready(),
            reg < 16,
        ensures
            old(self)@.apply(Opcode::Rand(reg, c), rnd) == Some(final(self)@),
    {
        self.v[reg as usize] = rnd & c;
        self.pc = self.pc + 2;
    }

    fn skip_if_key(&mut self, reg: u8) -> (r: Result<(), Fault>)
        requires
            old(self)@.ready(),
            reg < 16,
        ensures
            old(self)@.runs_to(Opcode::KeyEQ(reg), 0, r, final(self)@),
    {
        let key = self.v[reg as usize] as usize;
        if key >= 16 {
            return Err(Fault::OutOfBounds);
        }
        if self.keys[key] {
            self.pc = self.pc + 4;
        } else {
            self.pc = self.pc + 2;
        }
        Ok(())
    }

    fn skip_if_nkey(&mut self, reg: u8) -> (r: Result<(), Fault>)
        requires
            old(self)@.ready(),
            reg < 16,
        ensures
            old(self)@.runs_to(Opcode::KeyNEQ(reg), 0, r, final(self)@),
    {
        let key = self.v[reg as usize] as usize;
        if key >= 16 {
            return Err(Fault::OutOfBounds);
        }
        if !self.keys[key] {
            self.pc = self.pc + 4;
        } else {
            self.pc = self.pc + 2;
        }
        Ok(())
    }

    fn get_delay(&mut self, reg: u8)
        requires
            old(self)@.ready(),
            reg < 16,
        ensures
            old(self)@.apply(Opcode::GetDelayTimer(reg), 0) == Some(final(self)@),
    {
        self.v[reg as usize] = self.delay_timer;
        self.pc = self.pc + 2;
    }

    /// Waits for a key: stores the lowest held key id, or leaves the machine
    /// as it is, so that the same instruction runs again next cycle.
    fn get_key(&mut self, reg: u8)
        requires
            old(self)@.ready(),
            reg < 16,
        ensures
            old(self)@.apply(Opcode::GetKey(reg), 0) == Some(final(self)@),
    {
        let mut k: usize = 0;
        while k < 16
            invariant
                0 <= k <= 16,
                reg < 16,
                self@ == old(self)@,
                self@.ready(),
                first_held(self@.keys, 0) == first_held(self@.keys, k as int),
            decreases 16 - k,
        {
            if self.keys[k] {
                self.v[reg as usize] = k as u8;
                self.pc = self.pc + 2;
                return;
            }
            k = k + 1;
        }
    }

    fn set_delay(&mut self, reg: u8)
        requires
            old(self)@.ready(),
            reg < 16,
        ensures
            old(self)@.apply(Opcode::SetDelayTimer(reg), 0) == Some(final(self)@),
    {
        self.delay_timer = self.v[reg as usize];
        self.pc = self.pc + 2;
    }

    fn set_sound(&mut self, reg: u8)
        requires
            old(self)@.ready(),
            reg < 16,
        ensures
            old(self)@.apply(Opcode::SetSoundTimer(reg), 0) == Some(final(self)@),
    {
        self.sound_timer = self.v[reg as usize];
        self.pc = self.pc + 2;
    }

    /// Adds `V[reg]` to the address register, wrapping within memory.
    fn inc_i(&mut self, reg: u8)
        requires
            old(self)@.ready(),
            reg < 16,
        ensures
            old(self)@.apply(Opcode::AddToI(reg), 0) == Some(final(self)@),
    {
        self.i = (self.i + self.v[reg as usize] as u16) % (MEMORY_SIZE as u16);
        self.pc = self.pc + 2;
    }

    /// Points the address register at the font glyph for the digit `V[reg]`.
    fn set_i_sprite(&mut self, reg: u8)
        requires
            old(self)@.ready(),
            reg < 16,
        ensures
            old(self)@.apply(Opcode::SetISprite(reg), 0) == Some(final(self)@),
    {
        self.i = self.v[reg as usize] as u16 * 5;
        self.pc = self.pc + 2;
    }

    fn bcd(&mut self, reg: u8) -> (r: Result<(), Fault>)
        requires
            old(self)@.ready(),
            reg < 16,
        ensures
            old(self)@.runs_to(Opcode::BCD(reg), 0, r, final(self)@),
    {
        let i = self.i as usize;
        if i + 2 >= MEMORY_SIZE {
            return Err(Fault::OutOfBounds);
        }
        let b = self.v[reg as usize];
        self.memory[i] = b / 100;
        self.memory[i + 1] = (b / 10) % 10;
        self.memory[i + 2] = b % 10;
        self.pc = self.pc + 2;
        Ok(())
    }

    fn reg_dump(&mut self, reg: u8) -> (r: Result<(), Fault>)
        requires
            old(self)@.ready(),
            reg < 16,
        ensures
            old(self)@.runs_to(Opcode::RegDump(reg), 0, r, final(self)@),
    {
        let i = self.i as usize;
        let last = reg as usize;
        if i + last >= MEMORY_SIZE {
            return Err(Fault::OutOfBounds);
        }
        let ghost s0 = self@;
        let mut k: usize = 0;
        assert(self@.memory =~= Seq::new(
            MEMORY_SIZE as nat,
            |j: int|
                if i <= j < i + k {
                    s0.v[j - i]
                } else {
                    s0.memory[j]
                },
        ));
        while k <= last
            invariant
                0 <= k <= last + 1,
                last < 16,
                i + last < MEMORY_SIZE,
                i == s0.i,
                self@ == (Machine {
                    memory: Seq::new(
                        MEMORY_SIZE as nat,
                        |j: int|
                            if i <= j < i + k {
                                s0.v[j - i]
                            } else {
                                s0.memory[j]
                            },
                    ),
                    ..s0
                }),
            decreases last + 1 - k,
        {
            self.memory[i + k] = self.v[k];
            k = k + 1;
            assert(self@.memory =~= Seq::new(
                MEMORY_SIZE as nat,
                |j: int|
                    if i <= j < i + k {
                        s0.v[j - i]
                    } else {
                        s0.memory[j]
                    },
            ));
        }
        assert(self@.memory =~= old(self)@.apply(Opcode::RegDump(reg), 0).unwrap().memory);
        self.pc = self.pc + 2;
        Ok(())
    }

    fn reg_load(&mut self, reg: u8) -> (r: Result<(), Fault>)
        requires
            old(self)@.ready(),
            reg < 16,
        ensures
            old(self)@.runs_to(Opcode::RegLoad(reg), 0, r, final(self)@),
    {
        let i = self.i as usize;
        let last = reg as usize;
        if i + last >= MEMORY_SIZE {
            return Err(Fault::OutOfBounds);
        }
        let ghost s0 = self@;
        let mut k: usize = 0;
        assert(self@.v =~= Seq::new(
            16,
            |j: int|
                if j < k {
                    s0.memory[i + j]
                } else {
                    s0.v[j]
                },
        ));
        while k <= last
            invariant
                0 <= k <= last + 1,
                last < 16,
                i + last < MEMORY_SIZE,
                i == s0.i,
                self@ == (Machine {
                    v: Seq::new(
                        16,
                        |j: int|
                            if j < k {
                                s0.memory[i + j]
                            } else {
                                s0.v[j]
                            },
                    ),
                    ..s0
                }),
            decreases last + 1 - k,
        {
            self.v[k] = self.memory[i + k];
            k = k + 1;
            assert(self@.v =~= Seq::new(
                16,
                |j: int|
                    if j < k {
                        s0.memory[i + j]
                    } else {
                        s0.v[j]
                    },
            ));
        }
        assert(self@.v =~= old(self)@.apply(Opcode::RegLoad(reg), 0).unwrap().v);
        self.pc = self.pc + 2;
        Ok(())
    }

    /// XORs the `n`-row sprite at the address register onto the screen at
    /// `(V[x], V[y])`; pixels past the right or bottom edge are clipped.
    /// `VF` tells whether a set pixel was cleared.
    fn draw(&mut self, x: u8, y: u8, n: u8) -> (r: Result<(), Fault>)
        requires
            old(self)@.ready(),
            x < 16,
            y < 16,
            n < 16,
        ensures
            old(self)@.runs_to(Opcode::Draw(x, y, n), 0, r, final(self)@),
    {
        let i = self.i as usize;
        let height = n as usize;
        if i + height > MEMORY_SIZE {
            return Err(Fault::OutOfBounds);
        }
        let vx = self.v[x as usize] as usize;
        let vy = self.v[y as usize] as usize;
        let ghost s0 = self@;
        let mut collided = false;
        let mut row: usize = 0;
        assert(self@.screen =~= screen_upto(s0, x, y, n, 0, 0));
        while row < height
            invariant
                0 <= row <= height,
                height == n,
                i == s0.i,
                i + height <= MEMORY_SIZE,
                x < 16,
                y < 16,
                s0.ready(),
                vx == s0.reg(x),
                vy == s0.reg(y),
                self@ == (Machine { screen: screen_upto(s0, x, y, n, row as int, 0), ..s0 }),
                collided == collides_upto(s0, x, y, n, row as int, 0),
            decreases height - row,
        {
            let byte = self.memory[i + row];
            let mut col: usize = 0;
            while col < 8
                invariant
                    0 <= col <= 8,
                    0 <= row < height,
                    height == n,
                    i == s0.i,
                    i + height <= MEMORY_SIZE,
                    x < 16,
                    y < 16,
                    s0.ready(),
                    vx == s0.reg(x),
                    vy == s0.reg(y),
                    byte == s0.memory[i + row],
                    self@ == (Machine {
                        screen: screen_upto(s0, x, y, n, row as int, col as int),
                        ..s0
                    }),
                    collided == collides_upto(s0, x, y, n, row as int, col as int),
                decreases 8 - col,
            {
                let ghost before = self@.screen;
                let ghost was = collided;
                let set = byte & (0x80u8 >> col as u8) != 0;
                let px = vx + col;
                let py = vy + row;
                if set && px < SCREEN_WIDTH && py < SCREEN_HEIGHT {
                    let idx = px + py * SCREEN_WIDTH;
                    proof {
                        lemma_cell(px as int, py as int);
                    }
                    if self.screen[idx] {
                        collided = true;
                    }
                    self.screen[idx] = !self.screen[idx];
                    proof {
                        assert(s0.drawn(x, y, n, idx as int));
                        assert forall|k: int| 0 <= k < SCREEN_SIZE && k != idx implies hit(
                            s0, x, y, n, row as int, col + 1, k)
                            == #[trigger] hit(s0, x, y, n, row as int, col as int, k) by {
                            lemma_cell_range(k);
                        }
                        if collided {
                            if was {
                                let w = choose|k: int|
                                    0 <= k < SCREEN_SIZE && #[trigger] hit(
                                        s0, x, y, n, row as int, col as int, k);
                                assert(hit(s0, x, y, n, row as int, col + 1, w));
                            } else {
                                assert(hit(s0, x, y, n, row as int, col + 1, idx as int));
                            }
                        } else {
                            assert forall|k: int| 0 <= k < SCREEN_SIZE implies !#[trigger] hit(
                                s0, x, y, n, row as int, col + 1, k) by {
                                if k != idx {
                                    assert(!hit(s0, x, y, n, row as int, col as int, k));
                                }
                            }
                        }
                    }
                } else {
                    proof {
                        assert forall|k: int| 0 <= k < SCREEN_SIZE implies (s0.drawn(x, y, n, k)
                            && visited(s0, x, y, k, row as int, col + 1)) == (#[trigger] s0.drawn(
                            x, y, n, k) && visited(s0, x, y, k, row as int, col as int)) by {
                            lemma_cell_range(k);
                        }
                        assert forall|k: int| 0 <= k < SCREEN_SIZE implies hit(
                            s0, x, y, n, row as int, col + 1, k)
                            == #[trigger] hit(s0, x, y, n, row as int, col as int, k) by {
                            lemma_cell_range(k);
                        }
                        if was {
                            let w = choose|k: int|
                                0 <= k < SCREEN_SIZE && #[trigger] hit(
                                    s0, x, y, n, row as int, col as int, k);
                            assert(hit(s0, x, y, n, row as int, col + 1, w));
                        } else {
                            assert forall|k: int| 0 <= k < SCREEN_SIZE implies !#[trigger] hit(
                                s0, x, y, n, row as int, col + 1, k) by {
                                assert(!hit(s0, x, y, n, row as int, col as int, k));
                            }
                        }
                    }
                }
                col = col + 1;
                assert(self@.screen =~= screen_upto(s0, x, y, n, row as int, col as int));
            }
            proof {
                assert forall|k: int| 0 <= k < SCREEN_SIZE implies hit(
                    s0, x, y, n, row + 1, 0, k) == #[trigger] hit(s0, x, y, n, row as int, 8, k) by {
                    lemma_cell_range(k);
                }
                if collided {
                    let w = choose|k: int|
                        0 <= k < SCREEN_SIZE && #[trigger] hit(s0, x, y, n, row as int, 8, k);
                    assert(hit(s0, x, y, n, row + 1, 0, w));
                } else {
                    assert forall|k: int| 0 <= k < SCREEN_SIZE implies !#[trigger] hit(
                        s0, x, y, n, row + 1, 0, k) by {
                        assert(!hit(s0, x, y, n, row as int, 8, k));
                    }
                }
            }
            row = row + 1;
            assert(self@.screen =~= screen_upto(s0, x, y, n, row as int, 0));
        }
        proof {
            let m = s0.apply(Opcode::Draw(x, y, n), 0).unwrap();
            assert(self@.screen =~= m.screen);
            if collided {
                let w = choose|k: int|
                    0 <= k < SCREEN_SIZE && #[trigger] hit(s0, x, y, n, row as int, 0, k);
                assert(s0.drawn(x, y, n, w) && s0.screen[w]);
            }
            if s0.collides(x, y, n) {
                let w = choose|k: int|
                    0 <= k < SCREEN_SIZE && #[trigger] s0.drawn(x, y, n, k) && s0.screen[k];
                assert(hit(s0, x, y, n, row as int, 0, w));
            }
        }
        self.v[0xf] = if collided {
            1
        } else {
            0
        };
        self.pc = self.pc + 2;
        Ok(())
    }

    /// Runs one decoded instruction, with `rnd` as the random byte for
    /// `Rand`. A fault leaves the machine as it was.
    pub fn execute(&mut self, op: Opcode, rnd: u8) -> (r: Result<(), Fault>)
        requires
            old(self)@.ready(),
            op.wf(),
        ensures
            old(self)@.runs_to(op, rnd, r, final(self)@),
            final(self)@.wf(),
    {
        match op {
            Opcode::MachineCode(a) => {
                self.machine_code_routine(a);
                Ok(())
            },
            Opcode::ClearScreen => {
                self.clear_screen();
                Ok(())
            },
            Opcode::ReturnFromSub => self.return_subroutine(),
            Opcode::Goto(a) => {
                self.goto(a);
                Ok(())
            },
            Opcode::CallSub(a) => self.call_subroutine(a),
            Opcode::SkipEQ(x, c) => {
                self.skip_const_eq(x, c);
                Ok(())
            },
            Opcode::SkipNEQ(x, c) => {
                self.skip_const_neq(x, c);
                Ok(())
            },
            Opcode::SkipRegEQ(x, y) => {
                self.skip_reg_eq(x, y);
                Ok(())
            },
            Opcode::SetConst(x, c) => {
                self.set_const(x, c);
                Ok(())
            },
            Opcode::AddConst(x, c) => {
                self.add_const(x, c);
                Ok(())
            },
            Opcode::SetReg(x, y) => {
                self.set(x, y);
                Ok(())
            },
            Opcode::Or(x, y) => {
                self.or(x, y);
                Ok(())
            },
            Opcode::And(x, y) => {
                self.and(x, y);
                Ok(())
            },
            Opcode::Xor(x, y) => {
                self.xor(x, y);
                Ok(())
            },
            Opcode::AddReg(x, y) => {
                self.add(x, y);
                Ok(())
            },
            Opcode::SubReg(x, y) => {
                self.sub(x, y);
                Ok(())
            },
            Opcode::Div2(x, y) => {
                self.div_2(x, y);
                Ok(())
            },
            Opcode::DiffReg(x, y) => {
                self.diff(x, y);
                Ok(())
            },
            Opcode::Mul2(x, y) => {
                self.mul_2(x, y);
                Ok(())
            },
            Opcode::SkipRegNEQ(x, y) => {
                self.skip_reg_neq(x, y);
                Ok(())
            },
            Opcode::SetAR(a) => {
                self.set_i(a);
                Ok(())
            },
            Opcode::Jump(a) => {
                self.jump_offset(a);
                Ok(())
            },
            Opcode::Rand(x, c) => {
                self.rand(x, c, rnd);
                Ok(())
            },
            Opcode::Draw(x, y, n) => self.draw(x, y, n),
            Opcode::KeyEQ(x) => self.skip_if_key(x),
            Opcode::KeyNEQ(x) => self.skip_if_nkey(x),
            Opcode::GetDelayTimer(x) => {
                self.get_delay(x);
                Ok(())
            },
            Opcode::GetKey(x) => {
                self.get_key(x);
                Ok(())
            },
            Opcode::SetDelayTimer(x) => {
                self.set_delay(x);
                Ok(())
            },
            Opcode::SetSoundTimer(x) => {
                self.set_sound(x);
                Ok(())
            },
            Opcode::AddToI(x) => {
                self.inc_i(x);
                Ok(())
            },
            Opcode::SetISprite(x) => {
                self.set_i_sprite(x);
                Ok(())
            },
            Opcode::BCD(x) => self.bcd(x),
            Opcode::RegDump(x) => self.reg_dump(x),
            Opcode::RegLoad(x) => self.reg_load(x),
        }
    }

    /// Counts both timers down by one, stopping at zero.
    fn tick(&mut self) -> (r: CycleOutcome)
        requires
            old(self)@.wf(),
        ensures
            (final(self)@, r) == old(self)@.tick(),
    {
        if self.delay_timer > 0 {
            self.delay_timer = self.delay_timer - 1;
        }
        if self.sound_timer > 0 {
            self.sound_timer = self.sound_timer - 1;
            if self.sound_timer == 0 {
                return CycleOutcome::Beeped;
            }
        }
        CycleOutcome::Continue
    }

    /// One cycle: fetches the word at the program counter, decodes it, runs
    /// it with `rnd` as the random byte and ticks the timers.
    pub fn step(&mut self, rnd: u8) -> (r: CycleOutcome)
        requires
            old(self)@.wf(),
        ensures
            (final(self)@, r) == old(self)@.step(rnd),
            final(self)@.wf(),
    {
        let pc = self.pc as usize;
        if pc + 1 >= MEMORY_SIZE {
            return CycleOutcome::Fault(Fault::OutOfBounds);
        }
        let word = (self.memory[pc] as u16) * 256 + self.memory[pc + 1] as u16;
        match from_value(word) {
            None => CycleOutcome::Fault(Fault::UnknownOpcode(word, self.pc)),
            Some(op) => match self.execute(op, rnd) {
                Err(f) => CycleOutcome::Fault(f),
                Ok(()) => self.tick(),
            },
        }
    }

    /// One cycle, with a fresh random byte for `Rand`.
    pub fn emulate_cycle(&mut self) -> (r: CycleOutcome)
        requires
            old(self)@.wf(),
        ensures
            exists|rnd: u8| (final(self)@, r) == #[trigger] old(self)@.step(rnd),
            final(self)@.wf(),
    {
        let rnd = random_byte();
        self.step(rnd)
    }

    /// The framebuffer, row-major, 64 cells per row.
    pub fn screen(&self) -> (r: &[bool; 2048])
        ensures
            r@ == self@.screen,
    {
        &self.screen
    }

    /// The byte at `addr`.
    pub fn memory_at(&self, addr: usize) -> (r: u8)
        requires
            addr < MEMORY_SIZE,
        ensures
            r == self@.memory[addr as int],
    {
        self.memory[addr]
    }

    pub fn address_register(&self) -> (r: u16)
        ensures
            r == self@.i,
    {
        self.i
    }

    pub fn program_counter(&self) -> (r: u16)
        ensures
            r == self@.pc,
    {
        self.pc
    }

    pub fn stack_pointer(&self) -> (r: usize)
        ensures
            r == self@.sp,
    {
        self.sp
    }

    pub fn delay_timer(&self) -> (r: u8)
        ensures
            r == self@.delay_timer,
    {
        self.delay_timer
    }

    pub fn sound_timer(&self) -> (r: u8)
        ensures
            r == self@.sound_timer,
    {
        self.sound_timer
    }

    /// Overwrites the keypad: `keys[k]` tells whether key `k` is held.
    pub fn set_keys(&mut self, keys: &[bool; 16])
        ensures
            final(self)@ == (Machine { keys: keys@, ..old(self)@ }),
    {
        self.keys = *keys;
    }
}

/// A call followed at once by a return resumes at the instruction after the
/// call, with the stack pointer back where it was.
pub proof fn lemma_call_then_return(m: Machine, addr: u16)
    requires
        m.ready(),
        m.sp < STACK_SIZE,
        addr < 0x1000,
    ensures
        m.apply(Opcode::CallSub(addr), 0) is Some,
        m.apply(Opcode::CallSub(addr), 0).unwrap().apply(Opcode::ReturnFromSub, 0) is Some,
        ({
            let back = m.apply(Opcode::CallSub(addr), 0).unwrap().apply(
                Opcode::ReturnFromSub,
                0,
            ).unwrap();
            back.pc == m.pc + 2 && back.sp == m.sp
        }),
{
}

/// Registers dumped to memory and loaded back are restored, whatever
/// happened to the registers in between, so long as the memory and the
/// address register were left alone.
pub proof fn lemma_dump_then_load(m: Machine, x: u8, between: Machine)
    requires
        m.wf(),
        x < 16,
        m.i + x < MEMORY_SIZE,
        between.wf(),
        between.memory == m.apply(Opcode::RegDump(x), 0).unwrap().memory,
        between.i == m.i,
    ensures
        m.apply(Opcode::RegDump(x), 0) is Some,
        between.apply(Opcode::RegLoad(x), 0) is Some,
        forall|k: int|
            0 <= k <= x ==> #[trigger] between.apply(Opcode::RegLoad(x), 0).unwrap().v[k]
                == m.v[k],
{
}

/// A cycle that runs an instruction other than one that sets the sound
/// timer counts the sound timer down to no less than zero, and beeps exactly
/// where the timer stood at one.
pub proof fn lemma_sound_timer_decay(m: Machine, rnd: u8)
    requires
        m.wf(),
        !(m.step(rnd).1 is Fault),
        !(decode(m.fetch()) matches Some(Opcode::SetSoundTimer(_))),
    ensures
        m.step(rnd).0.sound_timer == if m.sound_timer > 0 {
            m.sound_timer - 1
        } else {
            0
        },
        (m.step(rnd).1 == CycleOutcome::Beeped) == (m.sound_timer == 1),
{
    let op = decode(m.fetch()).unwrap();
    let after = m.apply(op, rnd).unwrap();
    assert(after.sound_timer == m.sound_timer);
}

/// Drawing the same sprite twice at the same place restores the screen; the
/// second draw reports a collision exactly where the first one set a pixel.
pub proof fn lemma_draw_twice(m: Machine, x: u8, y: u8, n: u8)
    requires
        m.wf(),
        x < 0xf,
        y < 0xf,
        n < 16,
        m.i + n <= MEMORY_SIZE,
    ensures
        m.apply(Opcode::Draw(x, y, n), 0) is Some,
        m.apply(Opcode::Draw(x, y, n), 0).unwrap().apply(Opcode::Draw(x, y, n), 0) is Some,
        ({
            let twice = m.apply(Opcode::Draw(x, y, n), 0).unwrap().apply(
                Opcode::Draw(x, y, n),
                0,
            ).unwrap();
            &&& twice.screen == m.screen
            &&& (twice.v[0xf] == 1) == (exists|k: int|
                0 <= k < SCREEN_SIZE && #[trigger] m.drawn(x, y, n, k) && !m.screen[k])
            &&& (twice.v[0xf] == 0) == !(exists|k: int|
                0 <= k < SCREEN_SIZE && #[trigger] m.drawn(x, y, n, k) && !m.screen[k])
        }),
{
    let once = m.apply(Opcode::Draw(x, y, n), 0).unwrap();
    let twice = once.apply(Opcode::Draw(x, y, n), 0).unwrap();
    assert forall|k: int| 0 <= k < SCREEN_SIZE implies #[trigger] once.drawn(x, y, n, k) == m.drawn(
        x,
        y,
        n,
        k,
    ) by {
        lemma_cell_range(k);
    }
    assert(twice.screen =~= m.screen);
    if exists|k: int| 0 <= k < SCREEN_SIZE && #[trigger] m.drawn(x, y, n, k) && !m.screen[k] {
        let w = choose|k: int| 0 <= k < SCREEN_SIZE && #[trigger] m.drawn(x, y, n, k) && !m.screen[k];
        assert(once.drawn(x, y, n, w) && once.screen[w]);
    }
    if once.collides(x, y, n) {
        let w = choose|k: int| 0 <= k < SCREEN_SIZE && #[trigger] once.drawn(x, y, n, k) && once.screen[k];
        assert(m.drawn(x, y, n, w) && !m.screen[w]);
    }
}

} // verus!
