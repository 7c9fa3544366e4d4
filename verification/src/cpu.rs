//! The interpreter: fetch, decode and execute of the full opcode set, with
//! the register file, call stack, timers and the 4096-byte memory image.
//! Every transition is proved equal to `semantics::spec_execute`.

use vstd::prelude::*;
use vstd::arithmetic::div_mod::lemma_mod_add_multiples_vanish;
use crate::Chip8Error;
use crate::StepNote;
use crate::display::Display;
use crate::keypad::Keypad;
use crate::semantics::MachineState;
use crate::semantics::advanced;
use crate::semantics::cycle_result_post;
use crate::semantics::hi_of;
use crate::semantics::is_known_opcode;
use crate::semantics::lemma_decode_bounds;
use crate::semantics::n_of;
use crate::semantics::nn_of;
use crate::semantics::nnn_of;
use crate::semantics::skipped;
use crate::semantics::spec_dump_mem;
use crate::semantics::spec_execute;
use crate::semantics::spec_fetch;
use crate::semantics::spec_fonts;
use crate::semantics::spec_init;
use crate::semantics::spec_init_mem;
use crate::semantics::spec_load;
use crate::semantics::spec_load_regs;
use crate::semantics::spec_note;
use crate::semantics::spec_op_0;
use crate::semantics::spec_op_2;
use crate::semantics::spec_op_8;
use crate::semantics::spec_op_d;
use crate::semantics::spec_op_e;
use crate::semantics::spec_op_f;
use crate::semantics::spec_silence;
use crate::semantics::spec_tick;
use crate::semantics::step_post;
use crate::semantics::x_of;
use crate::semantics::y_of;

verus! {

/// The machine. Its view is the ghost `MachineState`; the keypad and the
/// display are owned here and driven by a front end between cycles, the way
/// the console wires its input and video to the same board.
pub struct Cpu {
    program: u16,
    stack: Vec<u16>,
    stack_pointer: usize,
    delay_timer: u8,
    sound_timer: u8,
    v: Vec<u8>,
    i: u16,
    memory: Vec<u8>,
    pub keypad: Keypad,
    pub display: Display,
}

impl View for Cpu {
    type V = MachineState;

    closed spec fn view(&self) -> MachineState {
        MachineState {
            pc: self.program as int,
            i: self.i as int,
            sp: self.stack_pointer as int,
            stack: self.stack@,
            delay: self.delay_timer,
            sound: self.sound_timer,
            v: self.v@,
            mem: self.memory@,
            fb: self.display@,
            keys: self.keypad@,
        }
    }
}

/// Relies on rand::random: one byte drawn from the thread-local generator.
/// Nothing is promised of the value; the interpreter is verified for every
/// byte this may hand back.
#[verifier::external_body]
fn random_byte() -> u8 {
    rand::random::<u8>()
}

/// Second nibble: the X register operand.
fn op_x(op: u16) -> (r: usize)
    ensures
        r == x_of(op),
        r < 16,
{
    proof {
        lemma_decode_bounds(op);
    }
    ((op >> 8) & 0xF) as usize
}

/// Third nibble: the Y register operand.
fn op_y(op: u16) -> (r: usize)
    ensures
        r == y_of(op),
        r < 16,
{
    proof {
        lemma_decode_bounds(op);
    }
    ((op >> 4) & 0xF) as usize
}

/// Low nibble: a row count.
fn op_n(op: u16) -> (r: usize)
    ensures
        r == n_of(op),
        r < 16,
{
    proof {
        lemma_decode_bounds(op);
    }
    (op & 0xF) as usize
}

/// Low byte: an immediate operand.
fn op_nn(op: u16) -> (r: u8)
    ensures
        r == nn_of(op),
{
    (op & 0xFF) as u8
}

/// Low 12 bits: an address operand.
fn op_nnn(op: u16) -> (r: u16)
    ensures
        r == nnn_of(op),
        r < 4096,
{
    proof {
        lemma_decode_bounds(op);
    }
    op & 0xFFF
}

impl Cpu {
    /// The machine is well formed: see `MachineState::inv`.
    pub open spec fn wf(&self) -> bool {
        self@.inv()
    }

    /// A freshly initialized machine: registers, stack and timers zeroed,
    /// the font table installed in the first 80 memory bytes, the program
    /// counter at 0x200 and the index register at 0.
    pub fn new() -> (r: Cpu)
        ensures
            r.wf(),
            r@ == spec_init(),
    {
        let fonts: [u8; 80] = [
            0xF0, 0x90, 0x90, 0x90, 0xF0,
            0x20, 0x60, 0x20, 0x20, 0x70,
            0xF0, 0x10, 0xF0, 0x80, 0xF0,
            0xF0, 0x10, 0xF0, 0x10, 0xF0,
            0x90, 0x90, 0xF0, 0x10, 0x10,
            0xF0, 0x80, 0xF0, 0x10, 0xF0,
            0xF0, 0x80, 0xF0, 0x90, 0xF0,
            0xF0, 0x10, 0x20, 0x40, 0x40,
            0xF0, 0x90, 0xF0, 0x90, 0xF0,
            0xF0, 0x90, 0xF0, 0x10, 0xF0,
            0xF0, 0x90, 0xF0, 0x90, 0x90,
            0xE0, 0x90, 0xE0, 0x90, 0xE0,
            0xF0, 0x80, 0x80, 0x80, 0xF0,
            0xE0, 0x90, 0x90, 0x90, 0xE0,
            0xF0, 0x80, 0xF0, 0x80, 0xF0,
            0xF0, 0x80, 0xF0, 0x80, 0x80,
        ];
        proof {
            assert(fonts@ =~= spec_fonts());
        }
        let mut memory: Vec<u8> = vec![0u8; 4096];
        let mut k: usize = 0;
        while k < 80
            invariant
                memory@.len() == 4096,
                k <= 80,
                fonts@ == spec_fonts(),
                forall|t: int| 0 <= t < k ==> memory@[t] == spec_fonts()[t],
                forall|t: int| k <= t < 4096 ==> memory@[t] == 0u8,
            decreases 80 - k,
        {
            memory[k] = fonts[k];
            k += 1;
        }
        let cpu = Cpu {
            program: 0x200,
            stack: vec![0u16; 16],
            stack_pointer: 0,
            delay_timer: 0,
            sound_timer: 0,
            v: vec![0u8; 16],
            i: 0,
            memory,
            keypad: Keypad::new(),
            display: Display::new(),
        };
        proof {
            assert(cpu@.mem =~= spec_init_mem());
            assert(cpu@.stack =~= spec_init().stack);
            assert(cpu@.v =~= spec_init().v);
            assert(cpu@.fb =~= spec_init().fb);
            assert(cpu@.keys =~= spec_init().keys);
        }
        cpu
    }

    /// Copy a program image into memory from 0x200 on. A program longer
    /// than the space from 0x200 to the end of memory is rejected whole.
    pub fn load_game(&mut self, game: &Vec<u8>) -> (r: Result<(), Chip8Error>)
        requires
            old(self).wf(),
        ensures
            final(self).wf(),
            game@.len() <= 4096 - 0x200 ==> r == Ok::<(), Chip8Error>(()) && final(self)@
                == spec_load(old(self)@, game@),
            game@.len() > 4096 - 0x200 ==> r == Err::<(), Chip8Error>(Chip8Error::ProgramTooLarge)
                && final(self)@ == old(self)@,
    {
        if game.len() > 4096 - 0x200 {
            return Err(Chip8Error::ProgramTooLarge);
        }
        let n = game.len();
        let mut t: usize = 0;
        while t < n
            invariant
                self.wf(),
                t <= n,
                n == game@.len() <= 4096 - 0x200,
                self@ == (MachineState { mem: self@.mem, ..old(self)@ }),
                forall|a: int|
                    0x200 <= a < 0x200 + t ==> self@.mem[a] == game@[a - 0x200],
                forall|a: int|
                    (0 <= a < 0x200 || 0x200 + t <= a < 4096) ==> self@.mem[a] == old(
                        self,
                    )@.mem[a],
            decreases n - t,
        {
            self.memory[0x200 + t] = game[t];
            t += 1;
        }
        proof {
            assert(self@.mem =~= spec_load(old(self)@, game@).mem);
        }
        Ok(())
    }

    /// The instruction word at the program counter: two bytes, big-endian,
    /// the second one wrapping around the address space.
    pub fn fetch_opcode(&self) -> (op: u16)
        requires
            self.wf(),
        ensures
            op == spec_fetch(self@),
    {
        let hi = self.memory[self.program as usize];
        let lo = self.memory[(self.program as usize + 1) % 4096];
        let op = ((hi as u16) << 8) | (lo as u16);
        proof {
            assert((((hi as u16) << 8) | (lo as u16)) == hi * 256 + lo && hi * 256 + lo <= 65535)
                by (bit_vector);
        }
        op
    }

    /// Family 0: clear screen, return from subroutine, or a no-op.
    fn op_0xxx(&mut self, op: u16) -> (r: Result<(), Chip8Error>)
        requires
            old(self).wf(),
            hi_of(op) == 0x0,
        ensures
            final(self).wf(),
            match r {
                Ok(()) => spec_op_0(old(self)@, op) == Ok::<MachineState, Chip8Error>(
                    final(self)@,
                ),
                Err(e) => spec_op_0(old(self)@, op) == Err::<MachineState, Chip8Error>(e) && final(self)@ == old(self)@,
            },
    {
        let low = op & 0xF;
        if low == 0x0 {
            self.display.clear();
            self.program = (self.program + 2) % 4096;
            proof {
                assert(self@.fb =~= Seq::new(2048, |p: int| false));
            }
            Ok(())
        } else if low == 0xE {
            if self.stack_pointer == 0 {
                return Err(Chip8Error::StackUnderflow);
            }
            self.stack_pointer = self.stack_pointer - 1;
            self.program = self.stack[self.stack_pointer] % 4096;
            Ok(())
        } else {
            self.program = (self.program + 2) % 4096;
            Ok(())
        }
    }

    /// Family 1: jump to the address operand.
    fn op_1xxx(&mut self, op: u16)
        requires
            old(self).wf(),
        ensures
            final(self).wf(),
            final(self)@ == (MachineState { pc: nnn_of(op), ..old(self)@ }),
    {
        self.program = op_nnn(op);
    }

    /// Family 2: call a subroutine, pushing the address of the next
    /// instruction; a 17th nested call is a stack overflow.
    fn op_2xxx(&mut self, op: u16) -> (r: Result<(), Chip8Error>)
        requires
            old(self).wf(),
        ensures
            final(self).wf(),
            match r {
                Ok(()) => spec_op_2(old(self)@, op) == Ok::<MachineState, Chip8Error>(
                    final(self)@,
                ),
                Err(e) => spec_op_2(old(self)@, op) == Err::<MachineState, Chip8Error>(e) && final(self)@ == old(self)@,
            },
    {
        if self.stack_pointer == 16 {
            return Err(Chip8Error::StackOverflow);
        }
        self.stack[self.stack_pointer] = (self.program + 2) % 4096;
        self.stack_pointer = self.stack_pointer + 1;
        self.program = op_nnn(op);
        Ok(())
    }

    /// Families 3, 4, 5 and 9: the conditional skips.
    fn op_skip(&mut self, cond: bool)
        requires
            old(self).wf(),
        ensures
            final(self).wf(),
            final(self)@ == skipped(old(self)@, cond),
    {
        let step: u16 = if cond {
            4
        } else {
            2
        };
        self.program = (self.program + step) % 4096;
    }

    /// Family 6: load the immediate into Vx.
    fn op_6xxx(&mut self, op: u16)
        requires
            old(self).wf(),
        ensures
            final(self).wf(),
            final(self)@ == advanced(
                MachineState { v: old(self)@.v.update(x_of(op), nn_of(op)), ..old(self)@ },
                2,
            ),
    {
        let x = op_x(op);
        self.v[x] = op_nn(op);
        self.program = (self.program + 2) % 4096;
    }

    /// Family 7: add the immediate to Vx, wrapping, with no flag.
    fn op_7xxx(&mut self, op: u16)
        requires
            old(self).wf(),
        ensures
            final(self).wf(),
            final(self)@ == advanced(
                MachineState {
                    v: old(self)@.v.update(
                        x_of(op),
                        ((old(self)@.v[x_of(op)] + nn_of(op)) % 256) as u8,
                    ),
                    ..old(self)@
                },
                2,
            ),
    {
        let x = op_x(op);
        let sum = self.v[x] as u16 + op_nn(op) as u16;
        self.v[x] = (sum % 256) as u8;
        self.program = (self.program + 2) % 4096;
    }

    /// Family 8: register-to-register arithmetic and the shifts.
    fn op_8xxx(&mut self, op: u16)
        requires
            old(self).wf(),
            hi_of(op) == 0x8,
        ensures
            final(self).wf(),
            final(self)@ == spec_op_8(old(self)@, op),
    {
        let x = op_x(op);
        let y = op_y(op);
        let vx = self.v[x];
        let vy = self.v[y];
        let low = op & 0xF;
        if low == 0x0 {
            self.v[x] = vy;
        } else if low == 0x1 {
            self.v[x] = vx | vy;
        } else if low == 0x2 {
            self.v[x] = vx & vy;
        } else if low == 0x3 {
            self.v[x] = vx ^ vy;
        } else if low == 0x4 {
            let sum = vx as u16 + vy as u16;
            self.v[15] = if sum > 255 {
                1
            } else {
                0
            };
            self.v[x] = (sum % 256) as u8;
        } else if low == 0x5 {
            self.v[15] = if vx >= vy {
                1
            } else {
                0
            };
            let diff = (vx as u16 + 256 - vy as u16) % 256;
            proof {
                lemma_mod_add_multiples_vanish(vx - vy, 256);
            }
            self.v[x] = diff as u8;
        } else if low == 0x6 {
            self.v[15] = vx & 1;
            self.v[x] = vx >> 1;
        } else if low == 0x7 {
            self.v[15] = if vy >= vx {
                1
            } else {
                0
            };
            let diff = (vy as u16 + 256 - vx as u16) % 256;
            proof {
                lemma_mod_add_multiples_vanish(vy - vx, 256);
            }
            self.v[x] = diff as u8;
        } else if low == 0xE {
            self.v[15] = vx >> 7;
            self.v[x] = ((vx as u16 * 2) % 256) as u8;
        }
        self.program = (self.program + 2) % 4096;
    }

    /// Family A: load the address operand into the index register.
    fn op_axxx(&mut self, op: u16)
        requires
            old(self).wf(),
        ensures
            final(self).wf(),
            final(self)@ == advanced(MachineState { i: nnn_of(op), ..old(self)@ }, 2),
    {
        self.i = op_nnn(op);
        self.program = (self.program + 2) % 4096;
    }

    /// Family B: jump to the address operand offset by V0.
    fn op_bxxx(&mut self, op: u16)
        requires
            old(self).wf(),
        ensures
            final(self).wf(),
            final(self)@ == (MachineState {
                pc: (nnn_of(op) + old(self)@.v[0]) % 4096,
                ..old(self)@
            }),
    {
        self.program = (op_nnn(op) + self.v[0] as u16) % 4096;
    }

    /// Family C: Vx becomes the random byte masked by the immediate.
    fn op_cxxx(&mut self, op: u16, rnd: u8)
        requires
            old(self).wf(),
        ensures
            final(self).wf(),
            final(self)@ == advanced(
                MachineState { v: old(self)@.v.update(x_of(op), rnd & nn_of(op)), ..old(self)@ },
                2,
            ),
    {
        let x = op_x(op);
        self.v[x] = rnd & op_nn(op);
        self.program = (self.program + 2) % 4096;
    }

    /// Family D: draw the sprite rows at memory[I..I+n) (wrapping around
    /// the address space) at (Vx, Vy); VF records the collision.
    fn op_dxxx(&mut self, op: u16)
        requires
            old(self).wf(),
            hi_of(op) == 0xD,
        ensures
            final(self).wf(),
            final(self)@ == spec_op_d(old(self)@, op),
    {
        let n = op_n(op);
        let mut sprite: Vec<u8> = Vec::new();
        let mut k: usize = 0;
        while k < n
            invariant
                self.wf(),
                self == old(self),
                k <= n,
                n == n_of(op),
                sprite@.len() == k,
                forall|t: int| 0 <= t < k ==> sprite@[t] == self@.mem[(self@.i + t) % 4096],
            decreases n - k,
        {
            sprite.push(self.memory[(self.i as usize + k) % 4096]);
            k += 1;
        }
        proof {
            assert(sprite@ =~= Seq::new(
                n_of(op) as nat,
                |t: int| old(self)@.mem[(old(self)@.i + t) % 4096],
            ));
        }
        let x = op_x(op);
        let y = op_y(op);
        let vx = self.v[x];
        let vy = self.v[y];
        let flag = self.display.draw(vx as usize, vy as usize, sprite.as_slice());
        self.v[15] = flag;
        self.program = (self.program + 2) % 4096;
    }

    /// Family E: skip on the state of the key named by the low nibble of Vx.
    fn op_exxx(&mut self, op: u16)
        requires
            old(self).wf(),
            hi_of(op) == 0xE,
        ensures
            final(self).wf(),
            final(self)@ == spec_op_e(old(self)@, op),
    {
        let x = op_x(op);
        let key = self.v[x] & 0xF;
        proof {
            assert(forall|b: u8| (b & 0xF) < 16) by (bit_vector);
        }
        let pressed = self.keypad.pressed(key as usize);
        let low = op & 0xFF;
        if low == 0x9E {
            self.op_skip(pressed);
        } else if low == 0xA1 {
            self.op_skip(!pressed);
        } else {
            self.program = (self.program + 2) % 4096;
        }
    }

    /// Family F: timers, the blocking key wait, index arithmetic, the font
    /// table, decimal decomposition, and the register dump and load.
    fn op_fxxx(&mut self, op: u16)
        requires
            old(self).wf(),
            hi_of(op) == 0xF,
        ensures
            final(self).wf(),
            final(self)@ == spec_op_f(old(self)@, op),
    {
        let x = op_x(op);
        let low = op & 0xFF;
        if low == 0x07 {
            self.v[x] = self.delay_timer;
            self.program = (self.program + 2) % 4096;
        } else if low == 0x0A {
            // The busy wait: with no key pressed the machine is left whole,
            // so the same instruction runs again next cycle.
            match self.keypad.first_pressed() {
                Some(k) => {
                    self.v[x] = k;
                    self.program = (self.program + 2) % 4096;
                },
                None => {},
            }
        } else if low == 0x15 {
            self.delay_timer = self.v[x];
            self.program = (self.program + 2) % 4096;
        } else if low == 0x18 {
            self.sound_timer = self.v[x];
            self.program = (self.program + 2) % 4096;
        } else if low == 0x1E {
            self.i = (self.i + self.v[x] as u16) % 4096;
            self.program = (self.program + 2) % 4096;
        } else if low == 0x29 {
            self.i = self.v[x] as u16 * 5;
            self.program = (self.program + 2) % 4096;
        } else if low == 0x33 {
            let vx = self.v[x];
            let at = self.i as usize;
            self.memory[at] = vx / 100;
            self.memory[(at + 1) % 4096] = (vx / 10) % 10;
            self.memory[(at + 2) % 4096] = vx % 10;
            self.program = (self.program + 2) % 4096;
        } else if low == 0x55 {
            let mut k: usize = 0;
            while k < x + 1
                invariant
                    self.wf(),
                    k <= x + 1,
                    x == x_of(op),
                    x < 16,
                    self@ == (MachineState { mem: self@.mem, ..old(self)@ }),
                    self@.mem == spec_dump_mem(old(self)@.mem, old(self)@.i, old(self)@.v, k as int),
                decreases x + 1 - k,
            {
                self.memory[(self.i as usize + k) % 4096] = self.v[k];
                k += 1;
            }
            self.program = (self.program + 2) % 4096;
        } else if low == 0x65 {
            let mut k: usize = 0;
            while k < x + 1
                invariant
                    self.wf(),
                    k <= x + 1,
                    x == x_of(op),
                    x < 16,
                    self@ == (MachineState { v: self@.v, ..old(self)@ }),
                    self@.v == spec_load_regs(old(self)@.v, old(self)@.mem, old(self)@.i, k as int),
                decreases x + 1 - k,
            {
                self.v[k] = self.memory[(self.i as usize + k) % 4096];
                k += 1;
            }
            self.program = (self.program + 2) % 4096;
        } else {
            self.program = (self.program + 2) % 4096;
        }
    }

    /// Whether the opcode is in the instruction table; anything else is
    /// reported and skipped.
    fn known_opcode(op: u16) -> (r: bool)
        ensures
            r == is_known_opcode(op),
    {
        let hi = op >> 12;
        if hi == 0x0 {
            op & 0xF == 0x0 || op & 0xF == 0xE
        } else if hi == 0x8 {
            op & 0xF <= 0x7 || op & 0xF == 0xE
        } else if hi == 0xE {
            op & 0xFF == 0x9E || op & 0xFF == 0xA1
        } else if hi == 0xF {
            let low = op & 0xFF;
            low == 0x07 || low == 0x0A || low == 0x15 || low == 0x18 || low == 0x1E || low == 0x29
                || low == 0x33 || low == 0x55 || low == 0x65
        } else {
            true
        }
    }

    /// Execute one already-fetched opcode, with `rnd` the byte drawn from
    /// the random source for this cycle. This is the whole dispatch,
    /// verified against `spec_execute` for every value of `rnd`.
    pub fn execute_opcode(&mut self, op: u16, rnd: u8) -> (r: Result<StepNote, Chip8Error>)
        requires
            old(self).wf(),
        ensures
            final(self).wf(),
            match r {
                Ok(note) => spec_execute(old(self)@, op, rnd) == Ok::<MachineState, Chip8Error>(
                    final(self)@,
                ) && note == spec_note(op, old(self)@.pc),
                Err(e) => spec_execute(old(self)@, op, rnd) == Err::<MachineState, Chip8Error>(e)
                    && final(self)@ == old(self)@,
            },
    {
        let pc0 = self.program;
        let known = Self::known_opcode(op);
        let note = if known {
            StepNote::Executed
        } else {
            StepNote::UnimplementedOpcode { opcode: op, pc: pc0 }
        };
        let hi = op >> 12;
        proof {
            lemma_decode_bounds(op);
        }
        if hi == 0x0 {
            match self.op_0xxx(op) {
                Ok(()) => Ok(note),
                Err(e) => Err(e),
            }
        } else if hi == 0x1 {
            self.op_1xxx(op);
            Ok(note)
        } else if hi == 0x2 {
            match self.op_2xxx(op) {
                Ok(()) => Ok(note),
                Err(e) => Err(e),
            }
        } else if hi == 0x3 {
            let x = op_x(op);
            let cond = self.v[x] == op_nn(op);
            self.op_skip(cond);
            Ok(note)
        } else if hi == 0x4 {
            let x = op_x(op);
            let cond = self.v[x] != op_nn(op);
            self.op_skip(cond);
            Ok(note)
        } else if hi == 0x5 {
            let x = op_x(op);
            let y = op_y(op);
            let cond = self.v[x] == self.v[y];
            self.op_skip(cond);
            Ok(note)
        } else if hi == 0x6 {
            self.op_6xxx(op);
            Ok(note)
        } else if hi == 0x7 {
            self.op_7xxx(op);
            Ok(note)
        } else if hi == 0x8 {
            self.op_8xxx(op);
            Ok(note)
        } else if hi == 0x9 {
            let x = op_x(op);
            let y = op_y(op);
            let cond = self.v[x] != self.v[y];
            self.op_skip(cond);
            Ok(note)
        } else if hi == 0xA {
            self.op_axxx(op);
            Ok(note)
        } else if hi == 0xB {
            self.op_bxxx(op);
            Ok(note)
        } else if hi == 0xC {
            self.op_cxxx(op, rnd);
            Ok(note)
        } else if hi == 0xD {
            self.op_dxxx(op);
            Ok(note)
        } else if hi == 0xE {
            self.op_exxx(op);
            Ok(note)
        } else {
            self.op_fxxx(op);
            Ok(note)
        }
    }

    /// One fetch-decode-execute cycle. The returned note reports an unknown
    /// opcode (executed as a no-op); a stack fault leaves the machine
    /// unchanged. The quantified byte is the one the random source handed
    /// this cycle; only the random-and opcode reads it.
    pub fn step(&mut self) -> (r: Result<StepNote, Chip8Error>)
        requires
            old(self).wf(),
        ensures
            final(self).wf(),
            exists|rnd: u8| #[trigger] step_post(old(self)@, final(self)@, r, rnd),
    {
        let op = self.fetch_opcode();
        let rnd: u8 = if op >> 12 == 0xC {
            random_byte()
        } else {
            0
        };
        let r = self.execute_opcode(op, rnd);
        proof {
            assert(step_post(old(self)@, self@, r, rnd));
        }
        r
    }

    /// Decrement both timers, each saturating at zero, and report whether
    /// the sound timer just reached zero: the silence event that tells the
    /// caller to stop the beep.
    pub fn tick_timers(&mut self) -> (silence: bool)
        requires
            old(self).wf(),
        ensures
            final(self).wf(),
            final(self)@ == spec_tick(old(self)@),
            silence == spec_silence(old(self)@),
    {
        let silence = self.sound_timer == 1;
        if self.delay_timer > 0 {
            self.delay_timer = self.delay_timer - 1;
        }
        if self.sound_timer > 0 {
            self.sound_timer = self.sound_timer - 1;
        }
        silence
    }

    /// One full cycle as a driving loop runs it: a step, then one tick
    /// of both timers. Reports the step's note and the silence event; a
    /// stack fault leaves the machine unchanged, timers included.
    pub fn emulate_cycle(&mut self) -> (r: Result<(StepNote, bool), Chip8Error>)
        requires
            old(self).wf(),
        ensures
            final(self).wf(),
            exists|rnd: u8| #[trigger] cycle_result_post(old(self)@, final(self)@, r, rnd),
    {
        let ghost pre = self@;
        match self.step() {
            Ok(note) => {
                let ghost mid = self@;
                let ghost rnd = choose|rnd: u8|
                    step_post(pre, mid, Ok::<StepNote, Chip8Error>(note), rnd);
                proof {
                    assert(step_post(pre, mid, Ok::<StepNote, Chip8Error>(note), rnd));
                }
                let silence = self.tick_timers();
                let outcome = (note, silence);
                proof {
                    assert(cycle_result_post(pre, self@, Ok::<(StepNote, bool), Chip8Error>(outcome), rnd));
                }
                Ok(outcome)
            },
            Err(e) => {
                proof {
                    let rnd = choose|rnd: u8|
                        step_post(pre, self@, Err::<StepNote, Chip8Error>(e), rnd);
                    assert(cycle_result_post(pre, self@, Err::<(StepNote, bool), Chip8Error>(e), rnd));
                }
                Err(e)
            },
        }
    }

    /// The program counter.
    pub fn pc(&self) -> (r: u16)
        ensures
            r == self@.pc,
    {
        self.program
    }

    /// The index register.
    pub fn index_reg(&self) -> (r: u16)
        ensures
            r == self@.i,
    {
        self.i
    }

    /// Register Vx.
    pub fn reg(&self, x: usize) -> (r: u8)
        requires
            self.wf(),
            x < 16,
        ensures
            r == self@.v[x as int],
    {
        self.v[x]
    }

    /// The byte at a memory address.
    pub fn read_mem(&self, addr: usize) -> (r: u8)
        requires
            self.wf(),
            addr < 4096,
        ensures
            r == self@.mem[addr as int],
    {
        self.memory[addr]
    }

    /// How many return addresses the stack holds.
    pub fn stack_depth(&self) -> (r: usize)
        ensures
            r == self@.sp,
    {
        self.stack_pointer
    }

    /// The delay timer's value.
    pub fn delay_timer(&self) -> (r: u8)
        ensures
            r == self@.delay,
    {
        self.delay_timer
    }

    /// The sound timer's value.
    pub fn sound_timer(&self) -> (r: u8)
        ensures
            r == self@.sound,
    {
        self.sound_timer
    }
}

} // verus!
