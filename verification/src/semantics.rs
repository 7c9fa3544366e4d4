//! The mathematical model of the machine: a ghost state record and the
//! transition function for every opcode of the instruction set. The exec
//! interpreter in `cpu` is proved to implement exactly these transitions.

use vstd::prelude::*;
use crate::Chip8Error;
use crate::StepNote;
use crate::display::spec_draw;
use crate::keypad::spec_first_pressed;

verus! {

/// Ghost image of the whole machine: registers, program counter, index
/// register, call stack, timers, the 4096-byte memory image, the 64x32
/// framebuffer (row-major, 2048 pixels) and the 16 key states.
pub ghost struct MachineState {
    pub pc: int,
    pub i: int,
    pub sp: int,
    pub stack: Seq<u16>,
    pub delay: u8,
    pub sound: u8,
    pub v: Seq<u8>,
    pub mem: Seq<u8>,
    pub fb: Seq<bool>,
    pub keys: Seq<bool>,
}

impl MachineState {
    /// Well-formedness: the sizes are those of the architecture, the program
    /// counter and index register stay inside the 12-bit address space, and
    /// the stack pointer never passes the 16 slots.
    pub open spec fn inv(self) -> bool {
        &&& 0 <= self.pc < 4096
        &&& 0 <= self.i < 4096
        &&& 0 <= self.sp <= 16
        &&& self.stack.len() == 16
        &&& self.v.len() == 16
        &&& self.mem.len() == 4096
        &&& self.fb.len() == 2048
        &&& self.keys.len() == 16
    }
}

/// High nibble of an opcode: the primary dispatch key.
pub open spec fn hi_of(op: u16) -> u16 {
    op >> 12
}

/// The register number in the second nibble.
pub open spec fn x_of(op: u16) -> int {
    ((op >> 8) & 0xF) as int
}

/// The register number in the third nibble.
pub open spec fn y_of(op: u16) -> int {
    ((op >> 4) & 0xF) as int
}

/// The low nibble: a row count or secondary dispatch key.
pub open spec fn n_of(op: u16) -> int {
    (op & 0xF) as int
}

/// The low byte: an immediate operand or secondary dispatch key.
pub open spec fn nn_of(op: u16) -> u8 {
    (op & 0xFF) as u8
}

/// The low 12 bits: an address operand.
pub open spec fn nnn_of(op: u16) -> int {
    (op & 0xFFF) as int
}

/// Ranges of the decoded fields.
pub proof fn lemma_decode_bounds(op: u16)
    ensures
        0 <= hi_of(op) < 16,
        0 <= x_of(op) < 16,
        0 <= y_of(op) < 16,
        0 <= n_of(op) < 16,
        0 <= nnn_of(op) < 4096,
{
    assert(op >> 12 < 16 && ((op >> 8) & 0xF) < 16 && ((op >> 4) & 0xF) < 16 && (op & 0xF) < 16
        && (op & 0xFFF) < 4096) by (bit_vector);
}

/// The instruction word at the program counter: two consecutive memory
/// bytes, big-endian, the second one wrapping around the address space.
pub open spec fn spec_fetch(s: MachineState) -> u16
    recommends
        s.inv(),
{
    (s.mem[s.pc] * 256 + s.mem[(s.pc + 1) % 4096]) as u16
}

/// `s` with the program counter moved forward by `k` bytes, wrapping inside
/// the 12-bit address space.
pub open spec fn advanced(s: MachineState, k: int) -> MachineState {
    MachineState { pc: (s.pc + k) % 4096, ..s }
}

/// A conditional skip: past the next instruction when `cond` holds, else to
/// the next instruction.
pub open spec fn skipped(s: MachineState, cond: bool) -> MachineState {
    advanced(s, if cond { 4int } else { 2int })
}

/// Family 0: clear screen, return from subroutine; anything else in the
/// family is a no-op.
pub open spec fn spec_op_0(s: MachineState, op: u16) -> Result<MachineState, Chip8Error> {
    if op & 0xF == 0x0 {
        Ok(advanced(MachineState { fb: Seq::new(2048, |p: int| false), ..s }, 2))
    } else if op & 0xF == 0xE {
        if s.sp == 0 {
            Err(Chip8Error::StackUnderflow)
        } else {
            Ok(MachineState { pc: (s.stack[s.sp - 1] as int) % 4096, sp: s.sp - 1, ..s })
        }
    } else {
        Ok(advanced(s, 2))
    }
}

/// Family 2: call. The address of the instruction after the call is pushed,
/// so that a return resumes there; a 17th nested call is a stack overflow.
pub open spec fn spec_op_2(s: MachineState, op: u16) -> Result<MachineState, Chip8Error> {
    if s.sp == 16 {
        Err(Chip8Error::StackOverflow)
    } else {
        Ok(MachineState {
            stack: s.stack.update(s.sp, ((s.pc + 2) % 4096) as u16),
            sp: s.sp + 1,
            pc: nnn_of(op),
            ..s
        })
    }
}

/// Family 8: register-to-register arithmetic and shifts. Both operands are
/// read before either write, and the flag register is written before the
/// result, so the result wins if `x` names the flag register itself.
///
/// The shift convention here: the shifted-out bit, as a 0/1 value, goes to
/// the flag register, symmetrically for both directions.
pub open spec fn spec_op_8(s: MachineState, op: u16) -> MachineState {
    let x = x_of(op);
    let vx = s.v[x];
    let vy = s.v[y_of(op)];
    let low = op & 0xF;
    if low == 0x0 {
        advanced(MachineState { v: s.v.update(x, vy), ..s }, 2)
    } else if low == 0x1 {
        advanced(MachineState { v: s.v.update(x, vx | vy), ..s }, 2)
    } else if low == 0x2 {
        advanced(MachineState { v: s.v.update(x, vx & vy), ..s }, 2)
    } else if low == 0x3 {
        advanced(MachineState { v: s.v.update(x, vx ^ vy), ..s }, 2)
    } else if low == 0x4 {
        let flag: u8 = if vx + vy > 255 { 1 } else { 0 };
        advanced(MachineState { v: s.v.update(15, flag).update(x, ((vx + vy) % 256) as u8), ..s }, 2)
    } else if low == 0x5 {
        let flag: u8 = if vx >= vy { 1 } else { 0 };
        advanced(MachineState { v: s.v.update(15, flag).update(x, ((vx - vy) % 256) as u8), ..s }, 2)
    } else if low == 0x6 {
        advanced(MachineState { v: s.v.update(15, vx & 1).update(x, vx >> 1), ..s }, 2)
    } else if low == 0x7 {
        let flag: u8 = if vy >= vx { 1 } else { 0 };
        advanced(MachineState { v: s.v.update(15, flag).update(x, ((vy - vx) % 256) as u8), ..s }, 2)
    } else if low == 0xE {
        advanced(MachineState { v: s.v.update(15, vx >> 7).update(x, ((vx * 2) % 256) as u8), ..s }, 2)
    } else {
        advanced(s, 2)
    }
}

/// Family D: draw `n` sprite rows read from memory at the index register
/// (wrapping around the address space) at the coordinates in Vx and Vy,
/// taken modulo the screen size; the flag register records a collision.
pub open spec fn spec_op_d(s: MachineState, op: u16) -> MachineState {
    let sprite = Seq::new(n_of(op) as nat, |k: int| s.mem[(s.i + k) % 4096]);
    let r = spec_draw(s.fb, (s.v[x_of(op)] as int) % 64, (s.v[y_of(op)] as int) % 32, sprite);
    advanced(
        MachineState { fb: r.0, v: s.v.update(15, if r.1 { 1u8 } else { 0u8 }), ..s },
        2,
    )
}

/// Family E: skip on the state of the key named by the low nibble of Vx.
pub open spec fn spec_op_e(s: MachineState, op: u16) -> MachineState {
    let pressed = s.keys[(s.v[x_of(op)] & 0xF) as int];
    if op & 0xFF == 0x9E {
        skipped(s, pressed)
    } else if op & 0xFF == 0xA1 {
        skipped(s, !pressed)
    } else {
        advanced(s, 2)
    }
}

/// Memory after storing `v[0..k)` at addresses `i, i+1, ...`, each taken
/// modulo the size of the address space.
pub open spec fn spec_dump_mem(mem: Seq<u8>, i: int, v: Seq<u8>, k: int) -> Seq<u8>
    decreases k,
{
    if k <= 0 {
        mem
    } else {
        spec_dump_mem(mem, i, v, k - 1).update((i + (k - 1)) % 4096, v[k - 1])
    }
}

/// Registers after loading `v[0..k)` from memory at `i, i+1, ...`, each
/// address taken modulo the size of the address space.
pub open spec fn spec_load_regs(v: Seq<u8>, mem: Seq<u8>, i: int, k: int) -> Seq<u8>
    decreases k,
{
    if k <= 0 {
        v
    } else {
        spec_load_regs(v, mem, i, k - 1).update(k - 1, mem[(i + (k - 1)) % 4096])
    }
}

/// Family F: timers, the blocking key wait, index arithmetic, the font
/// table, decimal decomposition, and the register dump and load.
pub open spec fn spec_op_f(s: MachineState, op: u16) -> MachineState {
    let x = x_of(op);
    let vx = s.v[x];
    let low = op & 0xFF;
    if low == 0x07 {
        advanced(MachineState { v: s.v.update(x, s.delay), ..s }, 2)
    } else if low == 0x0A {
        match spec_first_pressed(s.keys) {
            Some(k) => advanced(MachineState { v: s.v.update(x, k), ..s }, 2),
            None => s,
        }
    } else if low == 0x15 {
        advanced(MachineState { delay: vx, ..s }, 2)
    } else if low == 0x18 {
        advanced(MachineState { sound: vx, ..s }, 2)
    } else if low == 0x1E {
        advanced(MachineState { i: (s.i + vx) % 4096, ..s }, 2)
    } else if low == 0x29 {
        advanced(MachineState { i: vx * 5, ..s }, 2)
    } else if low == 0x33 {
        let mem = s.mem.update(s.i, (vx / 100) as u8).update(
            (s.i + 1) % 4096,
            ((vx / 10) % 10) as u8,
        ).update((s.i + 2) % 4096, (vx % 10) as u8);
        advanced(MachineState { mem, ..s }, 2)
    } else if low == 0x55 {
        advanced(MachineState { mem: spec_dump_mem(s.mem, s.i, s.v, x + 1), ..s }, 2)
    } else if low == 0x65 {
        advanced(MachineState { v: spec_load_regs(s.v, s.mem, s.i, x + 1), ..s }, 2)
    } else {
        advanced(s, 2)
    }
}

/// One fetch-decode-execute transition: what executing `op` does to the
/// machine. `rnd` is the byte that the random-number source handed the
/// machine this cycle; only the random-and opcode reads it.
pub open spec fn spec_execute(s: MachineState, op: u16, rnd: u8) -> Result<
    MachineState,
    Chip8Error,
>
    recommends
        s.inv(),
{
    let hi = hi_of(op);
    if hi == 0x0 {
        spec_op_0(s, op)
    } else if hi == 0x1 {
        Ok(MachineState { pc: nnn_of(op), ..s })
    } else if hi == 0x2 {
        spec_op_2(s, op)
    } else if hi == 0x3 {
        Ok(skipped(s, s.v[x_of(op)] == nn_of(op)))
    } else if hi == 0x4 {
        Ok(skipped(s, s.v[x_of(op)] != nn_of(op)))
    } else if hi == 0x5 {
        Ok(skipped(s, s.v[x_of(op)] == s.v[y_of(op)]))
    } else if hi == 0x6 {
        Ok(advanced(MachineState { v: s.v.update(x_of(op), nn_of(op)), ..s }, 2))
    } else if hi == 0x7 {
        Ok(
            advanced(
                MachineState { v: s.v.update(x_of(op), ((s.v[x_of(op)] + nn_of(op)) % 256) as u8), ..s },
                2,
            ),
        )
    } else if hi == 0x8 {
        Ok(spec_op_8(s, op))
    } else if hi == 0x9 {
        Ok(skipped(s, s.v[x_of(op)] != s.v[y_of(op)]))
    } else if hi == 0xA {
        Ok(advanced(MachineState { i: nnn_of(op), ..s }, 2))
    } else if hi == 0xB {
        Ok(MachineState { pc: (nnn_of(op) + s.v[0]) % 4096, ..s })
    } else if hi == 0xC {
        Ok(advanced(MachineState { v: s.v.update(x_of(op), rnd & nn_of(op)), ..s }, 2))
    } else if hi == 0xD {
        Ok(spec_op_d(s, op))
    } else if hi == 0xE {
        Ok(spec_op_e(s, op))
    } else {
        Ok(spec_op_f(s, op))
    }
}

/// Whether the opcode is in the instruction table. Anything else executes
/// as a no-op that advances past the instruction, with a diagnostic.
pub open spec fn is_known_opcode(op: u16) -> bool {
    let hi = hi_of(op);
    if hi == 0x0 {
        op & 0xF == 0x0 || op & 0xF == 0xE
    } else if hi == 0x8 {
        op & 0xF <= 0x7 || op & 0xF == 0xE
    } else if hi == 0xE {
        op & 0xFF == 0x9E || op & 0xFF == 0xA1
    } else if hi == 0xF {
        let low = op & 0xFF;
        low == 0x07 || low == 0x0A || low == 0x15 || low == 0x18 || low == 0x1E || low == 0x29
            || low == 0x33 || low == 0x55 || low == 0x65
    } else {
        true
    }
}

/// What a cycle reports about the opcode it executed.
pub open spec fn spec_note(op: u16, pc: int) -> StepNote {
    if is_known_opcode(op) {
        StepNote::Executed
    } else {
        StepNote::UnimplementedOpcode { opcode: op, pc: pc as u16 }
    }
}

/// One timer decrement, saturating at zero.
pub open spec fn spec_tick_timer(t: u8) -> u8 {
    if t > 0 {
        (t - 1) as u8
    } else {
        0u8
    }
}

/// Both timers decremented once.
pub open spec fn spec_tick(s: MachineState) -> MachineState {
    MachineState { delay: spec_tick_timer(s.delay), sound: spec_tick_timer(s.sound), ..s }
}

/// Whether this tick makes the sound timer reach zero: the one externally
/// observable timer signal.
pub open spec fn spec_silence(s: MachineState) -> bool {
    s.sound == 1
}

/// The relation that one `step` call establishes between the machine before
/// and after, the returned value, and the byte `rnd` drawn from the random
/// source: the fetched opcode was executed per `spec_execute`, or a fatal
/// stack fault was reported with the machine left unchanged.
pub open spec fn step_post(
    pre: MachineState,
    post: MachineState,
    r: Result<StepNote, Chip8Error>,
    rnd: u8,
) -> bool {
    let op = spec_fetch(pre);
    match r {
        Ok(note) => spec_execute(pre, op, rnd) == Ok::<MachineState, Chip8Error>(post) && note
            == spec_note(op, pre.pc),
        Err(e) => spec_execute(pre, op, rnd) == Err::<MachineState, Chip8Error>(e) && post == pre,
    }
}

/// The relation one full cycle (a step, then one tick of both timers)
/// establishes when no fault occurs: the fetched opcode was executed with
/// random byte `rnd`, then both timers were decremented once.
pub open spec fn cycle_post(
    pre: MachineState,
    post: MachineState,
    note: StepNote,
    silence: bool,
    rnd: u8,
) -> bool {
    let op = spec_fetch(pre);
    match spec_execute(pre, op, rnd) {
        Ok(mid) => post == spec_tick(mid) && silence == spec_silence(mid) && note == spec_note(
            op,
            pre.pc,
        ),
        Err(_) => false,
    }
}

/// The relation one `emulate_cycle` call establishes between the machine
/// before and after, the returned value and the random byte `rnd`: a step
/// per `step_post`, then, when it succeeded, one tick of both timers.
pub open spec fn cycle_result_post(
    pre: MachineState,
    post: MachineState,
    r: Result<(StepNote, bool), Chip8Error>,
    rnd: u8,
) -> bool {
    match r {
        Ok(outcome) => cycle_post(pre, post, outcome.0, outcome.1, rnd),
        Err(e) => spec_execute(pre, spec_fetch(pre), rnd) == Err::<MachineState, Chip8Error>(e)
            && post == pre,
    }
}

/// The memory image after copying a program over the bytes from 0x200 on;
/// everything below 0x200 and past the program's end is untouched.
pub open spec fn spec_load(s: MachineState, prog: Seq<u8>) -> MachineState {
    MachineState {
        mem: Seq::new(
            4096,
            |a: int|
                if 0x200 <= a < 0x200 + prog.len() {
                    prog[a - 0x200]
                } else {
                    s.mem[a]
                },
        ),
        ..s
    }
}

/// The built-in font table: 16 glyphs of 5 rows each, installed at the
/// bottom of memory at initialization.
pub open spec fn spec_fonts() -> Seq<u8> {
    seq![
        0xF0u8, 0x90, 0x90, 0x90, 0xF0,
        0x20, 0x60, 0x20, 0x20, 0x70,
        0xF0, 0x10, 0xF0, 0x80, 0xF0,
        0xF0, 0x10, 0xF0, 0x10, 0xF0,
        0x90, 0x90, 0xF0, 0x10, 0x10,
        0xF0, 0x80, 0xF0, 0x10, 0xF0,
        0xF0, 0x80, 0xF0, 0x90, 0xF0,
        0xF0, 0x10, 0x20, 0x40, 0x40,
        0xF0, 0x90, 0xF0, 0x90, 0xF0,
        0xF0, 0x90, 0xF0, 0x10, 0xF0,
        0xF0, 0x90, 0xF0, 0x90, 0x90,
        0xE0, 0x90, 0xE0, 0x90, 0xE0,
        0xF0, 0x80, 0x80, 0x80, 0xF0,
        0xE0, 0x90, 0x90, 0x90, 0xE0,
        0xF0, 0x80, 0xF0, 0x80, 0xF0,
        0xF0, 0x80, 0xF0, 0x80, 0x80,
    ]
}

/// The memory image at initialization: the font table in the first 80
/// bytes, zero everywhere else.
pub open spec fn spec_init_mem() -> Seq<u8> {
    Seq::new(4096, |k: int| if k < 80 { spec_fonts()[k] } else { 0u8 })
}

/// The whole machine at initialization.
pub open spec fn spec_init() -> MachineState {
    MachineState {
        pc: 0x200,
        i: 0,
        sp: 0,
        stack: Seq::new(16, |k: int| 0u16),
        delay: 0,
        sound: 0,
        v: Seq::new(16, |k: int| 0u8),
        mem: spec_init_mem(),
        fb: Seq::new(2048, |p: int| false),
        keys: Seq::new(16, |k: int| false),
    }
}

} // verus!
