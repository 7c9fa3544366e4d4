//! Laws of the instruction set, proved once over the machine model: every
//! statement here holds of every well-formed machine state, not just of the
//! inputs a test happens to pick.

use vstd::prelude::*;
use crate::Chip8Error;
use crate::display::spec_draw;
use crate::display::spec_draw_bits;
use crate::display::spec_draw_rows;
use crate::keypad::lemma_first_pressed_none;
use crate::keypad::spec_first_pressed;
use crate::semantics::MachineState;
use crate::semantics::advanced;
use crate::semantics::hi_of;
use crate::semantics::n_of;
use crate::semantics::nn_of;
use crate::semantics::nnn_of;
use crate::semantics::spec_dump_mem;
use crate::semantics::spec_execute;
use crate::semantics::spec_fetch;
use crate::semantics::spec_load_regs;
use crate::semantics::x_of;
use crate::semantics::y_of;

verus! {

/// The opcode with high nibble `hi`, register operand `x` and low byte `nn`.
pub open spec fn make_op(hi: u16, x: u8, nn: u8) -> u16 {
    (hi << 12) | ((x as u16) << 8) | (nn as u16)
}

/// The opcode with high nibble `hi` and address operand `nnn`.
pub open spec fn make_addr_op(hi: u16, nnn: u16) -> u16 {
    (hi << 12) | (nnn & 0xFFF)
}

/// The opcode with high nibble `hi`, two register operands and low nibble `n`.
pub open spec fn make_reg_op(hi: u16, x: u8, y: u8, n: u8) -> u16 {
    (hi << 12) | ((x as u16) << 8) | ((y as u16) << 4) | (n as u16)
}

/// How the decode fields read a register/immediate opcode.
pub proof fn lemma_decode_make_op(hi: u16, x: u8, nn: u8)
    requires
        hi < 16,
        x < 16,
    ensures
        hi_of(make_op(hi, x, nn)) == hi,
        x_of(make_op(hi, x, nn)) == x,
        nn_of(make_op(hi, x, nn)) == nn,
        make_op(hi, x, nn) & 0xFF == nn as u16,
        make_op(hi, x, nn) & 0xF == (nn & 0xF) as u16,
{
    let op = make_op(hi, x, nn);
    assert(op >> 12 == hi && (op >> 8) & 0xF == x as u16 && op & 0xFF == nn as u16 && ((op
        & 0xFF) as u8) == nn && op & 0xF == (nn & 0xF) as u16) by (bit_vector)
        requires
            op == ((hi << 12) | ((x as u16) << 8) | (nn as u16)),
            hi < 16,
            x < 16,
    ;
}

/// How the decode fields read an address opcode.
pub proof fn lemma_decode_addr_op(hi: u16, nnn: u16)
    requires
        hi < 16,
        nnn < 4096,
    ensures
        hi_of(make_addr_op(hi, nnn)) == hi,
        nnn_of(make_addr_op(hi, nnn)) == nnn,
{
    let op = make_addr_op(hi, nnn);
    assert(op >> 12 == hi && op & 0xFFF == nnn) by (bit_vector)
        requires
            op == ((hi << 12) | (nnn & 0xFFF)),
            hi < 16,
            nnn < 4096,
    ;
}

/// How the decode fields read a two-register opcode.
pub proof fn lemma_decode_reg_op(hi: u16, x: u8, y: u8, n: u8)
    requires
        hi < 16,
        x < 16,
        y < 16,
        n < 16,
    ensures
        hi_of(make_reg_op(hi, x, y, n)) == hi,
        x_of(make_reg_op(hi, x, y, n)) == x,
        y_of(make_reg_op(hi, x, y, n)) == y,
        make_reg_op(hi, x, y, n) & 0xF == n as u16,
{
    let op = make_reg_op(hi, x, y, n);
    assert(op >> 12 == hi && (op >> 8) & 0xF == x as u16 && (op >> 4) & 0xF == y as u16 && op
        & 0xF == n as u16) by (bit_vector)
        requires
            op == ((hi << 12) | ((x as u16) << 8) | ((y as u16) << 4) | (n as u16)),
            hi < 16,
            x < 16,
            y < 16,
            n < 16,
    ;
}

/// Law: loading immediate `a` into Vx and then adding immediate `b` leaves
/// Vx holding exactly (a + b) mod 256, and neither of the two opcodes
/// touches the flag register.
pub proof fn lemma_load_then_add(s: MachineState, x: u8, a: u8, b: u8)
    requires
        s.inv(),
        x < 16,
    ensures
        ({
            &&& spec_execute(s, make_op(6, x, a), 0) matches Ok(s1)
            &&& spec_execute(s1, make_op(7, x, b), 0) matches Ok(s2)
            &&& s2.v[x as int] == (a + b) % 256
            &&& x != 15 ==> s2.v[15] == s.v[15]
        }),
{
    lemma_decode_make_op(6, x, a);
    lemma_decode_make_op(7, x, b);
    let s1 = advanced(MachineState { v: s.v.update(x as int, a), ..s }, 2);
    assert(spec_execute(s, make_op(6, x, a), 0) == Ok::<MachineState, Chip8Error>(s1));
    assert(s1.v[x as int] == a);
}

/// Law: the carry-family opcodes are the ones that write the flag register:
/// add-with-carry sets VF to 1 exactly when the sum passes 255, and the two
/// subtractions set VF to 1 exactly when there is no borrow, while Vx takes
/// the wrapped result in each case.
pub proof fn lemma_arithmetic_flags(s: MachineState, x: u8, y: u8)
    requires
        s.inv(),
        x < 15,
        y < 16,
    ensures
        ({
            let vx = s.v[x as int];
            let vy = s.v[y as int];
            &&& spec_execute(s, make_reg_op(8, x, y, 4), 0) matches Ok(s1) && s1.v[x as int] == (vx
                + vy) % 256 && s1.v[15] == (if vx + vy > 255 {
                1u8
            } else {
                0u8
            })
            &&& spec_execute(s, make_reg_op(8, x, y, 5), 0) matches Ok(s1) && s1.v[x as int] == (vx
                - vy) % 256 && s1.v[15] == (if vx >= vy {
                1u8
            } else {
                0u8
            })
            &&& spec_execute(s, make_reg_op(8, x, y, 7), 0) matches Ok(s1) && s1.v[x as int] == (vy
                - vx) % 256 && s1.v[15] == (if vy >= vx {
                1u8
            } else {
                0u8
            })
        }),
{
    lemma_decode_reg_op(8, x, y, 4);
    lemma_decode_reg_op(8, x, y, 5);
    lemma_decode_reg_op(8, x, y, 7);
}

/// Law: after a jump to address A, the next fetch reads the instruction
/// word at A itself, not at A + 2; nothing but the program counter moves.
pub proof fn lemma_jump_then_fetch(s: MachineState, nnn: u16)
    requires
        s.inv(),
        nnn < 4096,
    ensures
        ({
            &&& spec_execute(s, make_addr_op(1, nnn), 0) matches Ok(s1)
            &&& s1 == (MachineState { pc: nnn as int, ..s })
            &&& spec_fetch(s1) == (s.mem[nnn as int] * 256 + s.mem[(nnn + 1) % 4096]) as u16
        }),
{
    lemma_decode_addr_op(1, nnn);
}

/// Law: a call pushes the address of the instruction after itself, and a
/// return resumes exactly there; afterwards only the stack slot the call
/// wrote differs from the starting state.
pub proof fn lemma_call_then_return(s: MachineState, nnn: u16)
    requires
        s.inv(),
        s.sp < 16,
        nnn < 4096,
    ensures
        ({
            &&& spec_execute(s, make_addr_op(2, nnn), 0) matches Ok(s1)
            &&& s1.pc == nnn as int
            &&& s1.sp == s.sp + 1
            &&& spec_execute(s1, 0x00EE, 0) matches Ok(s2)
            &&& s2 == (MachineState {
                pc: (s.pc + 2) % 4096,
                stack: s.stack.update(s.sp, ((s.pc + 2) % 4096) as u16),
                ..s
            })
        }),
{
    lemma_decode_addr_op(2, nnn);
    assert(0x00EEu16 >> 12 == 0 && 0x00EEu16 & 0xF == 0xE) by (bit_vector);
}

/// Law: a call with all 16 stack slots in use is a stack overflow; the
/// transition yields the error, not a state.
pub proof fn lemma_call_overflow(s: MachineState, nnn: u16)
    requires
        s.inv(),
        s.sp == 16,
        nnn < 4096,
    ensures
        spec_execute(s, make_addr_op(2, nnn), 0) == Err::<MachineState, Chip8Error>(
            Chip8Error::StackOverflow,
        ),
{
    lemma_decode_addr_op(2, nnn);
}

/// Law: each of the four conditional skips advances the program counter by
/// exactly 4 when its condition holds and by exactly 2 otherwise, and
/// changes nothing else.
pub proof fn lemma_skips(s: MachineState, x: u8, y: u8, nn: u8)
    requires
        s.inv(),
        x < 16,
        y < 16,
    ensures
        spec_execute(s, make_op(3, x, nn), 0) == Ok::<MachineState, Chip8Error>(
            MachineState {
                pc: (s.pc + (if s.v[x as int] == nn {
                    4int
                } else {
                    2int
                })) % 4096,
                ..s
            },
        ),
        spec_execute(s, make_op(4, x, nn), 0) == Ok::<MachineState, Chip8Error>(
            MachineState {
                pc: (s.pc + (if s.v[x as int] != nn {
                    4int
                } else {
                    2int
                })) % 4096,
                ..s
            },
        ),
        spec_execute(s, make_reg_op(5, x, y, 0), 0) == Ok::<MachineState, Chip8Error>(
            MachineState {
                pc: (s.pc + (if s.v[x as int] == s.v[y as int] {
                    4int
                } else {
                    2int
                })) % 4096,
                ..s
            },
        ),
        spec_execute(s, make_reg_op(9, x, y, 0), 0) == Ok::<MachineState, Chip8Error>(
            MachineState {
                pc: (s.pc + (if s.v[x as int] != s.v[y as int] {
                    4int
                } else {
                    2int
                })) % 4096,
                ..s
            },
        ),
{
    lemma_decode_make_op(3, x, nn);
    lemma_decode_make_op(4, x, nn);
    lemma_decode_reg_op(5, x, y, 0);
    lemma_decode_reg_op(9, x, y, 0);
}

/// Law: the blocking key wait leaves the whole machine unchanged while no
/// key is pressed, so the same instruction re-executes cycle after cycle;
/// once a key is pressed, executing it stores the lowest pressed key's code
/// in Vx and advances past the instruction.
pub proof fn lemma_key_wait(s: MachineState, x: u8)
    requires
        s.inv(),
        x < 16,
    ensures
        (forall|k: int| 0 <= k < 16 ==> !s.keys[k]) ==> spec_execute(s, make_op(0xF, x, 0x0A), 0)
            == Ok::<MachineState, Chip8Error>(s),
        spec_first_pressed(s.keys) matches Some(k) ==> spec_execute(s, make_op(0xF, x, 0x0A), 0)
            == Ok::<MachineState, Chip8Error>(
            advanced(MachineState { v: s.v.update(x as int, k), ..s }, 2),
        ),
{
    lemma_decode_make_op(0xF, x, 0x0A);
    if forall|k: int| 0 <= k < 16 ==> !s.keys[k] {
        lemma_first_pressed_none(s.keys);
    }
}

/// Every cell `spec_dump_mem` writes holds the register it came from.
proof fn lemma_dump_mem_reads(mem: Seq<u8>, i: int, v: Seq<u8>, k: int, j: int)
    requires
        mem.len() == 4096,
        0 <= i < 4096,
        0 <= j < k <= 16,
    ensures
        spec_dump_mem(mem, i, v, k).len() == 4096,
        spec_dump_mem(mem, i, v, k)[(i + j) % 4096] == v[j],
    decreases k,
{
    if j == k - 1 {
        lemma_dump_mem_len(mem, i, v, k - 1);
    } else {
        lemma_dump_mem_reads(mem, i, v, k - 1, j);
        assert((i + j) % 4096 != (i + (k - 1)) % 4096) by {
            lemma_offsets_distinct(i, j, k - 1);
        }
    }
}

/// Dumping registers never changes the memory image's size.
proof fn lemma_dump_mem_len(mem: Seq<u8>, i: int, v: Seq<u8>, k: int)
    requires
        mem.len() == 4096,
        0 <= i < 4096,
        0 <= k <= 16,
    ensures
        spec_dump_mem(mem, i, v, k).len() == 4096,
    decreases k,
{
    if k > 0 {
        lemma_dump_mem_len(mem, i, v, k - 1);
    }
}

/// Distinct small offsets from one base land on distinct wrapped addresses.
proof fn lemma_offsets_distinct(i: int, a: int, b: int)
    requires
        0 <= i < 4096,
        0 <= a < 16,
        0 <= b < 16,
        a != b,
    ensures
        (i + a) % 4096 != (i + b) % 4096,
{
    assert((i + a) % 4096 == if i + a < 4096 {
        i + a
    } else {
        i + a - 4096
    });
    assert((i + b) % 4096 == if i + b < 4096 {
        i + b
    } else {
        i + b - 4096
    });
}

/// What each register holds after a register load.
proof fn lemma_load_regs_reads(v: Seq<u8>, mem: Seq<u8>, i: int, k: int, j: int)
    requires
        v.len() == 16,
        0 <= k <= 16,
        0 <= j < 16,
    ensures
        spec_load_regs(v, mem, i, k).len() == 16,
        j < k ==> spec_load_regs(v, mem, i, k)[j] == mem[(i + j) % 4096],
        j >= k ==> spec_load_regs(v, mem, i, k)[j] == v[j],
    decreases k,
{
    if k > 0 {
        lemma_load_regs_reads(v, mem, i, k - 1, j);
    }
}

/// Law: dumping V0..Vx to memory at the index register and then loading
/// back from the same address restores every register exactly, for every
/// x; together the two instructions advance the program counter by 4 and
/// change nothing but the dumped memory cells.
#[verifier::rlimit(50)]
pub proof fn lemma_dump_load_round_trip(s: MachineState, x: u8)
    requires
        s.inv(),
        x < 16,
    ensures
        ({
            &&& spec_execute(s, make_op(0xF, x, 0x55), 0) matches Ok(s1)
            &&& spec_execute(s1, make_op(0xF, x, 0x65), 0) matches Ok(s2)
            &&& s2 == (MachineState {
                pc: (s.pc + 4) % 4096,
                mem: spec_dump_mem(s.mem, s.i, s.v, x + 1),
                ..s
            })
        }),
{
    lemma_decode_make_op(0xF, x, 0x55);
    lemma_decode_make_op(0xF, x, 0x65);
    let mem1 = spec_dump_mem(s.mem, s.i, s.v, x + 1);
    lemma_dump_mem_len(s.mem, s.i, s.v, x + 1);
    let s1 = advanced(MachineState { mem: mem1, ..s }, 2);
    assert(spec_execute(s, make_op(0xF, x, 0x55), 0) == Ok::<MachineState, Chip8Error>(s1));
    let v2 = spec_load_regs(s.v, mem1, s.i, x + 1);
    lemma_load_regs_reads(s.v, mem1, s.i, x + 1, 0); // fixes v2's length
    assert forall|j: int| 0 <= j < 16 implies v2[j] == s.v[j] by {
        lemma_load_regs_reads(s.v, mem1, s.i, x + 1, j);
        if j < x + 1 {
            lemma_dump_mem_reads(s.mem, s.i, s.v, x + 1, j);
        }
    }
    assert(v2 =~= s.v);
    assert(((s.pc + 2) % 4096 + 2) % 4096 == (s.pc + 4) % 4096);
}

/// The framebuffer cell that bit `i` of a sprite row at `(x, y)` lands on.
pub open spec fn row_pixel(x: int, y: int, i: int) -> int {
    y * 64 + (x + i) % 64
}

/// Whether bit `i` (from the high end) of a sprite row is set.
pub open spec fn row_bit(row: u8, i: int) -> bool {
    row & (0x80u8 >> (i as u8)) != 0
}

/// Two different bits of one sprite row land on two different cells: the
/// columns wrap modulo the screen width without ever colliding.
proof fn lemma_row_pixels_distinct(x: int, y: int, a: int, b: int)
    requires
        0 <= x < 64,
        0 <= a < 8,
        0 <= b < 8,
        a != b,
    ensures
        row_pixel(x, y, a) != row_pixel(x, y, b),
{
    assert((x + a) % 64 == if x + a < 64 {
        x + a
    } else {
        x + a - 64
    });
    assert((x + b) % 64 == if x + b < 64 {
        x + b
    } else {
        x + b - 64
    });
}

/// What the first `m` bits of one sprite row do to the framebuffer, cell by
/// cell.
proof fn lemma_draw_bits_pointwise(fb: Seq<bool>, x: int, y: int, row: u8, m: int)
    requires
        fb.len() == 2048,
        0 <= x < 64,
        0 <= y < 32,
        0 <= m <= 8,
    ensures
        ({
            let q = spec_draw_bits(fb, x, y, row, m);
            &&& q.0.len() == 2048
            &&& forall|i: int|
                0 <= i < m ==> q.0[row_pixel(x, y, i)] == (fb[row_pixel(x, y, i)] != row_bit(
                    row,
                    i,
                ))
            &&& forall|p: int|
                0 <= p < 2048 && (forall|i: int| 0 <= i < m ==> p != row_pixel(x, y, i))
                    ==> q.0[p] == fb[p]
            &&& q.1 == exists|i: int| 0 <= i < m && row_bit(row, i) && fb[row_pixel(x, y, i)]
        }),
    decreases m,
{
    if m > 0 {
        lemma_draw_bits_pointwise(fb, x, y, row, m - 1);
        let q0 = spec_draw_bits(fb, x, y, row, m - 1);
        let q = spec_draw_bits(fb, x, y, row, m);
        let p0 = row_pixel(x, y, m - 1);
        assert(0 <= p0 < 2048);
        assert forall|i: int| 0 <= i < m - 1 implies p0 != row_pixel(x, y, i) by {
            lemma_row_pixels_distinct(x, y, m - 1, i);
        }
        assert(q0.0[p0] == fb[p0]);
        if row_bit(row, m - 1) {
            assert(q.0 == q0.0.update(p0, !q0.0[p0]));
            assert(q.1 == (q0.1 || fb[p0]));
            if q.1 {
                if q0.1 {
                    let i = choose|i: int|
                        0 <= i < m - 1 && row_bit(row, i) && fb[row_pixel(x, y, i)];
                    assert(0 <= i < m && row_bit(row, i) && fb[row_pixel(x, y, i)]);
                } else {
                    assert(row_bit(row, m - 1) && fb[row_pixel(x, y, m - 1)]);
                }
            }
        } else {
            if q.1 {
                let i = choose|i: int| 0 <= i < m - 1 && row_bit(row, i) && fb[row_pixel(x, y, i)];
                assert(0 <= i < m && row_bit(row, i) && fb[row_pixel(x, y, i)]);
            }
            if exists|i: int| 0 <= i < m && row_bit(row, i) && fb[row_pixel(x, y, i)] {
                let i = choose|i: int| 0 <= i < m && row_bit(row, i) && fb[row_pixel(x, y, i)];
                assert(i < m - 1);
            }
        }
    }
}

/// Law: drawing one 8-bit sprite row at `(x, y)` flips exactly the cells of
/// screen row y at columns (x + i) mod 64 whose sprite bit is set — the
/// columns wrap around the right screen edge — leaves every other pixel
/// alone, and reports a collision exactly when a flipped cell was lit.
pub proof fn lemma_draw_row_wraps(fb: Seq<bool>, x: int, y: int, row: u8)
    requires
        fb.len() == 2048,
        0 <= x < 64,
        0 <= y < 32,
    ensures
        ({
            let d = spec_draw(fb, x, y, seq![row]);
            &&& d.0.len() == 2048
            &&& forall|i: int|
                0 <= i < 8 ==> d.0[row_pixel(x, y, i)] == (fb[row_pixel(x, y, i)] != row_bit(
                    row,
                    i,
                ))
            &&& forall|p: int|
                0 <= p < 2048 && (forall|i: int| 0 <= i < 8 ==> p != row_pixel(x, y, i)) ==> d.0[p]
                    == fb[p]
            &&& d.1 == exists|i: int| 0 <= i < 8 && row_bit(row, i) && fb[row_pixel(x, y, i)]
        }),
{
    let sprite = seq![row];
    assert(sprite.len() == 1);
    assert(sprite[0] == row);
    assert((y + 0) % 32 == y);
    lemma_draw_bits_pointwise(fb, x, y, row, 8);
    let r0 = spec_draw_rows(fb, x, y, sprite, 0);
    assert(r0.0 == fb && !r0.1);
    let q = spec_draw_bits(fb, x, y, row, 8);
    let d = spec_draw(fb, x, y, sprite);
    assert(d == spec_draw_rows(fb, x, y, sprite, 1));
    assert(d.0 == q.0 && d.1 == (r0.1 || q.1));
}

} // verus!
