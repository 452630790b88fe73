//! The fetch-decode-execute step: what each instruction does to the machine,
//! stated over the model, and the code that does it.

use crate::decode::{decode, decoded, Instruction};
use crate::display::{
    collides, draw_sprite, drawn, lemma_draw_twice_collides, lemma_draw_twice_restores, sprite_bit,
    target_pixel,
};
use crate::machine::{copy_into, overlay, Chip8, Machine};
use crate::random::random_byte;
use vstd::prelude::*;

verus! {

/// Why an instruction was not executed. The machine is left as it was.
#[derive(Clone, Copy, Debug, PartialEq, Eq)]
pub enum StepError {
    /// A return with an empty call stack.
    StackUnderflow,
    /// A call with a full call stack, or a stack pointer beyond the stack.
    StackOverflow,
    /// A key instruction whose register holds no key index.
    KeyOutOfBounds,
    /// A read beyond the end of memory, or a write beyond it or into the
    /// font.
    MemoryOutOfBounds,
    /// The program counter does not point at two bytes of program memory.
    ProgramCounterOutOfBounds,
    /// The word at the program counter encodes no instruction.
    UnknownOpcode(u16),
}

/// `n` reduced to eight bits.
pub open spec fn wrap8(n: int) -> u8 {
    (n % 256) as u8
}

/// `n` reduced to sixteen bits.
pub open spec fn wrap16(n: int) -> u16 {
    (n % 65536) as u16
}

/// A condition as a flag value for `VF`.
pub open spec fn flag(b: bool) -> u8 {
    if b {
        1
    } else {
        0
    }
}

/// The machine with its program counter moved past the current instruction,
/// and past the next one too where `skip` holds.
pub open spec fn advance(m: Machine, skip: bool) -> Machine {
    Machine { pc: wrap16(m.pc + if skip { 4int } else { 2int }), ..m }
}

/// The highest key index below `below` whose key is down.
pub open spec fn highest_key(key: Seq<u8>, below: int) -> Option<u8>
    decreases below,
{
    if below <= 0 {
        None
    } else if key[below - 1] != 0 {
        Some((below - 1) as u8)
    } else {
        highest_key(key, below - 1)
    }
}

/// The rows of the sprite of height `n` at address `i`.
pub open spec fn sprite_rows(memory: Seq<u8>, i: u16, n: u8) -> Seq<u8> {
    if n == 0 {
        memory.subrange(0, 0)
    } else {
        memory.subrange(i as int, i + n)
    }
}

/// The machine after `ins` is executed in state `m`, with `rnd` as the
/// random byte, or the error that leaves `m` as it is.
///
/// Where an instruction writes `VF` and `VX`, the flag is written first and
/// the operands of the second write are read after it.
pub open spec fn after(m: Machine, ins: Instruction, rnd: u8) -> Result<Machine, StepError> {
    match ins {
        Instruction::ClearScreen => Ok(
            advance(Machine { gfx: Seq::new(2048, |p: int| 0u8), ..m }, false),
        ),
        Instruction::Return => if m.sp == 0 {
            Err(StepError::StackUnderflow)
        } else if m.sp > 16 {
            Err(StepError::StackOverflow)
        } else {
            Ok(Machine { sp: (m.sp - 1) as usize, pc: wrap16(m.stack[m.sp - 1] + 2), ..m })
        },
        Instruction::Sys(a) => Ok(Machine { pc: a, ..m }),
        Instruction::Jump(a) => Ok(Machine { pc: a, ..m }),
        Instruction::Call(a) => if m.sp >= 16 {
            Err(StepError::StackOverflow)
        } else {
            Ok(
                Machine {
                    stack: m.stack.update(m.sp as int, m.pc),
                    sp: (m.sp + 1) as usize,
                    pc: a,
                    ..m
                },
            )
        },
        Instruction::SkipEqImm(x, nn) => Ok(advance(m, m.v[x as int] == nn)),
        Instruction::SkipNeImm(x, nn) => Ok(advance(m, m.v[x as int] != nn)),
        Instruction::SkipEqReg(x, y) => Ok(advance(m, m.v[x as int] == m.v[y as int])),
        Instruction::SkipNeReg(x, y) => Ok(advance(m, m.v[x as int] != m.v[y as int])),
        Instruction::LoadImm(x, nn) => Ok(
            advance(Machine { v: m.v.update(x as int, nn), ..m }, false),
        ),
        Instruction::AddImm(x, nn) => Ok(
            advance(Machine { v: m.v.update(x as int, wrap8(m.v[x as int] + nn)), ..m }, false),
        ),
        Instruction::Move(x, y) => Ok(
            advance(Machine { v: m.v.update(x as int, m.v[y as int]), ..m }, false),
        ),
        Instruction::Or(x, y) => Ok(
            advance(Machine { v: m.v.update(x as int, m.v[x as int] | m.v[y as int]), ..m }, false),
        ),
        Instruction::And(x, y) => Ok(
            advance(Machine { v: m.v.update(x as int, m.v[x as int] & m.v[y as int]), ..m }, false),
        ),
        Instruction::Xor(x, y) => Ok(
            advance(Machine { v: m.v.update(x as int, m.v[x as int] ^ m.v[y as int]), ..m }, false),
        ),
        Instruction::AddReg(x, y) => {
            let sum = m.v[x as int] + m.v[y as int];
            let flagged = m.v.update(15, flag(sum > 255));
            Ok(advance(Machine { v: flagged.update(x as int, wrap8(sum)), ..m }, false))
        },
        Instruction::SubReg(x, y) => {
            let flagged = m.v.update(15, flag(m.v[x as int] > m.v[y as int]));
            Ok(
                advance(
                    Machine {
                        v: flagged.update(x as int, wrap8(flagged[x as int] - flagged[y as int])),
                        ..m
                    },
                    false,
                ),
            )
        },
        Instruction::ShiftRight(x) => {
            let flagged = m.v.update(15, m.v[x as int] & 1);
            Ok(advance(Machine { v: flagged.update(x as int, flagged[x as int] >> 1), ..m }, false))
        },
        Instruction::SubFrom(x, y) => {
            let flagged = m.v.update(15, flag(m.v[y as int] > m.v[x as int]));
            Ok(
                advance(
                    Machine {
                        v: flagged.update(x as int, wrap8(flagged[y as int] - flagged[x as int])),
                        ..m
                    },
                    false,
                ),
            )
        },
        Instruction::ShiftLeft(x) => {
            let flagged = m.v.update(15, m.v[x as int] >> 7);
            Ok(advance(Machine { v: flagged.update(x as int, flagged[x as int] << 1), ..m }, false))
        },
        Instruction::LoadIndex(a) => Ok(advance(Machine { i: a, ..m }, false)),
        Instruction::JumpOffset(a) => Ok(Machine { pc: wrap16(a + m.v[0]), ..m }),
        Instruction::Random(x, nn) => Ok(
            advance(Machine { v: m.v.update(x as int, nn & rnd), ..m }, false),
        ),
        Instruction::Draw(x, y, n) => if n > 0 && m.i + n > 4096 {
            Err(StepError::MemoryOutOfBounds)
        } else {
            let rows = sprite_rows(m.memory, m.i, n);
            let vx = m.v[x as int];
            let vy = m.v[y as int];
            Ok(
                advance(
                    Machine {
                        gfx: drawn(m.gfx, rows, vx, vy),
                        v: m.v.update(15, flag(collides(m.gfx, rows, vx, vy))),
                        ..m
                    },
                    false,
                ),
            )
        },
        Instruction::SkipKeyDown(x) => if m.v[x as int] >= 16 {
            Err(StepError::KeyOutOfBounds)
        } else {
            Ok(advance(m, m.key[m.v[x as int] as int] != 0))
        },
        Instruction::SkipKeyUp(x) => if m.v[x as int] >= 16 {
            Err(StepError::KeyOutOfBounds)
        } else {
            Ok(advance(m, m.key[m.v[x as int] as int] == 0))
        },
        Instruction::ReadDelay(x) => Ok(
            advance(Machine { v: m.v.update(x as int, m.delay_timer), ..m }, false),
        ),
        Instruction::WaitKey(x) => match highest_key(m.key, 16) {
            Some(k) => Ok(advance(Machine { v: m.v.update(x as int, k), ..m }, false)),
            None => Ok(m),
        },
        Instruction::SetDelay(x) => Ok(advance(Machine { delay_timer: m.v[x as int], ..m }, false)),
        Instruction::SetSound(x) => Ok(advance(Machine { sound_timer: m.v[x as int], ..m }, false)),
        Instruction::AddIndex(x) => Ok(
            advance(Machine { i: wrap16(m.i + m.v[x as int]), ..m }, false),
        ),
        Instruction::FontAddr(x) => Ok(
            advance(Machine { i: (m.v[x as int] * 5) as u16, ..m }, false),
        ),
        Instruction::StoreBcd(x) => if m.i < 0x50 || m.i + 2 > 4095 {
            Err(StepError::MemoryOutOfBounds)
        } else {
            let vx = m.v[x as int];
            Ok(
                advance(
                    Machine {
                        memory: m.memory.update(m.i as int, vx / 100).update(
                            m.i + 1,
                            (vx / 10) % 10,
                        ).update(m.i + 2, vx % 10),
                        ..m
                    },
                    false,
                ),
            )
        },
        Instruction::StoreRegs(x) => if m.i < 0x50 || m.i + x > 4095 {
            Err(StepError::MemoryOutOfBounds)
        } else {
            Ok(
                advance(
                    Machine {
                        memory: overlay(m.memory, m.i as int, m.v.subrange(0, x + 1)),
                        i: (m.i + x + 1) as u16,
                        ..m
                    },
                    false,
                ),
            )
        },
        Instruction::LoadRegs(x) => if m.i + x > 4095 {
            Err(StepError::MemoryOutOfBounds)
        } else {
            Ok(
                advance(
                    Machine {
                        v: overlay(m.v, 0, m.memory.subrange(m.i as int, m.i + x + 1)),
                        i: (m.i + x + 1) as u16,
                        ..m
                    },
                    false,
                ),
            )
        },
    }
}

/// The word at the program counter, high byte first, or the error where the
/// program counter is outside `0x200..=0xFFE`.
pub open spec fn fetched(m: Machine) -> Result<u16, StepError> {
    if 0x200 <= m.pc <= 0xFFE {
        Ok((m.memory[m.pc as int] * 256 + m.memory[m.pc + 1]) as u16)
    } else {
        Err(StepError::ProgramCounterOutOfBounds)
    }
}

/// The machine after one cycle from state `m`, with `rnd` as the random
/// byte, or the error that leaves `m` as it is.
pub open spec fn stepped(m: Machine, rnd: u8) -> Result<Machine, StepError> {
    match fetched(m) {
        Err(e) => Err(e),
        Ok(opcode) => match decoded(opcode) {
            None => Err(StepError::UnknownOpcode(opcode)),
            Some(ins) => after(m, ins, rnd),
        },
    }
}

/// Whether `next` and `r` are what `expected` asks for from state `m`: the
/// new state with `Ok`, or the error with the state unchanged.
pub open spec fn is_outcome(
    expected: Result<Machine, StepError>,
    m: Machine,
    next: Machine,
    r: Result<(), StepError>,
) -> bool {
    match expected {
        Ok(e) => r is Ok && next == e,
        Err(e) => r == Err::<(), StepError>(e) && next == m,
    }
}

/// Whether the cycle from state `m` executes `CXNN`, the one instruction
/// whose result depends on the random byte.
pub open spec fn uses_random(m: Machine) -> bool {
    fetched(m) matches Ok(opcode) && decoded(opcode) matches Some(Instruction::Random(_, _))
}

/// The program counter `by` bytes further on, within the sixteen bits of the
/// register.
fn move_on(pc: u16, by: u16) -> (r: u16)
    ensures
        r == wrap16(pc + by),
{
    pc.wrapping_add(by)
}

/// Scans the keypad from key 0 to key 15 and returns the last key found
/// down.
pub fn pressed_key(key: &[u8; 16]) -> (r: Option<u8>)
    ensures
        r == highest_key(key@, 16),
{
    let mut found: Option<u8> = None;
    let mut k: u8 = 0;
    while k < 16
        invariant
            k <= 16,
            found == highest_key(key@, k as int),
        decreases 16 - k,
    {
        if key[k as usize] != 0 {
            found = Some(k);
        }
        k += 1;
    }
    found
}

/// Reads the word at the program counter.
pub fn fetch(chip8: &Chip8) -> (r: Result<u16, StepError>)
    ensures
        r == fetched(chip8@),
{
    if chip8.pc < 0x200 || chip8.pc > 0xFFE {
        return Err(StepError::ProgramCounterOutOfBounds);
    }
    let high = chip8.memory[chip8.pc as usize];
    let low = chip8.memory[(chip8.pc + 1) as usize];
    assert(((high as u16) << 8 | low as u16) == high as u16 * 256 + low as u16) by (bit_vector);
    Ok((high as u16) << 8 | low as u16)
}

/// Whether `ins` moves the program counter, uses the call stack or clears the
/// display.
spec fn in_flow_group(ins: Instruction) -> bool {
    ins matches (Instruction::ClearScreen | Instruction::Return | Instruction::Sys(_)
        | Instruction::Jump(_) | Instruction::Call(_) | Instruction::JumpOffset(_))
}

/// Executes a jump, a call, a return or a clear of the display.
fn execute_flow(chip8: &mut Chip8, ins: Instruction, rnd: u8) -> (r: Result<(), StepError>)
    requires
        ins.wf(),
        in_flow_group(ins),
    ensures
        is_outcome(after(old(chip8)@, ins, rnd), old(chip8)@, final(chip8)@, r),
{
    let r = match ins {
        Instruction::ClearScreen => {
            chip8.gfx = [0u8; 2048];
            chip8.pc = move_on(chip8.pc, 2);
            assert(chip8.gfx@ =~= Seq::new(2048, |p: int| 0u8));
            Ok(())
        },
        Instruction::Return => {
            if chip8.sp == 0 {
                Err(StepError::StackUnderflow)
            } else if chip8.sp > 16 {
                Err(StepError::StackOverflow)
            } else {
                chip8.sp -= 1;
                chip8.pc = chip8.stack[chip8.sp].wrapping_add(2);
                Ok(())
            }
        },
        Instruction::Sys(a) => {
            chip8.pc = a;
            Ok(())
        },
        Instruction::Jump(a) => {
            chip8.pc = a;
            Ok(())
        },
        Instruction::Call(a) => {
            if chip8.sp >= 16 {
                Err(StepError::StackOverflow)
            } else {
                chip8.stack[chip8.sp] = chip8.pc;
                chip8.sp += 1;
                chip8.pc = a;
                Ok(())
            }
        },
        Instruction::JumpOffset(a) => {
            chip8.pc = a + chip8.v[0] as u16;
            Ok(())
        },
        _ => unreached(),
    };
    proof {
        if let Ok(m) = after(old(chip8)@, ins, rnd) {
            assert(chip8@ =~= m);
        }
    }
    r
}

/// Whether `ins` is a conditional skip.
spec fn in_skip_group(ins: Instruction) -> bool {
    ins matches (Instruction::SkipEqImm(_, _) | Instruction::SkipNeImm(_, _)
        | Instruction::SkipEqReg(_, _) | Instruction::SkipNeReg(_, _)
        | Instruction::SkipKeyDown(_) | Instruction::SkipKeyUp(_))
}

/// Executes a conditional skip.
fn execute_skip(chip8: &mut Chip8, ins: Instruction, rnd: u8) -> (r: Result<(), StepError>)
    requires
        ins.wf(),
        in_skip_group(ins),
    ensures
        is_outcome(after(old(chip8)@, ins, rnd), old(chip8)@, final(chip8)@, r),
{
    let r = match ins {
        Instruction::SkipEqImm(x, nn) => {
            if chip8.v[x] == nn {
                chip8.pc = move_on(chip8.pc, 4);
            } else {
                chip8.pc = move_on(chip8.pc, 2);
            }
            Ok(())
        },
        Instruction::SkipNeImm(x, nn) => {
            if chip8.v[x] != nn {
                chip8.pc = move_on(chip8.pc, 4);
            } else {
                chip8.pc = move_on(chip8.pc, 2);
            }
            Ok(())
        },
        Instruction::SkipEqReg(x, y) => {
            if chip8.v[x] == chip8.v[y] {
                chip8.pc = move_on(chip8.pc, 4);
            } else {
                chip8.pc = move_on(chip8.pc, 2);
            }
            Ok(())
        },
        Instruction::SkipNeReg(x, y) => {
            if chip8.v[x] != chip8.v[y] {
                chip8.pc = move_on(chip8.pc, 4);
            } else {
                chip8.pc = move_on(chip8.pc, 2);
            }
            Ok(())
        },
        Instruction::SkipKeyDown(x) => {
            let vx = chip8.v[x] as usize;
            if vx >= 16 {
                Err(StepError::KeyOutOfBounds)
            } else {
                if chip8.key[vx] != 0 {
                    chip8.pc = move_on(chip8.pc, 4);
                } else {
                    chip8.pc = move_on(chip8.pc, 2);
                }
                Ok(())
            }
        },
        Instruction::SkipKeyUp(x) => {
            let vx = chip8.v[x] as usize;
            if vx >= 16 {
                Err(StepError::KeyOutOfBounds)
            } else {
                if chip8.key[vx] == 0 {
                    chip8.pc = move_on(chip8.pc, 4);
                } else {
                    chip8.pc = move_on(chip8.pc, 2);
                }
                Ok(())
            }
        },
        _ => unreached(),
    };
    proof {
        if let Ok(m) = after(old(chip8)@, ins, rnd) {
            assert(chip8@ =~= m);
        }
    }
    r
}

/// Whether `ins` moves a value into a register or combines registers bit by
/// bit.
spec fn in_load_group(ins: Instruction) -> bool {
    ins matches (Instruction::LoadImm(_, _) | Instruction::Move(_, _) | Instruction::Or(_, _)
        | Instruction::And(_, _) | Instruction::Xor(_, _) | Instruction::Random(_, _)
        | Instruction::ReadDelay(_))
}

/// Executes a move into a register or a bitwise operation.
fn execute_load(chip8: &mut Chip8, ins: Instruction, rnd: u8) -> (r: Result<(), StepError>)
    requires
        ins.wf(),
        in_load_group(ins),
    ensures
        is_outcome(after(old(chip8)@, ins, rnd), old(chip8)@, final(chip8)@, r),
{
    let r = match ins {
        Instruction::LoadImm(x, nn) => {
            chip8.v[x] = nn;
            chip8.pc = move_on(chip8.pc, 2);
            Ok(())
        },
        Instruction::Move(x, y) => {
            chip8.v[x] = chip8.v[y];
            chip8.pc = move_on(chip8.pc, 2);
            Ok(())
        },
        Instruction::Or(x, y) => {
            chip8.v[x] = chip8.v[x] | chip8.v[y];
            chip8.pc = move_on(chip8.pc, 2);
            Ok(())
        },
        Instruction::And(x, y) => {
            chip8.v[x] = chip8.v[x] & chip8.v[y];
            chip8.pc = move_on(chip8.pc, 2);
            Ok(())
        },
        Instruction::Xor(x, y) => {
            chip8.v[x] = chip8.v[x] ^ chip8.v[y];
            chip8.pc = move_on(chip8.pc, 2);
            Ok(())
        },
        Instruction::Random(x, nn) => {
            chip8.v[x] = nn & rnd;
            chip8.pc = move_on(chip8.pc, 2);
            Ok(())
        },
        Instruction::ReadDelay(x) => {
            chip8.v[x] = chip8.delay_timer;
            chip8.pc = move_on(chip8.pc, 2);
            Ok(())
        },
        _ => unreached(),
    };
    proof {
        if let Ok(m) = after(old(chip8)@, ins, rnd) {
            assert(chip8@ =~= m);
        }
    }
    r
}

/// The sum of two bytes, reduced to eight bits.
fn add_wrapping(a: u8, b: u8) -> (r: u8)
    ensures
        r == wrap8(a + b),
{
    a.wrapping_add(b)
}

/// The difference of two bytes, reduced to eight bits.
fn sub_wrapping(a: u8, b: u8) -> (r: u8)
    ensures
        r == wrap8(a - b),
{
    a.wrapping_sub(b)
}

/// The low eight bits of a nine-bit sum.
fn low_byte(sum: u16) -> (r: u8)
    ensures
        r == wrap8(sum as int),
{
    assert(sum & 0xFF == sum % 256) by (bit_vector);
    (sum & 0xFF) as u8
}

/// Whether `ins` is an addition or a subtraction.
spec fn in_arith_group(ins: Instruction) -> bool {
    ins matches (Instruction::AddImm(_, _) | Instruction::AddReg(_, _)
        | Instruction::SubReg(_, _)
        | Instruction::SubFrom(_, _))
}

/// Executes an addition or a subtraction.
fn execute_arith(chip8: &mut Chip8, ins: Instruction, rnd: u8) -> (r: Result<(), StepError>)
    requires
        ins.wf(),
        in_arith_group(ins),
    ensures
        is_outcome(after(old(chip8)@, ins, rnd), old(chip8)@, final(chip8)@, r),
{
    let r = match ins {
        Instruction::AddImm(x, nn) => {
            chip8.v[x] = add_wrapping(chip8.v[x], nn);
            chip8.pc = move_on(chip8.pc, 2);
            Ok(())
        },
        Instruction::AddReg(x, y) => {
            let sum: u16 = chip8.v[x] as u16 + chip8.v[y] as u16;
            chip8.v[0xF] = if sum > 0xFF { 1 } else { 0 };
            chip8.v[x] = low_byte(sum);
            chip8.pc = move_on(chip8.pc, 2);
            Ok(())
        },
        Instruction::SubReg(x, y) => {
            chip8.v[0xF] = if chip8.v[x] > chip8.v[y] { 1 } else { 0 };
            chip8.v[x] = sub_wrapping(chip8.v[x], chip8.v[y]);
            chip8.pc = move_on(chip8.pc, 2);
            Ok(())
        },
        Instruction::SubFrom(x, y) => {
            chip8.v[0xF] = if chip8.v[y] > chip8.v[x] { 1 } else { 0 };
            chip8.v[x] = sub_wrapping(chip8.v[y], chip8.v[x]);
            chip8.pc = move_on(chip8.pc, 2);
            Ok(())
        },
        _ => unreached(),
    };
    proof {
        if let Ok(m) = after(old(chip8)@, ins, rnd) {
            assert(chip8@ =~= m);
        }
    }
    r
}

/// Whether `ins` is a shift by one bit.
spec fn in_shift_group(ins: Instruction) -> bool {
    ins matches (Instruction::ShiftRight(_) | Instruction::ShiftLeft(_))
}

/// Executes a shift by one bit.
fn execute_shift(chip8: &mut Chip8, ins: Instruction, rnd: u8) -> (r: Result<(), StepError>)
    requires
        ins.wf(),
        in_shift_group(ins),
    ensures
        is_outcome(after(old(chip8)@, ins, rnd), old(chip8)@, final(chip8)@, r),
{
    let r = match ins {
        Instruction::ShiftRight(x) => {
            chip8.v[0xF] = chip8.v[x] & 0x1;
            chip8.v[x] = chip8.v[x] >> 1;
            chip8.pc = move_on(chip8.pc, 2);
            Ok(())
        },
        Instruction::ShiftLeft(x) => {
            chip8.v[0xF] = chip8.v[x] >> 7;
            chip8.v[x] = chip8.v[x] << 1;
            chip8.pc = move_on(chip8.pc, 2);
            Ok(())
        },
        _ => unreached(),
    };
    proof {
        if let Ok(m) = after(old(chip8)@, ins, rnd) {
            assert(chip8@ =~= m);
        }
    }
    r
}

/// Whether `ins` works on the index register, the timers or the keypad.
spec fn in_misc_group(ins: Instruction) -> bool {
    ins matches (Instruction::LoadIndex(_) | Instruction::WaitKey(_) | Instruction::SetDelay(_)
        | Instruction::SetSound(_) | Instruction::AddIndex(_) | Instruction::FontAddr(_))
}

/// Executes an instruction on the index register, the timers or the keypad.
fn execute_misc(chip8: &mut Chip8, ins: Instruction, rnd: u8) -> (r: Result<(), StepError>)
    requires
        ins.wf(),
        in_misc_group(ins),
    ensures
        is_outcome(after(old(chip8)@, ins, rnd), old(chip8)@, final(chip8)@, r),
{
    let r = match ins {
        Instruction::LoadIndex(a) => {
            chip8.i = a;
            chip8.pc = move_on(chip8.pc, 2);
            Ok(())
        },
        Instruction::WaitKey(x) => {
            match pressed_key(&chip8.key) {
                Some(k) => {
                    chip8.v[x] = k;
                    chip8.pc = move_on(chip8.pc, 2);
                },
                None => {},
            }
            Ok(())
        },
        Instruction::SetDelay(x) => {
            chip8.delay_timer = chip8.v[x];
            chip8.pc = move_on(chip8.pc, 2);
            Ok(())
        },
        Instruction::SetSound(x) => {
            chip8.sound_timer = chip8.v[x];
            chip8.pc = move_on(chip8.pc, 2);
            Ok(())
        },
        Instruction::AddIndex(x) => {
            chip8.i = chip8.i.wrapping_add(chip8.v[x] as u16);
            chip8.pc = move_on(chip8.pc, 2);
            Ok(())
        },
        Instruction::FontAddr(x) => {
            chip8.i = chip8.v[x] as u16 * 5;
            chip8.pc = move_on(chip8.pc, 2);
            Ok(())
        },
        _ => unreached(),
    };
    proof {
        if let Ok(m) = after(old(chip8)@, ins, rnd) {
            assert(chip8@ =~= m);
        }
    }
    r
}

/// Whether `ins` reads or writes memory through the index register.
spec fn in_memory_group(ins: Instruction) -> bool {
    ins matches (Instruction::Draw(_, _, _) | Instruction::StoreBcd(_)
        | Instruction::StoreRegs(_) | Instruction::LoadRegs(_))
}

/// Executes a sprite draw or a copy between registers and memory.
fn execute_memory(chip8: &mut Chip8, ins: Instruction, rnd: u8) -> (r: Result<(), StepError>)
    requires
        ins.wf(),
        in_memory_group(ins),
    ensures
        is_outcome(after(old(chip8)@, ins, rnd), old(chip8)@, final(chip8)@, r),
{
    let r = match ins {
        Instruction::Draw(x, y, n) => {
            let height = n as usize;
            if height > 0 && chip8.i as usize + height > 4096 {
                Err(StepError::MemoryOutOfBounds)
            } else {
                let start = if height == 0 { 0 } else { chip8.i as usize };
                let vx = chip8.v[x];
                let vy = chip8.v[y];
                let hit = draw_sprite(&mut chip8.gfx, &chip8.memory, start, height, vx, vy);
                chip8.v[0xF] = if hit { 1 } else { 0 };
                chip8.pc = move_on(chip8.pc, 2);
                Ok(())
            }
        },
        Instruction::StoreBcd(x) => {
            if chip8.i < 0x50 || chip8.i > 4093 {
                Err(StepError::MemoryOutOfBounds)
            } else {
                let i = chip8.i as usize;
                let vx = chip8.v[x];
                chip8.memory[i] = vx / 100;
                chip8.memory[i + 1] = (vx / 10) % 10;
                chip8.memory[i + 2] = vx % 10;
                chip8.pc = move_on(chip8.pc, 2);
                Ok(())
            }
        },
        Instruction::StoreRegs(x) => {
            if chip8.i < 0x50 || chip8.i as usize + x > 4095 {
                Err(StepError::MemoryOutOfBounds)
            } else {
                let i = chip8.i as usize;
                copy_into(&mut chip8.memory, i, chip8.v.as_slice(), 0, x + 1);
                chip8.i = chip8.i + (x as u16 + 1);
                chip8.pc = move_on(chip8.pc, 2);
                Ok(())
            }
        },
        Instruction::LoadRegs(x) => {
            if chip8.i as usize + x > 4095 {
                Err(StepError::MemoryOutOfBounds)
            } else {
                let i = chip8.i as usize;
                copy_into(&mut chip8.v, 0, chip8.memory.as_slice(), i, x + 1);
                chip8.i = chip8.i + (x as u16 + 1);
                chip8.pc = move_on(chip8.pc, 2);
                Ok(())
            }
        },
        _ => unreached(),
    };
    proof {
        if let Ok(m) = after(old(chip8)@, ins, rnd) {
            assert(chip8@ =~= m);
        }
    }
    r
}

/// Executes `ins` on the machine, with `rnd` as the random byte. On an error
/// the machine is left as it was.
pub fn execute(chip8: &mut Chip8, ins: Instruction, rnd: u8) -> (r: Result<(), StepError>)
    requires
        ins.wf(),
    ensures
        is_outcome(after(old(chip8)@, ins, rnd), old(chip8)@, final(chip8)@, r),
{
    match ins {
        Instruction::ClearScreen
        | Instruction::Return
        | Instruction::Sys(_)
        | Instruction::Jump(_)
        | Instruction::Call(_)
        | Instruction::JumpOffset(_) => execute_flow(chip8, ins, rnd),
        Instruction::SkipEqImm(_, _)
        | Instruction::SkipNeImm(_, _)
        | Instruction::SkipEqReg(_, _)
        | Instruction::SkipNeReg(_, _)
        | Instruction::SkipKeyDown(_)
        | Instruction::SkipKeyUp(_) => execute_skip(chip8, ins, rnd),
        Instruction::LoadImm(_, _)
        | Instruction::Move(_, _)
        | Instruction::Or(_, _)
        | Instruction::And(_, _)
        | Instruction::Xor(_, _)
        | Instruction::Random(_, _)
        | Instruction::ReadDelay(_) => execute_load(chip8, ins, rnd),
        Instruction::AddImm(_, _)
        | Instruction::AddReg(_, _)
        | Instruction::SubReg(_, _)
        | Instruction::SubFrom(_, _) => execute_arith(chip8, ins, rnd),
        Instruction::ShiftRight(_) | Instruction::ShiftLeft(_) => execute_shift(chip8, ins, rnd),
        Instruction::LoadIndex(_)
        | Instruction::WaitKey(_)
        | Instruction::SetDelay(_)
        | Instruction::SetSound(_)
        | Instruction::AddIndex(_)
        | Instruction::FontAddr(_) => execute_misc(chip8, ins, rnd),
        Instruction::Draw(_, _, _)
        | Instruction::StoreBcd(_)
        | Instruction::StoreRegs(_)
        | Instruction::LoadRegs(_) => execute_memory(chip8, ins, rnd),
    }
}

/// Runs one cycle with `rnd` as the random byte: fetches the word at the
/// program counter, decodes it and executes the instruction. On an error the
/// machine is left as it was; in particular a word that encodes no
/// instruction does not move the program counter, so the caller decides
/// whether to stop or to go on.
pub fn step(chip8: &mut Chip8, rnd: u8) -> (r: Result<(), StepError>)
    ensures
        is_outcome(stepped(old(chip8)@, rnd), old(chip8)@, final(chip8)@, r),
{
    match fetch(chip8) {
        Err(e) => Err(e),
        Ok(opcode) => match decode(opcode) {
            None => Err(StepError::UnknownOpcode(opcode)),
            Some(ins) => execute(chip8, ins, rnd),
        },
    }
}

/// Whether `ins` is `CXNN`.
pub open spec fn is_random(ins: Instruction) -> bool {
    ins matches Instruction::Random(_, _)
}

/// Only `CXNN` looks at the random byte: any other instruction does the same
/// for every byte.
pub proof fn lemma_random_byte_ignored(m: Machine, ins: Instruction, a: u8, b: u8)
    requires
        !is_random(ins),
    ensures
        after(m, ins, a) == after(m, ins, b),
{
}

/// A cycle that does not execute `CXNN` is the same for every random byte.
pub proof fn lemma_random_byte_unused(m: Machine, a: u8, b: u8)
    requires
        !uses_random(m),
    ensures
        stepped(m, a) == stepped(m, b),
{
    if let Ok(opcode) = fetched(m) {
        if let Some(ins) = decoded(opcode) {
            lemma_random_byte_ignored(m, ins, a, b);
        }
    }
}

/// Runs one cycle, drawing the random byte for `CXNN` from the generator.
/// Any other cycle is the one that `step` runs, whatever byte it is given.
pub fn emulate_cycle(chip8: &mut Chip8) -> (r: Result<(), StepError>)
    ensures
        exists|rnd: u8| is_outcome(stepped(old(chip8)@, rnd), old(chip8)@, final(chip8)@, r),
        !uses_random(old(chip8)@) ==> forall|rnd: u8|
            is_outcome(stepped(old(chip8)@, rnd), old(chip8)@, final(chip8)@, r),
{
    let rnd: u8 = match fetch(chip8) {
        Err(_) => 0,
        Ok(opcode) => match decode(opcode) {
            Some(Instruction::Random(_, _)) => random_byte(),
            _ => 0,
        },
    };
    let r = step(chip8, rnd);
    proof {
        if !uses_random(old(chip8)@) {
            assert forall|other: u8|
                is_outcome(stepped(old(chip8)@, other), old(chip8)@, chip8@, r) by {
                lemma_random_byte_unused(old(chip8)@, other, rnd);
            }
        }
    }
    r
}

/// Clearing the display turns every pixel off, whatever the display held,
/// and moves on to the next instruction.
pub proof fn lemma_clear_screen(m: Machine, rnd: u8)
    requires
        fetched(m) == Ok::<u16, StepError>(0x00E0),
    ensures
        stepped(m, rnd) == after(m, Instruction::ClearScreen, rnd),
        stepped(m, rnd) matches Ok(next) && ({
            &&& next.gfx.len() == 2048
            &&& next.pc == m.pc + 2
            &&& forall|p: int| 0 <= p < 2048 ==> next.gfx[p] == 0
        }),
{
    assert(decoded(0x00E0) == Some(Instruction::ClearScreen));
}

/// `VX += NN` wraps modulo 256 and changes no other register, the flag
/// register included.
pub proof fn lemma_add_immediate(m: Machine, x: usize, nn: u8, rnd: u8)
    requires
        m.wf(),
        x < 16,
    ensures
        after(m, Instruction::AddImm(x, nn), rnd) matches Ok(next) && ({
            &&& next.v[x as int] == (m.v[x as int] + nn) % 256
            &&& forall|k: int| 0 <= k < 16 && k != x ==> next.v[k] == m.v[k]
        }),
{
}

/// `VX += VY` leaves the sum modulo 256 in `VX` and sets `VF` to 1 if the
/// sum exceeds 255, to 0 if not. `VX` is not the flag register here: as the
/// destination, `VF` ends up holding the sum.
pub proof fn lemma_add_carry(m: Machine, x: usize, y: usize, rnd: u8)
    requires
        m.wf(),
        x < 15,
        y < 16,
    ensures
        after(m, Instruction::AddReg(x, y), rnd) matches Ok(next) && ({
            &&& next.v[x as int] == (m.v[x as int] + m.v[y as int]) % 256
            &&& next.v[15] == flag(m.v[x as int] + m.v[y as int] > 255)
        }),
{
}

/// `VX -= VY` sets `VF` to 1 if `VX > VY` before the subtraction, to 0 if
/// not, and leaves the difference modulo 256 in `VX`. Neither operand is the
/// flag register here: the flag is written before the operands are read.
pub proof fn lemma_sub_borrow(m: Machine, x: usize, y: usize, rnd: u8)
    requires
        m.wf(),
        x < 15,
        y < 15,
    ensures
        after(m, Instruction::SubReg(x, y), rnd) matches Ok(next) && ({
            &&& next.v[x as int] == (m.v[x as int] - m.v[y as int]) % 256
            &&& next.v[15] == flag(m.v[x as int] > m.v[y as int])
        }),
{
}

/// A bulk copy between registers and memory, where it succeeds, leaves the
/// index register `X + 1` higher.
pub proof fn lemma_bulk_copy_advances_index(m: Machine, x: usize, rnd: u8)
    requires
        m.wf(),
        x < 16,
    ensures
        after(m, Instruction::StoreRegs(x), rnd) matches Ok(next) ==> next.i == m.i + x + 1,
        after(m, Instruction::LoadRegs(x), rnd) matches Ok(next) ==> next.i == m.i + x + 1,
{
}

/// A return with an empty call stack is a stack underflow, and whatever
/// meets that outcome has left the machine, its program counter and
/// registers included, as it was.
pub proof fn lemma_return_underflow(m: Machine, rnd: u8, next: Machine, r: Result<(), StepError>)
    requires
        m.sp == 0,
        is_outcome(after(m, Instruction::Return, rnd), m, next, r),
    ensures
        fetched(m) == Ok::<u16, StepError>(0x00EE) ==> stepped(m, rnd) == after(
            m,
            Instruction::Return,
            rnd,
        ),
        r == Err::<(), StepError>(StepError::StackUnderflow),
        next == m,
{
    assert(decoded(0x00EE) == Some(Instruction::Return));
}

/// Drawing a sprite twice from the same registers restores the display,
/// and the second draw sets `VF` to 1 where a set bit of the sprite fell on
/// a pixel that was off. The coordinate registers are not the flag register
/// here, which the first draw overwrites.
pub proof fn lemma_draw_twice(
    m: Machine,
    x: usize,
    y: usize,
    n: u8,
    rnd: u8,
    row: int,
    col: int,
)
    requires
        m.wf(),
        x < 15,
        y < 15,
        n < 16,
        m.i + n <= 4096,
        0 <= row < n,
        0 <= col < 8,
        sprite_bit(m.memory[m.i + row], col as u8),
        m.gfx[target_pixel(m.v[x as int], m.v[y as int], row, col)] == 0,
    ensures
        after(m, Instruction::Draw(x, y, n), rnd) matches Ok(once) && after(
            once,
            Instruction::Draw(x, y, n),
            rnd,
        ) matches Ok(twice) && twice.gfx == m.gfx && twice.v[15] == 1,
{
    let rows = sprite_rows(m.memory, m.i, n);
    let vx = m.v[x as int];
    let vy = m.v[y as int];
    lemma_draw_twice_restores(m.gfx, rows, vx, vy);
    lemma_draw_twice_collides(m.gfx, rows, vx, vy, row, col);
}

/// The key that a wait stores is down and no key above it is; where the
/// wait stores none, no key is down.
pub proof fn lemma_highest_key(key: Seq<u8>, below: int)
    requires
        key.len() == 16,
        0 <= below <= 16,
    ensures
        (match highest_key(key, below) {
            Some(k) => k < below && key[k as int] != 0 && (forall|j: int|
                k < j < below ==> key[j] == 0),
            None => forall|j: int| 0 <= j < below ==> key[j] == 0,
        }),
    decreases below,
{
    if below > 0 && key[below - 1] == 0 {
        lemma_highest_key(key, below - 1);
    }
}

/// No instruction changes the sizes of the machine's parts, writes into the
/// font, or takes the stack pointer beyond the stack.
pub proof fn lemma_execution_preserves(m: Machine, ins: Instruction, rnd: u8)
    requires
        m.wf(),
        ins.wf(),
    ensures
        after(m, ins, rnd) matches Ok(next) ==> ({
            &&& next.wf()
            &&& m.sp <= 16 ==> next.sp <= 16
            &&& forall|a: int| 0 <= a < 0x50 ==> next.memory[a] == m.memory[a]
        }),
{
}

/// Every instruction that a word decodes to has its operands in range.
pub proof fn lemma_decoded_wf(opcode: u16)
    ensures
        decoded(opcode) matches Some(ins) ==> ins.wf(),
{
}

/// No cycle changes the sizes of the machine's parts, writes into the font,
/// or takes the stack pointer beyond the stack.
pub proof fn lemma_step_preserves(m: Machine, rnd: u8)
    requires
        m.wf(),
    ensures
        stepped(m, rnd) matches Ok(next) ==> ({
            &&& next.wf()
            &&& m.sp <= 16 ==> next.sp <= 16
            &&& forall|a: int| 0 <= a < 0x50 ==> next.memory[a] == m.memory[a]
        }),
{
    if let Ok(opcode) = fetched(m) {
        if let Some(ins) = decoded(opcode) {
            lemma_decoded_wf(opcode);
            lemma_execution_preserves(m, ins, rnd);
        }
    }
}

} // verus!
