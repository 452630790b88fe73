//! The machine state, its mathematical model, and the loader that fills it.

use vstd::prelude::*;

verus! {

/// Address at which a program is loaded and execution starts.
pub const PROGRAM_START: u16 = 0x200;

/// Largest program that fits between `PROGRAM_START` and the end of memory.
pub const MAX_PROGRAM_LEN: usize = 3584;

/// Number of bytes of the built-in font, stored from address 0.
pub const FONT_LEN: usize = 80;

/// The state of the machine.
pub struct Chip8 {
    pub memory: [u8; 4096],
    pub v: [u8; 16],
    pub i: u16,
    pub pc: u16,
    pub gfx: [u8; 2048],
    pub delay_timer: u8,
    pub sound_timer: u8,
    pub stack: [u16; 16],
    pub sp: usize,
    pub key: [u8; 16],
}

/// The mathematical model of the machine state: each array as the sequence
/// of its elements.
pub struct Machine {
    pub memory: Seq<u8>,
    pub v: Seq<u8>,
    pub i: u16,
    pub pc: u16,
    pub gfx: Seq<u8>,
    pub delay_timer: u8,
    pub sound_timer: u8,
    pub stack: Seq<u16>,
    pub sp: usize,
    pub key: Seq<u8>,
}

impl Machine {
    /// The sequences have the sizes of the machine's arrays.
    pub open spec fn wf(self) -> bool {
        &&& self.memory.len() == 4096
        &&& self.v.len() == 16
        &&& self.gfx.len() == 2048
        &&& self.stack.len() == 16
        &&& self.key.len() == 16
    }
}

impl View for Chip8 {
    type V = Machine;

    open spec fn view(&self) -> Machine {
        Machine {
            memory: self.memory@,
            v: self.v@,
            i: self.i,
            pc: self.pc,
            gfx: self.gfx@,
            delay_timer: self.delay_timer,
            sound_timer: self.sound_timer,
            stack: self.stack@,
            sp: self.sp,
            key: self.key@,
        }
    }
}

/// The model of any machine has the sizes of the machine's arrays.
pub proof fn lemma_view_wf(chip8: Chip8)
    ensures
        chip8@.wf(),
{
}

/// Why a program could not be loaded.
#[derive(Clone, Copy, Debug, PartialEq, Eq)]
pub enum LoadError {
    /// The program is longer than the memory from `PROGRAM_START` on.
    ProgramTooLarge,
}

/// The built-in font: sixteen glyphs of five bytes, the hexadecimal digits
/// `0` to `F`.
pub open spec fn font_data() -> Seq<u8> {
    seq![
        0xF0u8, 0x90u8, 0x90u8, 0x90u8, 0xF0u8,
        0x20u8, 0x60u8, 0x20u8, 0x20u8, 0x70u8,
        0xF0u8, 0x10u8, 0xF0u8, 0x80u8, 0xF0u8,
        0xF0u8, 0x10u8, 0xF0u8, 0x10u8, 0xF0u8,
        0x90u8, 0x90u8, 0xF0u8, 0x10u8, 0x10u8,
        0xF0u8, 0x80u8, 0xF0u8, 0x10u8, 0xF0u8,
        0xF0u8, 0x80u8, 0xF0u8, 0x90u8, 0xF0u8,
        0xF0u8, 0x10u8, 0x20u8, 0x40u8, 0x40u8,
        0xF0u8, 0x90u8, 0xF0u8, 0x90u8, 0xF0u8,
        0xF0u8, 0x90u8, 0xF0u8, 0x10u8, 0xF0u8,
        0xF0u8, 0x90u8, 0xF0u8, 0x90u8, 0x90u8,
        0xE0u8, 0x90u8, 0xE0u8, 0x90u8, 0xE0u8,
        0xF0u8, 0x80u8, 0x80u8, 0x80u8, 0xF0u8,
        0xE0u8, 0x90u8, 0x90u8, 0x90u8, 0xE0u8,
        0xF0u8, 0x80u8, 0xF0u8, 0x80u8, 0xF0u8,
        0xF0u8, 0x80u8, 0xF0u8, 0x80u8, 0x80u8,
    ]
}

/// The font as an array.
pub fn font_table() -> (font: [u8; 80])
    ensures
        font@ == font_data(),
{
    let font: [u8; 80] = [
        0xF0, 0x90, 0x90, 0x90, 0xF0,
        0x20, 0x60, 0x20, 0x20, 0x70,
        0xF0, 0x10, 0xF0, 0x80, 0xF0,
        0xF0, 0x10, 0xF0, 0x10, 0xF0,
        0x90, 0x90, 0xF0, 0x10, 0x10,
        0xF0, 0x80, 0xF0, 0x10, 0xF0,
        0xF0, 0x80, 0xF0, 0x90, 0xF0,
        0xF0, 0x10, 0x20, 0x40, 0x40,
        0xF0, 0x90, 0xF0, 0x90, 0xF0,
        0xF0, 0x90, 0xF0, 0x10, 0xF0,
        0xF0, 0x90, 0xF0, 0x90, 0x90,
        0xE0, 0x90, 0xE0, 0x90, 0xE0,
        0xF0, 0x80, 0x80, 0x80, 0xF0,
        0xE0, 0x90, 0x90, 0x90, 0xE0,
        0xF0, 0x80, 0xF0, 0x80, 0xF0,
        0xF0, 0x80, 0xF0, 0x80, 0x80,
    ];
    assert(font@ =~= font_data());
    font
}

/// `base` with `patch` written over it from index `start` on.
pub open spec fn overlay<T>(base: Seq<T>, start: int, patch: Seq<T>) -> Seq<T> {
    Seq::new(
        base.len(),
        |a: int|
            if start <= a < start + patch.len() {
                patch[a - start]
            } else {
                base[a]
            },
    )
}

/// Copies `count` elements of `src`, from index `from` on, to `dst` from
/// index `start` on.
pub fn copy_into<const LEN: usize>(
    dst: &mut [u8; LEN],
    start: usize,
    src: &[u8],
    from: usize,
    count: usize,
)
    requires
        start + count <= LEN,
        from + count <= src@.len(),
    ensures
        final(dst)@ == overlay(old(dst)@, start as int, src@.subrange(from as int, from + count)),
{
    let len = src.len();
    let mut k: usize = 0;
    while k < count
        invariant
            k <= count,
            start + count <= LEN,
            from + count <= len,
            len == src@.len(),
            dst@ =~= overlay(old(dst)@, start as int, src@.subrange(from as int, from + k)),
        decreases count - k,
    {
        dst[start + k] = src[from + k];
        k += 1;
    }
}

/// The memory of a machine that holds the font and `program` and nothing
/// else.
pub open spec fn loaded_memory(program: Seq<u8>) -> Seq<u8> {
    overlay(overlay(Seq::new(4096, |a: int| 0u8), 0, font_data()), 0x200, program)
}

/// What loaded memory holds at each address: the font below 80, the program
/// from `PROGRAM_START` on, zero elsewhere.
pub proof fn lemma_loaded_memory(program: Seq<u8>, a: int)
    requires
        program.len() <= 3584,
        0 <= a < 4096,
    ensures
        loaded_memory(program).len() == 4096,
        a < 80 ==> loaded_memory(program)[a] == font_data()[a],
        80 <= a < 0x200 ==> loaded_memory(program)[a] == 0,
        0x200 <= a < 0x200 + program.len() ==> loaded_memory(program)[a] == program[a - 0x200],
        0x200 + program.len() <= a ==> loaded_memory(program)[a] == 0,
{
}

/// The machine before anything is loaded: every cell zero, the program
/// counter at `PROGRAM_START`.
pub open spec fn blank() -> Machine {
    Machine {
        memory: Seq::new(4096, |a: int| 0u8),
        v: Seq::new(16, |k: int| 0u8),
        i: 0,
        pc: 0x200,
        gfx: Seq::new(2048, |p: int| 0u8),
        delay_timer: 0,
        sound_timer: 0,
        stack: Seq::new(16, |k: int| 0u16),
        sp: 0,
        key: Seq::new(16, |k: int| 0u8),
    }
}

/// The machine as the loader leaves it: font and program in memory, the
/// program counter at `PROGRAM_START`, everything else zero.
pub open spec fn loaded(program: Seq<u8>) -> Machine {
    Machine { memory: loaded_memory(program), ..blank() }
}

impl Chip8 {
    /// A machine with every cell zero and the program counter at
    /// `PROGRAM_START`.
    pub fn new() -> (chip8: Chip8)
        ensures
            chip8@ == blank(),
    {
        let chip8 = Chip8 {
            memory: [0u8; 4096],
            v: [0u8; 16],
            i: 0,
            pc: PROGRAM_START,
            gfx: [0u8; 2048],
            delay_timer: 0,
            sound_timer: 0,
            stack: [0u16; 16],
            sp: 0,
            key: [0u8; 16],
        };
        assert(chip8.memory@ =~= Seq::new(4096, |a: int| 0u8));
        assert(chip8.v@ =~= Seq::new(16, |k: int| 0u8));
        assert(chip8.gfx@ =~= Seq::new(2048, |p: int| 0u8));
        assert(chip8.stack@ =~= Seq::new(16, |k: int| 0u16));
        assert(chip8.key@ =~= Seq::new(16, |k: int| 0u8));
        chip8
    }

    /// Writes the font to the first 80 bytes of memory.
    pub fn load_font(&mut self)
        ensures
            final(self)@ == (Machine {
                memory: overlay(old(self)@.memory, 0, font_data()),
                ..old(self)@
            }),
    {
        let font = font_table();
        copy_into(&mut self.memory, 0, font.as_slice(), 0, FONT_LEN);
        assert(font@.subrange(0, 80) =~= font@);
    }

    /// Writes `program` to memory from `PROGRAM_START` on. A program longer
    /// than `MAX_PROGRAM_LEN` is refused and nothing is written.
    pub fn load_program(&mut self, program: &[u8]) -> (r: Result<(), LoadError>)
        ensures
            program@.len() <= 3584 ==> r is Ok && final(self)@ == (Machine {
                memory: overlay(old(self)@.memory, 0x200, program@),
                ..old(self)@
            }),
            program@.len() > 3584 ==> r == Err::<(), LoadError>(LoadError::ProgramTooLarge)
                && final(self)@ == old(self)@,
    {
        if program.len() > MAX_PROGRAM_LEN {
            return Err(LoadError::ProgramTooLarge);
        }
        copy_into(&mut self.memory, 0x200, program, 0, program.len());
        assert(program@.subrange(0, program@.len() as int) =~= program@);
        Ok(())
    }
}

/// Builds a machine that holds the font and the program `content`, ready to
/// run from `PROGRAM_START`. A program longer than `MAX_PROGRAM_LEN` is
/// refused.
pub fn init_chip8(content: Vec<u8>) -> (r: Result<Chip8, LoadError>)
    ensures
        content@.len() <= 3584 ==> r is Ok && r->Ok_0@ == loaded(content@),
        content@.len() > 3584 ==> r matches Err(LoadError::ProgramTooLarge),
{
    let mut chip8 = Chip8::new();
    chip8.load_font();
    match chip8.load_program(content.as_slice()) {
        Ok(()) => {
            assert(chip8@ =~= loaded(content@));
            Ok(chip8)
        },
        Err(e) => Err(e),
    }
}

/// The keypad cell for a key that is down (1) or up (0).
pub open spec fn key_cell(down: bool) -> u8 {
    if down {
        1
    } else {
        0
    }
}

/// Overwrites the whole keypad from the sixteen key states in `down`.
pub fn handle_input(chip8: &mut Chip8, down: &[bool; 16])
    ensures
        final(chip8)@ == (Machine {
            key: Seq::new(16, |k: int| key_cell(down@[k])),
            ..old(chip8)@
        }),
{
    let mut k: usize = 0;
    while k < 16
        invariant
            k <= 16,
            chip8@ == (Machine { key: chip8@.key, ..old(chip8)@ }),
            forall|j: int| 0 <= j < k ==> chip8.key@[j] == key_cell(down@[j]),
        decreases 16 - k,
    {
        if down[k] {
            chip8.key[k] = 1;
        } else {
            chip8.key[k] = 0;
        }
        k += 1;
    }
    assert(chip8@.key =~= Seq::new(16, |k: int| key_cell(down@[k])));
}

/// One tick of the 60 Hz clock: each timer that is not zero goes down by
/// one. Returns whether the sound timer was at 1, the moment at which the
/// tone is due.
pub fn tick_timers(chip8: &mut Chip8) -> (beep: bool)
    ensures
        final(chip8)@ == (Machine {
            delay_timer: if old(chip8).delay_timer > 0 {
                (old(chip8).delay_timer - 1) as u8
            } else {
                0
            },
            sound_timer: if old(chip8).sound_timer > 0 {
                (old(chip8).sound_timer - 1) as u8
            } else {
                0
            },
            ..old(chip8)@
        }),
        beep == (old(chip8).sound_timer == 1),
{
    let mut beep = false;
    if chip8.delay_timer > 0 {
        chip8.delay_timer -= 1;
    }
    if chip8.sound_timer > 0 {
        beep = chip8.sound_timer == 1;
        chip8.sound_timer -= 1;
    }
    beep
}

} // verus!
