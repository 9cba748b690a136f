use vstd::prelude::*;

use crate::error::Chip8Error;
use crate::keypad::Keypad;
use crate::opcode::Opcode;
use crate::opcode::op_wf;
use crate::opcode::spec_decode;

verus! {

pub const DISPLAY_WIDTH: usize = 64;

pub const DISPLAY_HEIGHT: usize = 32;

pub const NUMBER_REGS: usize = 16;

pub const STACK_SIZE: usize = 16;

pub const MEMORY_SIZE: usize = 4096;

pub const FONT_OFFSET: usize = 0x050;

pub const FONT_SIZE: usize = 80;

pub const PROGRAM_START: usize = 0x200;

/// Target instruction rate, in instructions per second. The core itself
/// never sleeps; the embedding run loop uses this to throttle its cycles.
pub const INSTRUCTION_FREQ: u64 = 1000;

/// Rate of the countdown-timer clock, in ticks per second.
pub const TIMER_FREQ: u64 = 60;

/// Period of the countdown-timer clock, in milliseconds. The two timers
/// decrement once whenever more than this much wall-clock time has passed
/// since the previous tick, however many instructions have run meanwhile.
pub const TIMER_PERIOD_MS: u64 = 1000 / TIMER_FREQ;

// Signal bits reported by the input backend, applied once per cycle.
pub const PAUSE: u32 = 0x02;

pub const STEP_MODE: u32 = 0x04;

pub const SHOULD_STEP: u32 = 0x08;

pub const RESET: u32 = 0x10;

pub const QUIT: u32 = 0x20;

/// The font table: 16 glyphs of 5 bytes each, seeded into memory at
/// `FONT_OFFSET` when the machine is built and never touched afterwards.
pub open spec fn font_spec() -> Seq<u8> {
    seq![
        0xF0u8, 0x90, 0x90, 0x90, 0xF0, // 0
        0x20, 0x60, 0x20, 0x20, 0x70, // 1
        0xF0, 0x10, 0xF0, 0x80, 0xF0, // 2
        0xF0, 0x10, 0xF0, 0x10, 0xF0, // 3
        0x90, 0x90, 0xF0, 0x10, 0x10, // 4
        0xF0, 0x80, 0xF0, 0x10, 0xF0, // 5
        0xF0, 0x80, 0xF0, 0x90, 0xF0, // 6
        0xF0, 0x10, 0x20, 0x40, 0x40, // 7
        0xF0, 0x90, 0xF0, 0x90, 0xF0, // 8
        0xF0, 0x90, 0xF0, 0x10, 0xF0, // 9
        0xF0, 0x90, 0xF0, 0x90, 0x90, // A
        0xE0, 0x90, 0xE0, 0x90, 0xE0, // B
        0xF0, 0x80, 0x80, 0x80, 0xF0, // C
        0xE0, 0x90, 0x90, 0x90, 0xE0, // D
        0xF0, 0x80, 0xF0, 0x80, 0xF0, // E
        0xF0, 0x80, 0xF0, 0x80, 0x80, // F
    ]
}

/// Builds the font table as a vector whose contents are exactly
/// `font_spec()`.
fn font_table() -> (v: Vec<u8>)
    ensures
        v@ == font_spec(),
{
    let mut v: Vec<u8> = Vec::new();
    v.push(0xF0); v.push(0x90); v.push(0x90); v.push(0x90); v.push(0xF0);
    v.push(0x20); v.push(0x60); v.push(0x20); v.push(0x20); v.push(0x70);
    v.push(0xF0); v.push(0x10); v.push(0xF0); v.push(0x80); v.push(0xF0);
    v.push(0xF0); v.push(0x10); v.push(0xF0); v.push(0x10); v.push(0xF0);
    v.push(0x90); v.push(0x90); v.push(0xF0); v.push(0x10); v.push(0x10);
    v.push(0xF0); v.push(0x80); v.push(0xF0); v.push(0x10); v.push(0xF0);
    v.push(0xF0); v.push(0x80); v.push(0xF0); v.push(0x90); v.push(0xF0);
    v.push(0xF0); v.push(0x10); v.push(0x20); v.push(0x40); v.push(0x40);
    v.push(0xF0); v.push(0x90); v.push(0xF0); v.push(0x90); v.push(0xF0);
    v.push(0xF0); v.push(0x90); v.push(0xF0); v.push(0x10); v.push(0xF0);
    v.push(0xF0); v.push(0x90); v.push(0xF0); v.push(0x90); v.push(0x90);
    v.push(0xE0); v.push(0x90); v.push(0xE0); v.push(0x90); v.push(0xE0);
    v.push(0xF0); v.push(0x80); v.push(0x80); v.push(0x80); v.push(0xF0);
    v.push(0xE0); v.push(0x90); v.push(0x90); v.push(0x90); v.push(0xE0);
    v.push(0xF0); v.push(0x80); v.push(0xF0); v.push(0x80); v.push(0xF0);
    v.push(0xF0); v.push(0x80); v.push(0xF0); v.push(0x80); v.push(0x80);
    proof {
        assert(v@ =~= font_spec());
    }
    v
}

/// The machine state: memory, register file, index register, program
/// counter, call stack, framebuffer, the two countdown timers and the
/// run/pause/step flags.
pub struct Chip8 {
    pub framebuffer: Vec<u8>,
    pub memory: Vec<u8>,
    pub regs: Vec<u8>,
    pub stack: Vec<u16>,
    pub pc: u16,
    pub i: u16,
    pub current_instruction: u16,

    pub delay_timer: u8,
    pub sound_timer: u8,
    pub last_timer_update: u64,

    pub running: bool,
    pub paused: bool,
    pub step_mode: bool,
    pub should_step: bool,
    pub debug_mode: bool,
}

/// One countdown-timer step: decrement, stopping at zero.
pub open spec fn dec_timer(t: u8) -> u8 {
    if t > 0 {
        (t - 1) as u8
    } else {
        0
    }
}

/// The state after consulting the 60 Hz gate at wall-clock time `now_ms`:
/// if more than one timer period has passed since the last tick, both
/// timers decrement (stopping at zero) and the tick timestamp resets.
pub open spec fn apply_timer(s: Chip8, now_ms: u64) -> Chip8 {
    if now_ms - s.last_timer_update > TIMER_PERIOD_MS {
        Chip8 {
            last_timer_update: now_ms,
            delay_timer: dec_timer(s.delay_timer),
            sound_timer: dec_timer(s.sound_timer),
            ..s
        }
    } else {
        s
    }
}

/// The 16-bit instruction word stored big-endian at address `a`.
pub open spec fn spec_word(mem: Seq<u8>, a: int) -> u16 {
    ((mem[a] as u16) << 8) | (mem[a + 1] as u16)
}

/// The sprite bit for sprite row `r` and column `c` of the sprite stored
/// at address `i`: bit `7 - c` of the byte `mem[i + r]`.
pub open spec fn sprite_pixel(mem: Seq<u8>, i: int, r: int, c: int) -> u8 {
    (mem[i + r] >> ((7 - c) as u8)) & 1
}

/// How many sprite rows are drawn before clipping at the bottom edge:
/// rows that would fall below the screen are not drawn (and their sprite
/// bytes are not read).
pub open spec fn sprite_rows(vy: int, n: int) -> int {
    if n <= DISPLAY_HEIGHT - vy {
        n
    } else {
        DISPLAY_HEIGHT - vy
    }
}

/// How many sprite columns are drawn before clipping at the right edge.
pub open spec fn sprite_cols(vx: int) -> int {
    if 8 <= DISPLAY_WIDTH - vx {
        8
    } else {
        DISPLAY_WIDTH - vx
    }
}

/// Whether the sprite drawn at `(vx, vy)` with height `n` covers the
/// framebuffer cell at `(row, col)`.
pub open spec fn sprite_covers(vx: int, vy: int, n: int, row: int, col: int) -> bool {
    &&& vy <= row < vy + sprite_rows(vy, n)
    &&& vx <= col < vx + sprite_cols(vx)
}

/// The value of framebuffer cell `k` after the whole sprite has been
/// drawn: covered cells take the XOR of the old cell with the sprite bit,
/// all other cells keep their old value.
pub open spec fn fb_cell_after(
    fb: Seq<u8>,
    mem: Seq<u8>,
    i: int,
    vx: int,
    vy: int,
    n: int,
    k: int,
) -> u8 {
    let row = k / (DISPLAY_WIDTH as int);
    let col = k % (DISPLAY_WIDTH as int);
    if sprite_covers(vx, vy, n, row, col) {
        fb[k] ^ sprite_pixel(mem, i, row - vy, col - vx)
    } else {
        fb[k]
    }
}

/// The value of framebuffer cell `k` while the draw is in progress: sprite
/// rows before `r` are fully drawn, and in row `r` the columns before `c`
/// are drawn.
pub open spec fn fb_cell_partial(
    fb: Seq<u8>,
    mem: Seq<u8>,
    i: int,
    vx: int,
    vy: int,
    n: int,
    r: int,
    c: int,
    k: int,
) -> u8 {
    let row = k / (DISPLAY_WIDTH as int);
    let col = k % (DISPLAY_WIDTH as int);
    if sprite_covers(vx, vy, n, row, col) && (row - vy < r || (row - vy == r && col - vx < c)) {
        fb[k] ^ sprite_pixel(mem, i, row - vy, col - vx)
    } else {
        fb[k]
    }
}

/// A collision at sprite row `rr`, column `cc`: that sprite bit is drawn,
/// is 1, and lands on a framebuffer cell that already holds 1.
pub open spec fn hit(
    fb: Seq<u8>,
    mem: Seq<u8>,
    i: int,
    vx: int,
    vy: int,
    n: int,
    rr: int,
    cc: int,
) -> bool {
    &&& 0 <= rr < sprite_rows(vy, n)
    &&& 0 <= cc < sprite_cols(vx)
    &&& sprite_pixel(mem, i, rr, cc) == 1
    &&& fb[(vy + rr) * (DISPLAY_WIDTH as int) + (vx + cc)] == 1
}

/// Collision for the whole draw: some sprite bit that is 1 lands on a
/// framebuffer cell that already holds 1.
pub open spec fn spec_collision(
    fb: Seq<u8>,
    mem: Seq<u8>,
    i: int,
    vx: int,
    vy: int,
    n: int,
) -> bool {
    exists|rr: int, cc: int| #[trigger] hit(fb, mem, i, vx, vy, n, rr, cc)
}

/// Collision among the sprite bits drawn so far: rows before `r`, plus
/// columns before `c` of row `r`.
pub open spec fn collision_partial(
    fb: Seq<u8>,
    mem: Seq<u8>,
    i: int,
    vx: int,
    vy: int,
    n: int,
    r: int,
    c: int,
) -> bool {
    exists|rr: int, cc: int|
        #[trigger] hit(fb, mem, i, vx, vy, n, rr, cc) && (rr < r || (rr == r && cc < c))
}

/// A cell index splits uniquely into its row and column.
proof fn lemma_cell_index(row: int, col: int)
    by (nonlinear_arith)
    requires
        0 <= row,
        0 <= col < 64,
    ensures
        (row * 64 + col) / 64 == row,
        (row * 64 + col) % 64 == col,
{
}

/// A single extracted bit is 0 or 1.
proof fn lemma_shift_bit(b: u8, s: u8)
    by (bit_vector)
    ensures
        ((b >> s) & 1) <= 1,
{
}

/// XOR on 0/1 values stays in 0/1 and acts as inequality.
pub proof fn lemma_xor_bits(a: u8, b: u8)
    by (bit_vector)
    requires
        a <= 1,
        b <= 1,
    ensures
        (a ^ b) <= 1,
        a ^ b == (if a == b {
            0u8
        } else {
            1u8
        }),
{
}

/// Masking with `nn` clears every bit outside `nn`.
proof fn lemma_masked(b: u8, nn: u8)
    by (bit_vector)
    ensures
        ((b & nn) & !nn) == 0,
{
}

/// The low nibble of a byte is below 16.
proof fn lemma_low_nibble(v: u8)
    by (bit_vector)
    ensures
        (v & 0xF) < 16,
{
}

/// Relies on rand::random: a uniformly distributed random byte. Nothing
/// is promised of the value; callers state what holds of every outcome.
#[verifier::external_body]
fn random_byte() -> u8 {
    rand::random::<u8>()
}

/// Whether the debug state machine lets this cycle fetch and execute:
/// not paused, and either not in step mode or a step has been armed.
pub open spec fn will_execute(s: Chip8) -> bool {
    !s.paused && (!s.step_mode || s.should_step)
}

/// The state right after a fetch: the instruction word at `PC` is
/// latched and `PC` has advanced past it.
pub open spec fn after_fetch(s: Chip8) -> Chip8 {
    Chip8 {
        current_instruction: spec_word(s.memory@, s.pc as int),
        pc: (s.pc + 2) as u16,
        ..s
    }
}

/// Which instructions change the framebuffer and so ask the embedding
/// loop for a present.
pub open spec fn spec_present(op: Opcode) -> bool {
    match op {
        Opcode::Clear => true,
        Opcode::Draw(_, _, _) => true,
        _ => false,
    }
}

/// Whether one whole cycle from state `s` stays inside the bounds that
/// `op_safe` demands: if this cycle will fetch, the instruction about to
/// be decoded must be executable in the fetched state.
pub open spec fn cycle_safe(s: Chip8) -> bool {
    will_execute(s) && s.pc < MEMORY_SIZE - 1 ==> match spec_decode(
        spec_word(s.memory@, s.pc as int),
    ) {
        Option::Some(op) => Chip8::op_safe(after_fetch(s), op),
        Option::None => true,
    }
}

/// `op_safe` reads only the program counter, the index register and the
/// register file.
proof fn lemma_op_safe_frame(a: Chip8, b: Chip8, op: Opcode)
    requires
        a.pc == b.pc,
        a.i == b.i,
        a.regs@ == b.regs@,
    ensures
        Chip8::op_safe(a, op) == Chip8::op_safe(b, op),
{
}

impl Chip8 {
    /// Well-formedness: the storage arrays have their fixed sizes, the call
    /// stack never exceeds its capacity, and every framebuffer cell is 0
    /// or 1.
    pub open spec fn wf(self) -> bool {
        &&& self.memory@.len() == MEMORY_SIZE
        &&& self.framebuffer@.len() == DISPLAY_WIDTH * DISPLAY_HEIGHT
        &&& self.regs@.len() == NUMBER_REGS
        &&& self.stack@.len() <= STACK_SIZE
        &&& forall|k: int| 0 <= k < self.framebuffer@.len() ==> self.framebuffer@[k] <= 1
    }

    /// The memory image immediately after construction: font at
    /// `FONT_OFFSET`, the program at `PROGRAM_START`, zero elsewhere.
    pub open spec fn initial_memory(mem: Seq<u8>, rom: Seq<u8>) -> bool {
        &&& mem.len() == MEMORY_SIZE
        &&& forall|j: int| 0 <= j < FONT_SIZE ==> mem[FONT_OFFSET + j] == font_spec()[j]
        &&& forall|j: int| 0 <= j < rom.len() ==> mem[PROGRAM_START + j] == rom[j]
        &&& forall|a: int|
            0 <= a < MEMORY_SIZE && !(FONT_OFFSET <= a < FONT_OFFSET + FONT_SIZE) && !(
            PROGRAM_START <= a < PROGRAM_START + rom.len()) ==> mem[a] == 0
    }

    /// Everything the reset transition zeroes: framebuffer, registers,
    /// timers, call stack, program counter, index register and the current
    /// instruction word return to their post-load initial values; memory
    /// (font and program bytes included) is untouched, and the machine
    /// starts paused exactly when it was built in debug mode.
    pub open spec fn reset_post(pre: Chip8, post: Chip8) -> bool {
        &&& post == (Chip8 {
            framebuffer: post.framebuffer,
            regs: post.regs,
            stack: post.stack,
            pc: 0x200u16,
            i: 0u16,
            current_instruction: 0u16,
            delay_timer: 0u8,
            sound_timer: 0u8,
            running: true,
            paused: pre.debug_mode,
            step_mode: false,
            should_step: false,
            ..pre
        })
        &&& post.framebuffer@.len() == DISPLAY_WIDTH * DISPLAY_HEIGHT
        &&& forall|k: int| 0 <= k < post.framebuffer@.len() ==> post.framebuffer@[k] == 0
        &&& post.regs@.len() == NUMBER_REGS
        &&& forall|j: int| 0 <= j < NUMBER_REGS ==> post.regs@[j] == 0
        &&& post.stack@.len() == 0
    }

    /// Builds a machine with the font seeded into memory and `rom` copied
    /// in at `PROGRAM_START`. A ROM that cannot fit below the end of
    /// memory is rejected up front with `RomTooLarge`, before anything
    /// executes.
    pub fn new(rom: &[u8], debug: bool) -> (r: Result<Chip8, Chip8Error>)
        ensures
            rom@.len() + PROGRAM_START > MEMORY_SIZE ==> r == Err::<Chip8, Chip8Error>(
                Chip8Error::RomTooLarge(rom@.len() as usize),
            ),
            rom@.len() + PROGRAM_START <= MEMORY_SIZE ==> (r matches Ok(c) && {
                &&& c.wf()
                &&& Self::initial_memory(c.memory@, rom@)
                &&& forall|k: int| 0 <= k < c.framebuffer@.len() ==> c.framebuffer@[k] == 0
                &&& forall|j: int| 0 <= j < NUMBER_REGS ==> c.regs@[j] == 0
                &&& c.stack@.len() == 0
                &&& c.pc == 0x200 && c.i == 0 && c.current_instruction == 0
                &&& c.delay_timer == 0 && c.sound_timer == 0 && c.last_timer_update == 0
                &&& c.running && c.paused == debug && c.debug_mode == debug
                &&& !c.step_mode && !c.should_step
            }),
    {
        if rom.len() > MEMORY_SIZE - PROGRAM_START {
            return Err(Chip8Error::RomTooLarge(rom.len()));
        }

        let mut memory: Vec<u8> = zero_bytes(MEMORY_SIZE);
        let font = font_table();
        let mut j: usize = 0;
        while j < FONT_SIZE
            invariant
                j <= FONT_SIZE,
                font@ == font_spec(),
                memory@.len() == MEMORY_SIZE,
                forall|k: int| 0 <= k < j ==> memory@[FONT_OFFSET + k] == font_spec()[k],
                forall|a: int|
                    0 <= a < MEMORY_SIZE && !(FONT_OFFSET <= a < FONT_OFFSET + j) ==> memory@[a]
                        == 0,
            decreases FONT_SIZE - j,
        {
            memory[FONT_OFFSET + j] = font[j];
            j = j + 1;
        }

        let mut j: usize = 0;
        while j < rom.len()
            invariant
                j <= rom@.len(),
                rom@.len() + PROGRAM_START <= MEMORY_SIZE,
                memory@.len() == MEMORY_SIZE,
                forall|k: int| 0 <= k < FONT_SIZE ==> memory@[FONT_OFFSET + k] == font_spec()[k],
                forall|k: int| 0 <= k < j ==> memory@[PROGRAM_START + k] == rom@[k],
                forall|a: int|
                    0 <= a < MEMORY_SIZE && !(FONT_OFFSET <= a < FONT_OFFSET + FONT_SIZE) && !(
                    PROGRAM_START <= a < PROGRAM_START + j) ==> memory@[a] == 0,
            decreases rom@.len() - j,
        {
            memory[PROGRAM_START + j] = rom[j];
            j = j + 1;
        }

        Ok(Chip8 {
            framebuffer: zero_bytes(DISPLAY_WIDTH * DISPLAY_HEIGHT),
            memory,
            regs: zero_bytes(NUMBER_REGS),
            stack: Vec::with_capacity(STACK_SIZE),
            pc: 0x200,
            i: 0x0,
            current_instruction: 0x0000,
            delay_timer: 0,
            sound_timer: 0,
            last_timer_update: 0,
            running: true,
            paused: debug,
            step_mode: false,
            should_step: false,
            debug_mode: debug,
        })
    }

    /// The reset transition: reinitialize everything except the memory
    /// image, so the loaded program bytes (and the font) survive.
    pub fn reset(&mut self)
        requires
            old(self).wf(),
        ensures
            final(self).wf(),
            Self::reset_post(*old(self), *final(self)),
    {
        self.framebuffer = zero_bytes(DISPLAY_WIDTH * DISPLAY_HEIGHT);
        self.regs = zero_bytes(NUMBER_REGS);
        self.stack.clear();

        self.pc = 0x200;
        self.i = 0x0;
        self.current_instruction = 0x0000;

        self.delay_timer = 0;
        self.sound_timer = 0;

        self.running = true;
        self.paused = self.debug_mode;
        self.step_mode = false;
        self.should_step = false;
    }

    /// Reads the big-endian instruction word at `PC` into
    /// `current_instruction` and advances `PC` past it.
    pub fn fetch(&mut self)
        requires
            old(self).wf(),
            old(self).pc + 1 < MEMORY_SIZE,
        ensures
            final(self).wf(),
            *final(self) == (Chip8 {
                current_instruction: spec_word(old(self).memory@, old(self).pc as int),
                pc: (old(self).pc + 2) as u16,
                ..*old(self)
            }),
    {
        let high_byte = self.memory[self.pc as usize] as u16;
        let low_byte = self.memory[(self.pc + 1) as usize] as u16;

        self.current_instruction = (high_byte << 8) | low_byte;
        self.pc = self.pc + 2;
    }

    /// Decodes `current_instruction` into its tagged instruction value.
    ///
    /// Decoding is total and deterministic: every 16-bit word yields
    /// exactly the variant `spec_decode` names for it, or fails with
    /// `InvalidOpcode` carrying the word, when `spec_decode` names none.
    pub fn decode(&self) -> (r: Result<Opcode, Chip8Error>)
        ensures
            (match spec_decode(self.current_instruction) {
                Some(op) => r == Ok::<Opcode, Chip8Error>(op),
                None => r == Err::<Opcode, Chip8Error>(
                    Chip8Error::InvalidOpcode(self.current_instruction),
                ),
            }),
    {
        crate::opcode::decode_word(self.current_instruction)
    }

    /// What `store_bcd` does: the three decimal digits of `Vx` (hundreds,
    /// tens, ones) land at `memory[I]`, `memory[I+1]`, `memory[I+2]`;
    /// nothing else changes.
    pub open spec fn store_bcd_post(pre: Chip8, post: Chip8, x: u8) -> bool {
        &&& post == (Chip8 { memory: post.memory, ..pre })
        &&& post.memory@ == pre.memory@.update(
            pre.i as int,
            ((pre.regs@[x as int] / 100) % 10) as u8,
        ).update(pre.i + 1, ((pre.regs@[x as int] / 10) % 10) as u8).update(
            pre.i + 2,
            (pre.regs@[x as int] % 10) as u8,
        )
    }

    /// Writes the binary-coded-decimal digits of `Vx` to
    /// `memory[I..I+3]`.
    pub fn store_bcd(&mut self, x: u8)
        requires
            old(self).wf(),
            x < 16,
            old(self).i + 2 < MEMORY_SIZE,
        ensures
            final(self).wf(),
            Self::store_bcd_post(*old(self), *final(self), x),
    {
        self.memory[self.i as usize] = (self.regs[x as usize] / 100) % 10;
        self.memory[(self.i + 1) as usize] = (self.regs[x as usize] / 10) % 10;
        self.memory[(self.i + 2) as usize] = self.regs[x as usize] % 10;
    }

    /// What `store_regs` does: `V0..=Vx` land at `memory[I..=I+x]` in
    /// ascending register order; all other memory and `I` itself are
    /// untouched.
    pub open spec fn store_regs_post(pre: Chip8, post: Chip8, x: u16) -> bool {
        &&& post == (Chip8 { memory: post.memory, ..pre })
        &&& post.memory@.len() == pre.memory@.len()
        &&& forall|j: int| 0 <= j <= x ==> post.memory@[pre.i + j] == pre.regs@[j]
        &&& forall|a: int|
            0 <= a < pre.memory@.len() && !(pre.i <= a <= pre.i + x) ==> post.memory@[a]
                == pre.memory@[a]
    }

    /// Copies the register prefix `V0..=Vx` into memory starting at `I`.
    pub fn store_regs(&mut self, x: u16)
        requires
            old(self).wf(),
            x < 16,
            old(self).i + x < MEMORY_SIZE,
        ensures
            final(self).wf(),
            Self::store_regs_post(*old(self), *final(self), x),
    {
        let ghost pre = *self;
        let mut j: u16 = 0;
        while j <= x
            invariant
                pre.wf(),
                x < 16,
                pre.i + x < MEMORY_SIZE,
                j <= x + 1,
                *self == (Chip8 { memory: self.memory, ..pre }),
                self.memory@.len() == pre.memory@.len(),
                forall|k: int| 0 <= k < j ==> self.memory@[pre.i + k] == pre.regs@[k],
                forall|a: int|
                    0 <= a < pre.memory@.len() && !(pre.i <= a < pre.i + j) ==> self.memory@[a]
                        == pre.memory@[a],
            decreases x + 1 - j,
        {
            self.memory[(self.i + j) as usize] = self.regs[j as usize];
            j = j + 1;
        }
    }

    /// What `load_regs` does: `V0..=Vx` are filled from `memory[I..=I+x]`
    /// in ascending register order; the remaining registers, all memory
    /// and `I` itself are untouched.
    pub open spec fn load_regs_post(pre: Chip8, post: Chip8, x: u16) -> bool {
        &&& post == (Chip8 { regs: post.regs, ..pre })
        &&& post.regs@.len() == pre.regs@.len()
        &&& forall|j: int| 0 <= j <= x ==> post.regs@[j] == pre.memory@[pre.i + j]
        &&& forall|j: int| x < j < NUMBER_REGS ==> post.regs@[j] == pre.regs@[j]
    }

    /// Fills the register prefix `V0..=Vx` from memory starting at `I`.
    pub fn load_regs(&mut self, x: u16)
        requires
            old(self).wf(),
            x < 16,
            old(self).i + x < MEMORY_SIZE,
        ensures
            final(self).wf(),
            Self::load_regs_post(*old(self), *final(self), x),
    {
        let ghost pre = *self;
        let mut j: u16 = 0;
        while j <= x
            invariant
                pre.wf(),
                x < 16,
                pre.i + x < MEMORY_SIZE,
                j <= x + 1,
                *self == (Chip8 { regs: self.regs, ..pre }),
                self.regs@.len() == pre.regs@.len(),
                forall|k: int| 0 <= k < j ==> self.regs@[k] == pre.memory@[pre.i + k],
                forall|k: int| j <= k < NUMBER_REGS ==> self.regs@[k] == pre.regs@[k],
            decreases x + 1 - j,
        {
            self.regs[j as usize] = self.memory[(self.i + j) as usize];
            j = j + 1;
        }
    }

    /// What `display` does: the sprite of `n` rows stored at `I` is XOR
    /// composited onto the framebuffer at `(vx, vy)`, clipped (not
    /// wrapped) at the right and bottom edges, and `VF` reports whether
    /// any XOR flipped a set cell back to unset.
    pub open spec fn display_post(pre: Chip8, post: Chip8, vx: int, vy: int, n: int) -> bool {
        &&& post == (Chip8 { framebuffer: post.framebuffer, regs: post.regs, ..pre })
        &&& post.framebuffer@.len() == pre.framebuffer@.len()
        &&& forall|k: int|
            0 <= k < pre.framebuffer@.len() ==> post.framebuffer@[k] == fb_cell_after(
                pre.framebuffer@,
                pre.memory@,
                pre.i as int,
                vx,
                vy,
                n,
                k,
            )
        &&& post.regs@ == pre.regs@.update(
            15,
            if spec_collision(pre.framebuffer@, pre.memory@, pre.i as int, vx, vy, n) {
                1u8
            } else {
                0u8
            },
        )
    }

    /// Draws the `n`-row sprite stored at `I` onto the framebuffer at
    /// `(vx, vy)`: each sprite bit is XORed into its cell, rows and
    /// columns past the bottom or right edge are clipped, and `VF` is set
    /// to 1 exactly when some set cell was flipped to unset (a collision),
    /// 0 otherwise.
    #[verifier::loop_isolation(false)]
    #[verifier::rlimit(30)]
    pub fn display(&mut self, vx: usize, vy: usize, n: u8)
        requires
            old(self).wf(),
            vx < DISPLAY_WIDTH,
            vy < DISPLAY_HEIGHT,
            old(self).i + sprite_rows(vy as int, n as int) <= MEMORY_SIZE,
        ensures
            final(self).wf(),
            Self::display_post(*old(self), *final(self), vx as int, vy as int, n as int),
    {
        let ghost pre = *self;
        let ghost fbi = pre.framebuffer@;
        let ghost mem = pre.memory@;
        let ghost ii = pre.i as int;
        let ghost vxi = vx as int;
        let ghost vyi = vy as int;
        let ghost ni = n as int;

        self.regs[0xF] = 0;

        let rows: usize = if (n as usize) <= DISPLAY_HEIGHT - vy {
            n as usize
        } else {
            DISPLAY_HEIGHT - vy
        };
        let cols: usize = if 8 <= DISPLAY_WIDTH - vx {
            8
        } else {
            DISPLAY_WIDTH - vx
        };
        assert(rows == sprite_rows(vyi, ni));
        assert(cols == sprite_cols(vxi));

        let mut r: usize = 0;
        while r < rows
            invariant
                r <= rows,
                *self == (Chip8 { framebuffer: self.framebuffer, regs: self.regs, ..pre }),
                self.framebuffer@.len() == fbi.len(),
                forall|k: int|
                    0 <= k < fbi.len() ==> self.framebuffer@[k] == fb_cell_partial(
                        fbi,
                        mem,
                        ii,
                        vxi,
                        vyi,
                        ni,
                        r as int,
                        0,
                        k,
                    ),
                self.regs@ == pre.regs@.update(
                    15,
                    if collision_partial(fbi, mem, ii, vxi, vyi, ni, r as int, 0) {
                        1u8
                    } else {
                        0u8
                    },
                ),
            decreases rows - r,
        {
            let byte = self.memory[self.i as usize + r];
            let mut c: usize = 0;
            while c < cols
                invariant
                    r < rows,
                    c <= cols,
                    byte == mem[ii + r],
                    *self == (Chip8 { framebuffer: self.framebuffer, regs: self.regs, ..pre }),
                    self.framebuffer@.len() == fbi.len(),
                    forall|k: int|
                        0 <= k < fbi.len() ==> self.framebuffer@[k] == fb_cell_partial(
                            fbi,
                            mem,
                            ii,
                            vxi,
                            vyi,
                            ni,
                            r as int,
                            c as int,
                            k,
                        ),
                    self.regs@ == pre.regs@.update(
                        15,
                        if collision_partial(fbi, mem, ii, vxi, vyi, ni, r as int, c as int) {
                            1u8
                        } else {
                            0u8
                        },
                    ),
                decreases cols - c,
            {
                let shift: u8 = (7 - c) as u8;
                let bit = (byte >> shift) & 1;
                let k = (vy + r) * DISPLAY_WIDTH + (vx + c);
                proof {
                    lemma_cell_index(vyi + r, vxi + c);
                    assert(bit == sprite_pixel(mem, ii, r as int, c as int));
                    lemma_shift_bit(byte, shift);
                    // The target cell has not been drawn yet, so it still
                    // holds its pre-draw value.
                    assert(self.framebuffer@[k as int] == fbi[k as int]);
                }
                let cell = self.framebuffer[k];
                if bit == 1 && cell == 1 {
                    self.regs[0xF] = 1;
                    proof {
                        assert(hit(fbi, mem, ii, vxi, vyi, ni, r as int, c as int));
                        assert(collision_partial(fbi, mem, ii, vxi, vyi, ni, r as int, c + 1));
                        assert(self.regs@ =~= pre.regs@.update(15, 1u8));
                    }
                } else {
                    proof {
                        assert(!hit(fbi, mem, ii, vxi, vyi, ni, r as int, c as int));
                        assert(collision_partial(fbi, mem, ii, vxi, vyi, ni, r as int, c + 1)
                            == collision_partial(fbi, mem, ii, vxi, vyi, ni, r as int, c as int));
                    }
                }
                self.framebuffer[k] = cell ^ bit;
                proof {
                    assert forall|k2: int| 0 <= k2 < fbi.len() implies self.framebuffer@[k2]
                        == fb_cell_partial(fbi, mem, ii, vxi, vyi, ni, r as int, c + 1, k2) by {
                        vstd::arithmetic::div_mod::lemma_fundamental_div_mod(k2, 64);
                        if k2 != k as int {
                            assert(!(k2 / 64 == vyi + r && k2 % 64 == vxi + c));
                        }
                    }
                }
                c = c + 1;
            }
            proof {
                assert forall|k2: int| 0 <= k2 < fbi.len() implies fb_cell_partial(
                    fbi,
                    mem,
                    ii,
                    vxi,
                    vyi,
                    ni,
                    r as int,
                    cols as int,
                    k2,
                ) == fb_cell_partial(fbi, mem, ii, vxi, vyi, ni, r + 1, 0, k2) by {
                    vstd::arithmetic::div_mod::lemma_fundamental_div_mod(k2, 64);
                }
                assert(collision_partial(fbi, mem, ii, vxi, vyi, ni, r as int, cols as int)
                    == collision_partial(fbi, mem, ii, vxi, vyi, ni, r + 1, 0));
            }
            r = r + 1;
        }
        proof {
            assert forall|k2: int| 0 <= k2 < fbi.len() implies self.framebuffer@[k2]
                == fb_cell_after(fbi, mem, ii, vxi, vyi, ni, k2) by {
                vstd::arithmetic::div_mod::lemma_fundamental_div_mod(k2, 64);
            }
            assert(collision_partial(fbi, mem, ii, vxi, vyi, ni, rows as int, 0) == spec_collision(
                fbi,
                mem,
                ii,
                vxi,
                vyi,
                ni,
            ));
            // Every cell stays 0 or 1.
            assert forall|k2: int| 0 <= k2 < fbi.len() implies self.framebuffer@[k2] <= 1 by {
                vstd::arithmetic::div_mod::lemma_fundamental_div_mod(k2, 64);
                let row = k2 / 64;
                let col = k2 % 64;
                if sprite_covers(vxi, vyi, ni, row, col) {
                    lemma_shift_bit(mem[ii + (row - vyi)], (7 - (col - vxi)) as u8);
                    lemma_xor_bits(fbi[k2], sprite_pixel(mem, ii, row - vyi, col - vxi));
                }
            }
        }
    }

    /// The state after a register write: only the register file changes,
    /// and in it only register `x`.
    pub open spec fn sets_reg(pre: Chip8, post: Chip8, x: int, v: u8) -> bool {
        &&& post == (Chip8 { regs: post.regs, ..pre })
        &&& post.regs@ == pre.regs@.update(x, v)
    }

    /// The state after a jump: only the program counter changes.
    pub open spec fn sets_pc(pre: Chip8, post: Chip8, pc: u16) -> bool {
        post == (Chip8 { pc, ..pre })
    }

    /// The inputs on which executing `op` in state `s` is defined. The
    /// machine gives memory-block, sprite and index instructions free rein
    /// over the address space; an access past the end of memory (or a
    /// program counter pushed past the 16-bit range) has no defined
    /// meaning, so the executor demands these bounds from its caller.
    pub open spec fn op_safe(s: Chip8, op: Opcode) -> bool {
        match op {
            Opcode::SkipEqualVal(_, _) => s.pc + 2 <= u16::MAX,
            Opcode::SkipNotEqualVal(_, _) => s.pc + 2 <= u16::MAX,
            Opcode::SkipEqual(_, _) => s.pc + 2 <= u16::MAX,
            Opcode::SkipNotEqual(_, _) => s.pc + 2 <= u16::MAX,
            Opcode::SkipKey(_) => s.pc + 2 <= u16::MAX,
            Opcode::SkipNotKey(_) => s.pc + 2 <= u16::MAX,
            Opcode::WaitKey(_) => s.pc >= 2,
            Opcode::AddI(x) => s.i + s.regs@[x as int] <= u16::MAX,
            Opcode::StoreBCD(_) => s.i + 2 < MEMORY_SIZE,
            Opcode::StoreRegs(x) => s.i + x < MEMORY_SIZE,
            Opcode::LoadRegs(x) => s.i + x < MEMORY_SIZE,
            Opcode::Draw(_, y, n) => s.i + sprite_rows((s.regs@[y as int] as int) % 32, n as int)
                <= MEMORY_SIZE,
            _ => true,
        }
    }

    /// The full semantics of one instruction: how `execute` changes the
    /// machine and keypad state and what it returns, for every opcode.
    /// `Ok(true)` asks the embedding loop to present the framebuffer.
    pub open spec fn execute_post(
        pre: Chip8,
        post: Chip8,
        kpre: Keypad,
        kpost: Keypad,
        op: Opcode,
        r: Result<bool, Chip8Error>,
    ) -> bool {
        match op {
            Opcode::Clear => {
                &&& r == Ok::<bool, Chip8Error>(true)
                &&& kpost == kpre
                &&& post == (Chip8 { framebuffer: post.framebuffer, ..pre })
                &&& post.framebuffer@.len() == pre.framebuffer@.len()
                &&& forall|k: int| 0 <= k < post.framebuffer@.len() ==> post.framebuffer@[k] == 0
            },
            Opcode::Return => {
                &&& kpost == kpre
                &&& if pre.stack@.len() == 0 {
                    r == Err::<bool, Chip8Error>(Chip8Error::StackUnderflow) && post == pre
                } else {
                    &&& r == Ok::<bool, Chip8Error>(false)
                    &&& post == (Chip8 { pc: pre.stack@.last(), stack: post.stack, ..pre })
                    &&& post.stack@ == pre.stack@.drop_last()
                }
            },
            Opcode::Jump(nnn) => {
                &&& r == Ok::<bool, Chip8Error>(false)
                &&& kpost == kpre
                &&& Self::sets_pc(pre, post, nnn)
            },
            Opcode::Call(nnn) => {
                &&& kpost == kpre
                &&& if pre.stack@.len() >= STACK_SIZE {
                    r == Err::<bool, Chip8Error>(Chip8Error::StackOverflow) && post == pre
                } else {
                    &&& r == Ok::<bool, Chip8Error>(false)
                    &&& post == (Chip8 { pc: nnn, stack: post.stack, ..pre })
                    &&& post.stack@ == pre.stack@.push(pre.pc)
                }
            },
            Opcode::SkipEqualVal(x, nn) => {
                &&& r == Ok::<bool, Chip8Error>(false)
                &&& kpost == kpre
                &&& Self::sets_pc(
                    pre,
                    post,
                    if pre.regs@[x as int] == nn {
                        (pre.pc + 2) as u16
                    } else {
                        pre.pc
                    },
                )
            },
            Opcode::SkipNotEqualVal(x, nn) => {
                &&& r == Ok::<bool, Chip8Error>(false)
                &&& kpost == kpre
                &&& Self::sets_pc(
                    pre,
                    post,
                    if pre.regs@[x as int] != nn {
                        (pre.pc + 2) as u16
                    } else {
                        pre.pc
                    },
                )
            },
            Opcode::SkipEqual(x, y) => {
                &&& r == Ok::<bool, Chip8Error>(false)
                &&& kpost == kpre
                &&& Self::sets_pc(
                    pre,
                    post,
                    if pre.regs@[x as int] == pre.regs@[y as int] {
                        (pre.pc + 2) as u16
                    } else {
                        pre.pc
                    },
                )
            },
            Opcode::SetVal(x, nn) => {
                &&& r == Ok::<bool, Chip8Error>(false)
                &&& kpost == kpre
                &&& Self::sets_reg(pre, post, x as int, nn)
            },
            Opcode::AddVal(x, nn) => {
                &&& r == Ok::<bool, Chip8Error>(false)
                &&& kpost == kpre
                &&& Self::sets_reg(pre, post, x as int, ((pre.regs@[x as int] + nn) % 256) as u8)
            },
            Opcode::SetReg(x, y) => {
                &&& r == Ok::<bool, Chip8Error>(false)
                &&& kpost == kpre
                &&& Self::sets_reg(pre, post, x as int, pre.regs@[y as int])
            },
            Opcode::Or(x, y) => {
                &&& r == Ok::<bool, Chip8Error>(false)
                &&& kpost == kpre
                &&& Self::sets_reg(pre, post, x as int, pre.regs@[x as int] | pre.regs@[y as int])
            },
            Opcode::And(x, y) => {
                &&& r == Ok::<bool, Chip8Error>(false)
                &&& kpost == kpre
                &&& Self::sets_reg(pre, post, x as int, pre.regs@[x as int] & pre.regs@[y as int])
            },
            Opcode::Xor(x, y) => {
                &&& r == Ok::<bool, Chip8Error>(false)
                &&& kpost == kpre
                &&& Self::sets_reg(pre, post, x as int, pre.regs@[x as int] ^ pre.regs@[y as int])
            },
            Opcode::Add(x, y) => {
                &&& r == Ok::<bool, Chip8Error>(false)
                &&& kpost == kpre
                &&& post == (Chip8 { regs: post.regs, ..pre })
                &&& post.regs@ == pre.regs@.update(
                    x as int,
                    ((pre.regs@[x as int] + pre.regs@[y as int]) % 256) as u8,
                ).update(
                    15,
                    if pre.regs@[x as int] + pre.regs@[y as int] >= 256 {
                        1u8
                    } else {
                        0u8
                    },
                )
            },
            Opcode::SubY(x, y) => {
                &&& r == Ok::<bool, Chip8Error>(false)
                &&& kpost == kpre
                &&& post == (Chip8 { regs: post.regs, ..pre })
                &&& post.regs@ == pre.regs@.update(
                    x as int,
                    ((pre.regs@[x as int] - pre.regs@[y as int]) % 256) as u8,
                ).update(
                    15,
                    if pre.regs@[x as int] >= pre.regs@[y as int] {
                        1u8
                    } else {
                        0u8
                    },
                )
            },
            Opcode::ShiftRight(x) => {
                &&& r == Ok::<bool, Chip8Error>(false)
                &&& kpost == kpre
                &&& post == (Chip8 { regs: post.regs, ..pre })
                &&& post.regs@ == pre.regs@.update(x as int, pre.regs@[x as int] >> 1u8).update(
                    15,
                    pre.regs@[x as int] & 1,
                )
            },
            Opcode::SubX(x, y) => {
                &&& r == Ok::<bool, Chip8Error>(false)
                &&& kpost == kpre
                &&& post == (Chip8 { regs: post.regs, ..pre })
                &&& post.regs@ == pre.regs@.update(
                    x as int,
                    ((pre.regs@[y as int] - pre.regs@[x as int]) % 256) as u8,
                ).update(
                    15,
                    if pre.regs@[y as int] >= pre.regs@[x as int] {
                        1u8
                    } else {
                        0u8
                    },
                )
            },
            Opcode::ShiftLeft(x) => {
                &&& r == Ok::<bool, Chip8Error>(false)
                &&& kpost == kpre
                &&& post == (Chip8 { regs: post.regs, ..pre })
                &&& post.regs@ == pre.regs@.update(x as int, pre.regs@[x as int] << 1u8).update(
                    15,
                    (pre.regs@[x as int] >> 7u8) & 1,
                )
            },
            Opcode::SkipNotEqual(x, y) => {
                &&& r == Ok::<bool, Chip8Error>(false)
                &&& kpost == kpre
                &&& Self::sets_pc(
                    pre,
                    post,
                    if pre.regs@[x as int] != pre.regs@[y as int] {
                        (pre.pc + 2) as u16
                    } else {
                        pre.pc
                    },
                )
            },
            Opcode::SetI(nnn) => {
                &&& r == Ok::<bool, Chip8Error>(false)
                &&& kpost == kpre
                &&& post == (Chip8 { i: nnn, ..pre })
            },
            Opcode::JumpV0(nnn) => {
                &&& r == Ok::<bool, Chip8Error>(false)
                &&& kpost == kpre
                &&& Self::sets_pc(pre, post, (pre.regs@[0] + nnn) as u16)
            },
            Opcode::Random(x, nn) => {
                &&& r == Ok::<bool, Chip8Error>(false)
                &&& kpost == kpre
                &&& post == (Chip8 { regs: post.regs, ..pre })
                &&& post.regs@ == pre.regs@.update(x as int, post.regs@[x as int])
                &&& post.regs@[x as int] & !nn == 0
            },
            Opcode::Draw(x, y, n) => {
                &&& r == Ok::<bool, Chip8Error>(true)
                &&& kpost == kpre
                &&& Self::display_post(
                    pre,
                    post,
                    (pre.regs@[x as int] as int) % 64,
                    (pre.regs@[y as int] as int) % 32,
                    n as int,
                )
            },
            Opcode::SkipKey(x) => {
                &&& kpost == kpre
                &&& if pre.regs@[x as int] > 0xF {
                    r == Err::<bool, Chip8Error>(Chip8Error::InvalidRegister(pre.regs@[x as int]))
                        && post == pre
                } else {
                    r == Ok::<bool, Chip8Error>(false) && Self::sets_pc(
                        pre,
                        post,
                        if kpre.keys@[pre.regs@[x as int] as int] {
                            (pre.pc + 2) as u16
                        } else {
                            pre.pc
                        },
                    )
                }
            },
            Opcode::SkipNotKey(x) => {
                &&& kpost == kpre
                &&& if pre.regs@[x as int] > 0xF {
                    r == Err::<bool, Chip8Error>(Chip8Error::InvalidRegister(pre.regs@[x as int]))
                        && post == pre
                } else {
                    r == Ok::<bool, Chip8Error>(false) && Self::sets_pc(
                        pre,
                        post,
                        if !kpre.keys@[pre.regs@[x as int] as int] {
                            (pre.pc + 2) as u16
                        } else {
                            pre.pc
                        },
                    )
                }
            },
            Opcode::GetDelay(x) => {
                &&& r == Ok::<bool, Chip8Error>(false)
                &&& kpost == kpre
                &&& Self::sets_reg(pre, post, x as int, pre.delay_timer)
            },
            Opcode::WaitKey(x) => {
                &&& r == Ok::<bool, Chip8Error>(false)
                &&& match kpre.pending {
                    Option::None => {
                        &&& kpost == kpre
                        &&& Self::sets_pc(pre, post, (pre.pc - 2) as u16)
                    },
                    Option::Some(key) => {
                        &&& kpost == (Keypad { pending: None, ..kpre })
                        &&& Self::sets_reg(pre, post, x as int, key)
                    },
                }
            },
            Opcode::SetDelay(x) => {
                &&& r == Ok::<bool, Chip8Error>(false)
                &&& kpost == kpre
                &&& post == (Chip8 { delay_timer: pre.regs@[x as int], ..pre })
            },
            Opcode::SetSound(x) => {
                &&& r == Ok::<bool, Chip8Error>(false)
                &&& kpost == kpre
                &&& post == (Chip8 { sound_timer: pre.regs@[x as int], ..pre })
            },
            Opcode::AddI(x) => {
                &&& r == Ok::<bool, Chip8Error>(false)
                &&& kpost == kpre
                &&& post == (Chip8 { i: (pre.i + pre.regs@[x as int]) as u16, ..pre })
            },
            Opcode::SetSprite(x) => {
                &&& r == Ok::<bool, Chip8Error>(false)
                &&& kpost == kpre
                &&& post == (Chip8 {
                    i: (FONT_OFFSET + 5 * (pre.regs@[x as int] & 0xF)) as u16,
                    ..pre
                })
            },
            Opcode::StoreBCD(x) => {
                &&& r == Ok::<bool, Chip8Error>(false)
                &&& kpost == kpre
                &&& Self::store_bcd_post(pre, post, x)
            },
            Opcode::StoreRegs(x) => {
                &&& r == Ok::<bool, Chip8Error>(false)
                &&& kpost == kpre
                &&& Self::store_regs_post(pre, post, x as u16)
            },
            Opcode::LoadRegs(x) => {
                &&& r == Ok::<bool, Chip8Error>(false)
                &&& kpost == kpre
                &&& Self::load_regs_post(pre, post, x as u16)
            },
        }
    }

    /// Applies one decoded instruction to the machine state, consulting
    /// and updating the keypad snapshot where the instruction asks for
    /// it. Returns `Ok(true)` when the framebuffer changed and should be
    /// presented, and fails exactly as `execute_post` describes.
    #[verifier::rlimit(60)]
    pub fn execute(&mut self, opcode: Opcode, keypad: &mut Keypad) -> (r: Result<
        bool,
        Chip8Error,
    >)
        requires
            old(self).wf(),
            old(keypad).wf(),
            op_wf(opcode),
            Self::op_safe(*old(self), opcode),
        ensures
            final(self).wf(),
            final(keypad).wf(),
            Self::execute_post(
                *old(self),
                *final(self),
                *old(keypad),
                *final(keypad),
                opcode,
                r,
            ),
            final(self).should_step == old(self).should_step,
    {
        match opcode {
            Opcode::Clear => {
                self.framebuffer = zero_bytes(DISPLAY_WIDTH * DISPLAY_HEIGHT);
                Ok(true)
            },
            Opcode::Return => {
                match self.stack_pop() {
                    Ok(addr) => {
                        self.pc = addr;
                        Ok(false)
                    },
                    Err(e) => Err(e),
                }
            },
            Opcode::Jump(addr) => {
                self.pc = addr;
                Ok(false)
            },
            Opcode::Call(addr) => {
                match self.stack_push(self.pc) {
                    Ok(_) => {
                        self.pc = addr;
                        Ok(false)
                    },
                    Err(e) => Err(e),
                }
            },
            Opcode::SkipEqualVal(x, nn) => {
                if self.regs[x as usize] == nn {
                    self.pc = self.pc + 2;
                }
                Ok(false)
            },
            Opcode::SkipNotEqualVal(x, nn) => {
                if self.regs[x as usize] != nn {
                    self.pc = self.pc + 2;
                }
                Ok(false)
            },
            Opcode::SkipEqual(x, y) => {
                if self.regs[x as usize] == self.regs[y as usize] {
                    self.pc = self.pc + 2;
                }
                Ok(false)
            },
            Opcode::SetVal(x, nn) => {
                self.regs[x as usize] = nn;
                Ok(false)
            },
            Opcode::AddVal(x, nn) => {
                self.regs[x as usize] = self.regs[x as usize].wrapping_add(nn);
                Ok(false)
            },
            Opcode::SetReg(x, y) => {
                self.regs[x as usize] = self.regs[y as usize];
                Ok(false)
            },
            Opcode::Or(x, y) => {
                self.regs[x as usize] = self.regs[x as usize] | self.regs[y as usize];
                Ok(false)
            },
            Opcode::And(x, y) => {
                self.regs[x as usize] = self.regs[x as usize] & self.regs[y as usize];
                Ok(false)
            },
            Opcode::Xor(x, y) => {
                self.regs[x as usize] = self.regs[x as usize] ^ self.regs[y as usize];
                Ok(false)
            },
            Opcode::Add(x, y) => {
                let a = self.regs[x as usize];
                let b = self.regs[y as usize];
                let overflow: bool = (a as u16) + (b as u16) >= 256;
                self.regs[x as usize] = a.wrapping_add(b);
                self.regs[0xF] = if overflow {
                    1
                } else {
                    0
                };
                Ok(false)
            },
            Opcode::SubY(x, y) => {
                let a = self.regs[x as usize];
                let b = self.regs[y as usize];
                let no_borrow: bool = a >= b;
                self.regs[x as usize] = a.wrapping_sub(b);
                self.regs[0xF] = if no_borrow {
                    1
                } else {
                    0
                };
                Ok(false)
            },
            Opcode::ShiftRight(x) => {
                let acc = self.regs[x as usize];
                self.regs[x as usize] = acc >> 1u8;
                self.regs[0xF] = acc & 1;
                Ok(false)
            },
            Opcode::SubX(x, y) => {
                let a = self.regs[x as usize];
                let b = self.regs[y as usize];
                let no_borrow: bool = b >= a;
                self.regs[x as usize] = b.wrapping_sub(a);
                self.regs[0xF] = if no_borrow {
                    1
                } else {
                    0
                };
                Ok(false)
            },
            Opcode::ShiftLeft(x) => {
                let acc = self.regs[x as usize];
                self.regs[x as usize] = acc << 1u8;
                self.regs[0xF] = (acc >> 7u8) & 1;
                Ok(false)
            },
            Opcode::SkipNotEqual(x, y) => {
                if self.regs[x as usize] != self.regs[y as usize] {
                    self.pc = self.pc + 2;
                }
                Ok(false)
            },
            Opcode::SetI(addr) => {
                self.i = addr;
                Ok(false)
            },
            Opcode::JumpV0(nnn) => {
                self.pc = self.regs[0] as u16 + nnn;
                Ok(false)
            },
            Opcode::Random(x, nn) => {
                let random_number = random_byte();
                self.regs[x as usize] = random_number & nn;
                proof {
                    lemma_masked(random_number, nn);
                }
                Ok(false)
            },
            Opcode::Draw(x, y, n) => {
                let vx = (self.regs[x as usize] as usize) % DISPLAY_WIDTH;
                let vy = (self.regs[y as usize] as usize) % DISPLAY_HEIGHT;
                self.display(vx, vy, n);
                Ok(true)
            },
            Opcode::SkipKey(x) => {
                let key = self.regs[x as usize];
                if key > 0xF {
                    return Err(Chip8Error::InvalidRegister(key));
                }
                if keypad.is_key_down(key) {
                    self.pc = self.pc + 2;
                }
                Ok(false)
            },
            Opcode::SkipNotKey(x) => {
                let key = self.regs[x as usize];
                if key > 0xF {
                    return Err(Chip8Error::InvalidRegister(key));
                }
                if !keypad.is_key_down(key) {
                    self.pc = self.pc + 2;
                }
                Ok(false)
            },
            Opcode::GetDelay(x) => {
                self.regs[x as usize] = self.delay_timer;
                Ok(false)
            },
            Opcode::WaitKey(x) => {
                match keypad.pending {
                    Some(key) => {
                        self.regs[x as usize] = key;
                        keypad.pending = None;
                    },
                    None => {
                        self.pc = self.pc - 2;
                    },
                }
                Ok(false)
            },
            Opcode::SetDelay(x) => {
                self.delay_timer = self.regs[x as usize];
                Ok(false)
            },
            Opcode::SetSound(x) => {
                self.sound_timer = self.regs[x as usize];
                Ok(false)
            },
            Opcode::AddI(x) => {
                self.i = self.i + self.regs[x as usize] as u16;
                Ok(false)
            },
            Opcode::SetSprite(x) => {
                let nibble = self.regs[x as usize] & 0xF;
                proof {
                    lemma_low_nibble(self.regs@[x as int]);
                }
                self.i = FONT_OFFSET as u16 + 5 * (nibble as u16);
                Ok(false)
            },
            Opcode::StoreBCD(x) => {
                self.store_bcd(x);
                Ok(false)
            },
            Opcode::StoreRegs(x) => {
                self.store_regs(x as u16);
                Ok(false)
            },
            Opcode::LoadRegs(x) => {
                self.load_regs(x as u16);
                Ok(false)
            },
        }
    }

    /// What one decode-then-execute step does: an undecodable word fails
    /// with `InvalidOpcode` (carrying the word) and changes nothing; a
    /// decodable one behaves as `execute_post` says for its instruction.
    pub open spec fn decode_execute_post(
        pre: Chip8,
        post: Chip8,
        kpre: Keypad,
        kpost: Keypad,
        r: Result<bool, Chip8Error>,
    ) -> bool {
        match spec_decode(pre.current_instruction) {
            Option::None => {
                &&& post == pre
                &&& kpost == kpre
                &&& r == Err::<bool, Chip8Error>(
                    Chip8Error::InvalidOpcode(pre.current_instruction),
                )
            },
            Option::Some(op) => Self::execute_post(pre, post, kpre, kpost, op, r),
        }
    }

    /// Decodes `current_instruction` and executes it.
    pub fn decode_execute(&mut self, keypad: &mut Keypad) -> (r: Result<bool, Chip8Error>)
        requires
            old(self).wf(),
            old(keypad).wf(),
            (spec_decode(old(self).current_instruction) matches Some(op) ==> Self::op_safe(
                *old(self),
                op,
            )),
        ensures
            final(self).wf(),
            final(keypad).wf(),
            Self::decode_execute_post(
                *old(self),
                *final(self),
                *old(keypad),
                *final(keypad),
                r,
            ),
            final(self).should_step == old(self).should_step,
    {
        let opcode = match self.decode() {
            Ok(opcode) => opcode,
            Err(e) => {
                return Err(e);
            },
        };
        proof {
            crate::opcode::lemma_decode_wf(self.current_instruction);
        }
        self.execute(opcode, keypad)
    }

    /// What one run-loop cycle does.
    ///
    /// A gated cycle (paused, or in step mode with no step armed) executes
    /// nothing. An executing cycle ticks the timers, bounds-checks `PC`
    /// (failing with `PCOutOfBounds`), fetches, decodes and executes. In
    /// either case, an armed step is consumed at the end of the cycle and
    /// asks for a present. `Ok(true)` means the framebuffer should be
    /// presented.
    pub open spec fn cycle_post(
        pre: Chip8,
        post: Chip8,
        kpre: Keypad,
        kpost: Keypad,
        now_ms: u64,
        r: Result<bool, Chip8Error>,
    ) -> bool {
        if !will_execute(pre) {
            &&& kpost == kpre
            &&& if pre.step_mode && pre.should_step {
                post == (Chip8 { should_step: false, ..pre }) && r == Ok::<bool, Chip8Error>(true)
            } else {
                post == pre && r == Ok::<bool, Chip8Error>(false)
            }
        } else {
            let t = apply_timer(pre, now_ms);
            if t.pc >= MEMORY_SIZE - 1 {
                &&& post == t
                &&& kpost == kpre
                &&& r == Err::<bool, Chip8Error>(Chip8Error::PCOutOfBounds(t.pc))
            } else {
                let f = after_fetch(t);
                match spec_decode(f.current_instruction) {
                    Option::None => {
                        &&& post == f
                        &&& kpost == kpre
                        &&& r == Err::<bool, Chip8Error>(
                            Chip8Error::InvalidOpcode(f.current_instruction),
                        )
                    },
                    Option::Some(op) => {
                        match r {
                            Result::Err(_) => Self::execute_post(f, post, kpre, kpost, op, r),
                            Result::Ok(p) => {
                                let armed = pre.step_mode && pre.should_step;
                                &&& p == (spec_present(op) || armed)
                                &&& post.should_step == (if armed {
                                    false
                                } else {
                                    pre.should_step
                                })
                                &&& Self::execute_post(
                                    f,
                                    (Chip8 { should_step: pre.should_step, ..post }),
                                    kpre,
                                    kpost,
                                    op,
                                    Ok::<bool, Chip8Error>(spec_present(op)),
                                )
                            },
                        }
                    },
                }
            }
        }
    }

    /// One cycle of the run loop: tick the timing controller, bounds-check
    /// `PC`, fetch, decode and execute — each part only as far as the
    /// pause/step state machine allows it this cycle.
    pub fn cycle(&mut self, now_ms: u64, keypad: &mut Keypad) -> (r: Result<bool, Chip8Error>)
        requires
            old(self).wf(),
            old(keypad).wf(),
            old(self).last_timer_update <= now_ms,
            cycle_safe(*old(self)),
        ensures
            final(self).wf(),
            final(keypad).wf(),
            Self::cycle_post(*old(self), *final(self), *old(keypad), *final(keypad), now_ms, r),
    {
        let ghost pre = *self;
        let mut present = false;

        if !self.paused && (!self.step_mode || self.should_step) {
            self.handle_timer(now_ms);

            if self.pc as usize >= MEMORY_SIZE - 1 {
                return Err(Chip8Error::PCOutOfBounds(self.pc));
            }

            self.fetch();
            proof {
                match spec_decode(self.current_instruction) {
                    Option::Some(op) => lemma_op_safe_frame(after_fetch(pre), *self, op),
                    Option::None => (),
                }
            }
            match self.decode_execute(keypad) {
                Ok(p) => {
                    present = p;
                },
                Err(e) => {
                    return Err(e);
                },
            }
        }

        let ghost mid = *self;
        if self.step_mode && self.should_step {
            present = true;
            self.should_step = false;
        }
        proof {
            if pre.step_mode && pre.should_step {
                assert(*self == (Chip8 { should_step: false, ..mid }));
                assert(mid == (Chip8 { should_step: pre.should_step, ..*self }));
            }
        }
        Ok(present)
    }

    /// Applies one polled signal bitmask from the input backend: `QUIT`
    /// stops the machine and nothing else is applied; otherwise the
    /// pause and step-mode toggles apply only in debug mode, `SHOULD_STEP`
    /// arms one step, and `RESET` (applied last) reinitializes everything
    /// except the memory image. The result says whether the framebuffer
    /// should be presented to reflect the transition.
    pub open spec fn handle_signals_post(
        pre: Chip8,
        post: Chip8,
        signals: u32,
        present: bool,
    ) -> bool {
        if signals & QUIT != 0 {
            post == (Chip8 { running: false, ..pre }) && present == false
        } else {
            let p1 = if signals & PAUSE != 0 && pre.debug_mode {
                (Chip8 { paused: !pre.paused, ..pre })
            } else {
                pre
            };
            let p2 = if signals & STEP_MODE != 0 && pre.debug_mode {
                (Chip8 { step_mode: !p1.step_mode, ..p1 })
            } else {
                p1
            };
            let p3 = if signals & SHOULD_STEP != 0 {
                (Chip8 { should_step: true, ..p2 })
            } else {
                p2
            };
            let toggled = (signals & PAUSE != 0 || signals & STEP_MODE != 0) && pre.debug_mode;
            if signals & RESET != 0 {
                Self::reset_post(p3, post) && present == true
            } else {
                post == p3 && present == toggled
            }
        }
    }

    /// Whether the next cycle keeps every memory access in bounds, so
    /// that `cycle` may run: the instruction about to be fetched, if any
    /// and if decodable, satisfies `op_safe` in the fetched state. An
    /// embedding loop checks this before each cycle and treats a `false`
    /// as the unrecoverable fault it is.
    pub fn next_op_in_bounds(&self) -> (safe: bool)
        requires
            self.wf(),
        ensures
            safe == cycle_safe(*self),
    {
        if self.paused || (self.step_mode && !self.should_step) {
            return true;
        }
        if self.pc as usize >= MEMORY_SIZE - 1 {
            return true;
        }
        let high_byte = self.memory[self.pc as usize] as u16;
        let low_byte = self.memory[(self.pc + 1) as usize] as u16;
        let w = (high_byte << 8) | low_byte;
        let opcode = match crate::opcode::decode_word(w) {
            Ok(opcode) => opcode,
            Err(_) => {
                return true;
            },
        };
        proof {
            crate::opcode::lemma_decode_wf(w);
        }
        match opcode {
            Opcode::StoreBCD(_) => (self.i as usize) + 2 < MEMORY_SIZE,
            Opcode::StoreRegs(x) => (self.i as usize) + (x as usize) < MEMORY_SIZE,
            Opcode::LoadRegs(x) => (self.i as usize) + (x as usize) < MEMORY_SIZE,
            Opcode::AddI(x) => (self.i as u32) + (self.regs[x as usize] as u32) <= 0xFFFF,
            Opcode::Draw(_, y, n) => {
                let vy = (self.regs[y as usize] as usize) % DISPLAY_HEIGHT;
                let rows: usize = if (n as usize) <= DISPLAY_HEIGHT - vy {
                    n as usize
                } else {
                    DISPLAY_HEIGHT - vy
                };
                (self.i as usize) + rows <= MEMORY_SIZE
            },
            _ => true,
        }
    }

    /// Applies the signal bitmask polled from the input backend to the
    /// run/pause/step state machine.
    pub fn handle_signals(&mut self, signals: u32) -> (present: bool)
        requires
            old(self).wf(),
        ensures
            final(self).wf(),
            Self::handle_signals_post(*old(self), *final(self), signals, present),
    {
        if signals & QUIT != 0 {
            self.running = false;
            return false;
        }

        let mut present = false;

        if signals & PAUSE != 0 && self.debug_mode {
            self.paused = !self.paused;
            present = true;
        }

        if signals & STEP_MODE != 0 && self.debug_mode {
            self.step_mode = !self.step_mode;
            present = true;
        }

        if signals & SHOULD_STEP != 0 {
            self.should_step = true;
        }

        if signals & RESET != 0 {
            self.reset();
            present = true;
        }

        present
    }

    /// Pushes a return address, failing with `StackOverflow` (and leaving
    /// the state untouched) exactly when the stack already holds
    /// `STACK_SIZE` addresses.
    pub fn stack_push(&mut self, value: u16) -> (r: Result<(), Chip8Error>)
        requires
            old(self).wf(),
        ensures
            final(self).wf(),
            old(self).stack@.len() >= STACK_SIZE ==> r == Err::<(), Chip8Error>(
                Chip8Error::StackOverflow,
            ) && *final(self) == *old(self),
            old(self).stack@.len() < STACK_SIZE ==> r == Ok::<(), Chip8Error>(()) && *final(self)
                == (Chip8 { stack: final(self).stack, ..*old(self) })
                && final(self).stack@ == old(self).stack@.push(value),
    {
        if self.stack.len() >= STACK_SIZE {
            return Err(Chip8Error::StackOverflow);
        }
        self.stack.push(value);
        Ok(())
    }

    /// Pops a return address, failing with `StackUnderflow` (and leaving
    /// the state untouched) exactly when the stack is empty.
    pub fn stack_pop(&mut self) -> (r: Result<u16, Chip8Error>)
        requires
            old(self).wf(),
        ensures
            final(self).wf(),
            old(self).stack@.len() == 0 ==> r == Err::<u16, Chip8Error>(Chip8Error::StackUnderflow)
                && *final(self) == *old(self),
            old(self).stack@.len() > 0 ==> r == Ok::<u16, Chip8Error>(old(self).stack@.last())
                && *final(self) == (Chip8 { stack: final(self).stack, ..*old(self) })
                && final(self).stack@ == old(self).stack@.drop_last(),
    {
        if self.stack.len() == 0 {
            return Err(Chip8Error::StackUnderflow);
        }
        match self.stack.pop() {
            Some(value) => Ok(value),
            None => Err(Chip8Error::StackUnderflow),
        }
    }

    /// Consults the 60 Hz gate: reports whether more than one timer period
    /// of wall-clock time has passed since the last tick and, if so,
    /// resets the tick timestamp to `now_ms`.
    pub fn timer_60_hz(&mut self, now_ms: u64) -> (fired: bool)
        requires
            old(self).wf(),
            old(self).last_timer_update <= now_ms,
        ensures
            final(self).wf(),
            fired == (now_ms - old(self).last_timer_update > TIMER_PERIOD_MS),
            fired ==> *final(self) == (Chip8 { last_timer_update: now_ms, ..*old(self) }),
            !fired ==> *final(self) == *old(self),
    {
        let diff = now_ms - self.last_timer_update;
        if diff > TIMER_PERIOD_MS {
            self.last_timer_update = now_ms;
            return true;
        }
        false
    }

    /// Advances the countdown timers: when the 60 Hz gate fires, both
    /// timers decrement (stopping at zero); otherwise nothing changes.
    pub fn handle_timer(&mut self, now_ms: u64)
        requires
            old(self).wf(),
            old(self).last_timer_update <= now_ms,
        ensures
            final(self).wf(),
            *final(self) == apply_timer(*old(self), now_ms),
    {
        if self.timer_60_hz(now_ms) {
            if self.delay_timer > 0 {
                self.delay_timer = self.delay_timer - 1;
            }
            if self.sound_timer > 0 {
                self.sound_timer = self.sound_timer - 1;
            }
        }
    }
}

/// Law: `add Vx, Vy` is modular addition with a carry flag. For any two
/// register values `a` and `b`, the result register holds `(a + b) mod
/// 256` and `VF` is 1 exactly when `a + b >= 256`. (When the destination
/// register is `VF` itself, the flag write comes last and wins, so the
/// law speaks of the other fifteen destinations.)
pub proof fn lemma_add_semantics(
    pre: Chip8,
    post: Chip8,
    kpre: Keypad,
    kpost: Keypad,
    x: u8,
    y: u8,
    r: Result<bool, Chip8Error>,
)
    requires
        pre.regs@.len() == NUMBER_REGS,
        x < 16,
        y < 16,
        x != 15,
        Chip8::execute_post(pre, post, kpre, kpost, Opcode::Add(x, y), r),
    ensures
        post.regs@[x as int] == (pre.regs@[x as int] + pre.regs@[y as int]) % 256,
        post.regs@[15] == 1 <==> pre.regs@[x as int] + pre.regs@[y as int] >= 256,
{
}

/// Law: `sub-y-from-x` is modular subtraction whose flag reports the
/// absence of a borrow: `VF` is 1 exactly when `Vx >= Vy`. (As with
/// `add`, the law speaks of destinations other than `VF` itself.)
pub proof fn lemma_sub_semantics(
    pre: Chip8,
    post: Chip8,
    kpre: Keypad,
    kpost: Keypad,
    x: u8,
    y: u8,
    r: Result<bool, Chip8Error>,
)
    requires
        pre.regs@.len() == NUMBER_REGS,
        x < 16,
        y < 16,
        x != 15,
        Chip8::execute_post(pre, post, kpre, kpost, Opcode::SubY(x, y), r),
    ensures
        post.regs@[x as int] == (pre.regs@[x as int] - pre.regs@[y as int]) % 256,
        post.regs@[15] == 1 <==> pre.regs@[x as int] >= pre.regs@[y as int],
{
}

/// Law: an unconditional jump sets `PC` to exactly its 12-bit address
/// field, and nothing else changes.
pub proof fn lemma_jump_semantics(
    pre: Chip8,
    post: Chip8,
    kpre: Keypad,
    kpost: Keypad,
    nnn: u16,
    r: Result<bool, Chip8Error>,
)
    requires
        Chip8::execute_post(pre, post, kpre, kpost, Opcode::Jump(nnn), r),
    ensures
        post.pc == nnn,
        post == (Chip8 { pc: nnn, ..pre }),
        r == Ok::<bool, Chip8Error>(false),
{
}

/// Law: `store-registers` then `load-registers` over the same register
/// prefix `V0..=Vx` and the same scratch address restores every register,
/// and neither transfer moves `I`.
pub proof fn lemma_store_load_round_trip(s0: Chip8, s1: Chip8, s2: Chip8, x: u16)
    requires
        s0.wf(),
        x < 16,
        s0.i + x < MEMORY_SIZE,
        Chip8::store_regs_post(s0, s1, x),
        Chip8::load_regs_post(s1, s2, x),
    ensures
        s2.regs@ == s0.regs@,
        s1.i == s0.i,
        s2.i == s0.i,
        s2.memory@ == s1.memory@,
{
    assert forall|j: int| 0 <= j < NUMBER_REGS implies s2.regs@[j] == s0.regs@[j] by {
        if j <= x {
            assert(s2.regs@[j] == s1.memory@[s1.i + j]);
            assert(s1.memory@[s0.i + j] == s0.regs@[j]);
        }
    }
    assert(s2.regs@ =~= s0.regs@);
}

/// Law: drawing a sprite onto an all-zero framebuffer reports no
/// collision, and drawing the same sprite again at the same position on
/// top of the first draw reports one — provided at least one sprite bit
/// actually lands on the screen (a blank or fully clipped sprite flips
/// nothing and collides with nothing).
pub proof fn lemma_draw_twice_collides(s0: Chip8, s1: Chip8, s2: Chip8, vx: int, vy: int, n: int)
    requires
        s0.wf(),
        0 <= vx < DISPLAY_WIDTH,
        0 <= vy < DISPLAY_HEIGHT,
        0 <= n,
        forall|k: int| 0 <= k < s0.framebuffer@.len() ==> s0.framebuffer@[k] == 0,
        Chip8::display_post(s0, s1, vx, vy, n),
        Chip8::display_post(s1, s2, vx, vy, n),
        exists|rr: int, cc: int|
            0 <= rr < sprite_rows(vy, n) && 0 <= cc < sprite_cols(vx) && sprite_pixel(
                s0.memory@,
                s0.i as int,
                rr,
                cc,
            ) == 1,
    ensures
        s1.regs@[15] == 0,
        s2.regs@[15] == 1,
{
    // The first draw finds no set cell, so it reports no collision.
    assert(!spec_collision(s0.framebuffer@, s0.memory@, s0.i as int, vx, vy, n)) by {
        if spec_collision(s0.framebuffer@, s0.memory@, s0.i as int, vx, vy, n) {
            let (rr, cc) = choose|rr: int, cc: int|
                #[trigger] hit(s0.framebuffer@, s0.memory@, s0.i as int, vx, vy, n, rr, cc);
            assert(s0.framebuffer@[(vy + rr) * (DISPLAY_WIDTH as int) + (vx + cc)] == 0);
        }
    }
    assert(s1.regs@[15] == 0);

    // A witness sprite bit that is drawn and set.
    let (rr, cc) = choose|rr: int, cc: int|
        0 <= rr < sprite_rows(vy, n) && 0 <= cc < sprite_cols(vx) && sprite_pixel(
            s0.memory@,
            s0.i as int,
            rr,
            cc,
        ) == 1;
    let k = (vy + rr) * (DISPLAY_WIDTH as int) + (vx + cc);
    lemma_cell_index(vy + rr, vx + cc);
    assert(sprite_covers(vx, vy, n, vy + rr, vx + cc));
    assert(0 <= k < s0.framebuffer@.len());

    // After the first draw the witness cell is set: 0 XOR 1 == 1.
    assert(s1.framebuffer@[k] == fb_cell_after(
        s0.framebuffer@,
        s0.memory@,
        s0.i as int,
        vx,
        vy,
        n,
        k,
    ));
    assert(0u8 ^ 1u8 == 1u8) by (bit_vector);
    assert(s1.framebuffer@[k] == 1);

    // The second draw of the same sprite hits that set cell.
    assert(s1.memory@ == s0.memory@ && s1.i == s0.i);
    assert(hit(s1.framebuffer@, s1.memory@, s1.i as int, vx, vy, n, rr, cc));
    assert(spec_collision(s1.framebuffer@, s1.memory@, s1.i as int, vx, vy, n));
    assert(s2.regs@[15] == 1);
}

/// A vector of `n` zero bytes.
fn zero_bytes(n: usize) -> (v: Vec<u8>)
    ensures
        v@.len() == n,
        forall|k: int| 0 <= k < n ==> v@[k] == 0,
{
    let mut v: Vec<u8> = Vec::new();
    let mut j: usize = 0;
    while j < n
        invariant
            j <= n,
            v@.len() == j,
            forall|k: int| 0 <= k < j ==> v@[k] == 0,
        decreases n - j,
    {
        v.push(0);
        j = j + 1;
    }
    v
}

} // verus!
