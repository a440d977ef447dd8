//! The interpreter: memory, registers, call stack, framebuffer, keypad and
//! timers, with the fetch / decode / execute cycle.

use vstd::prelude::*;

verus! {

pub const SCREEN_WIDTH: usize = 64;
pub const SCREEN_HEIGHT: usize = 32;
pub const SCREEN_SIZE: usize = 2048;
pub const RAM_SIZE: usize = 4096;
pub const PROGRAM_START: u16 = 0x200;
pub const REGISTERS_COUNT: usize = 16;
pub const STACK_SIZE: usize = 16;
pub const KEYS_COUNT: usize = 16;
pub const FONT_SIZE: usize = 80;

/// The built-in hexadecimal font: five rows per glyph, most significant bit leftmost.
pub open spec fn font() -> Seq<u8> {
    seq![
        0xF0u8, 0x90, 0x90, 0x90, 0xF0, // 0
        0x20, 0x60, 0x20, 0x20, 0x70, // 1
        0xF0, 0x10, 0xF0, 0x80, 0xF0, // 2
        0xF0, 0x10, 0xF0, 0x10, 0xF0, // 3
        0x90, 0x90, 0xF0, 0x10, 0x10, // 4
        0xF0, 0x80, 0xF0, 0x10, 0xF0, // 5
        0xF0, 0x80, 0xF0, 0x90, 0xF0, // 6
        0xF0, 0x10, 0x20, 0x40, 0x40, // 7
        0xF0, 0x90, 0xF0, 0x90, 0xF0, // 8
        0xF0, 0x90, 0xF0, 0x10, 0xF0, // 9
        0xF0, 0x90, 0xF0, 0x90, 0x90, // A
        0xE0, 0x90, 0xE0, 0x90, 0xE0, // B
        0xF0, 0x80, 0x80, 0x80, 0xF0, // C
        0xE0, 0x90, 0x90, 0x90, 0xE0, // D
        0xF0, 0x80, 0xF0, 0x80, 0xF0, // E
        0xF0, 0x80, 0xF0, 0x80, 0x80, // F
    ]
}

fn fontset() -> (r: Vec<u8>)
    ensures
        r@ == font(),
{
    let r = vec![
        0xF0u8, 0x90, 0x90, 0x90, 0xF0,
        0x20, 0x60, 0x20, 0x20, 0x70,
        0xF0, 0x10, 0xF0, 0x80, 0xF0,
        0xF0, 0x10, 0xF0, 0x10, 0xF0,
        0x90, 0x90, 0xF0, 0x10, 0x10,
        0xF0, 0x80, 0xF0, 0x10, 0xF0,
        0xF0, 0x80, 0xF0, 0x90, 0xF0,
        0xF0, 0x10, 0x20, 0x40, 0x40,
        0xF0, 0x90, 0xF0, 0x90, 0xF0,
        0xF0, 0x90, 0xF0, 0x10, 0xF0,
        0xF0, 0x90, 0xF0, 0x90, 0x90,
        0xE0, 0x90, 0xE0, 0x90, 0xE0,
        0xF0, 0x80, 0x80, 0x80, 0xF0,
        0xE0, 0x90, 0x90, 0x90, 0xE0,
        0xF0, 0x80, 0xF0, 0x80, 0xF0,
        0xF0, 0x80, 0xF0, 0x80, 0x80,
    ];
    assert(r@ =~= font());
    r
}

/// Why the interpreter had to stop.
#[derive(Debug, Clone, Copy, PartialEq, Eq, Structural)]
pub enum EmuError {
    /// The program does not fit between the program start and the end of memory.
    RomTooLarge,
    /// A return with no address on the call stack.
    StackUnderflow,
    /// A call with the call stack full.
    StackOverflow,
    /// An instruction fetch or a sprite read past the end of memory.
    AddressOutOfRange,
}

/// What one instruction cycle did, when it did not have to stop.
#[derive(Debug, Clone, Copy, PartialEq, Eq, Structural)]
pub enum Step {
    /// The instruction was carried out.
    Executed,
    /// The word matches no instruction; nothing but the program counter moved.
    Unrecognized(u16),
}

/// The four nibbles of an instruction word, most significant first.
pub open spec fn nib1(op: u16) -> u16 {
    op / 4096
}

pub open spec fn nib2(op: u16) -> u16 {
    (op / 256) % 16
}

pub open spec fn nib3(op: u16) -> u16 {
    (op / 16) % 16
}

pub open spec fn nib4(op: u16) -> u16 {
    op % 16
}

/// The low byte of an instruction word.
pub open spec fn low_byte(op: u16) -> u8 {
    (op as int % 256) as u8
}

/// The low twelve bits of an instruction word: an address.
pub open spec fn address(op: u16) -> u16 {
    (op as int % 4096) as u16
}

/// The big-endian word at `a`.
pub open spec fn word_at(ram: Seq<u8>, a: int) -> u16 {
    (ram[a] as int * 256 + ram[a + 1] as int) as u16
}

/// Whether the word is an instruction of this machine.
pub open spec fn recognized(op: u16) -> bool {
    let n4 = nib4(op);
    match nib1(op) {
        0 => op == 0 || op == 0x00E0 || op == 0x00EE,
        5 | 9 => n4 == 0,
        8 => n4 <= 7 || n4 == 0xE,
        0xB | 0xE | 0xF => false,
        _ => true,
    }
}

/// A framebuffer with every cell off.
pub open spec fn blank_screen() -> Seq<bool> {
    Seq::new(SCREEN_SIZE as nat, |k: int| false)
}

/// Column `c` of a sprite row, counted from the most significant bit.
pub open spec fn pixel_bit(b: u8, c: int) -> bool {
    (b >> ((7 - c) as u8)) & 1u8 == 1u8
}

/// Whether a sprite of `n` rows read from `ram` at `i`, drawn with its top-left
/// corner at `(vx, vy)`, has a set pixel on cell `k` of the framebuffer.
/// Pixels that fall right of or below the screen cover no cell.
pub open spec fn sprite_covers(ram: Seq<u8>, i: int, vx: int, vy: int, n: int, k: int) -> bool {
    let x = k % (SCREEN_WIDTH as int);
    let y = k / (SCREEN_WIDTH as int);
    &&& vx <= x < vx + 8
    &&& vy <= y < vy + n
    &&& pixel_bit(ram[i + (y - vy)], x - vx)
}

/// The state after `DXYN`: each covered cell flips, and VF tells whether a
/// cell that was on got covered.
pub open spec fn drawn(s: EmuView, x: int, y: int, n: int) -> EmuView {
    let vx = s.v[x] as int;
    let vy = s.v[y] as int;
    let i = s.i as int;
    let collided = exists|k: int|
        0 <= k < SCREEN_SIZE && s.screen[k] && #[trigger] sprite_covers(s.ram, i, vx, vy, n, k);
    EmuView {
        screen: Seq::new(
            SCREEN_SIZE as nat,
            |k: int| s.screen[k] != sprite_covers(s.ram, i, vx, vy, n, k),
        ),
        v: s.v.update(15, if collided { 1u8 } else { 0u8 }),
        ..s
    }
}

/// Advances the program counter past the next instruction when `c` holds.
pub open spec fn skip_if(s: EmuView, c: bool) -> EmuView {
    if c {
        EmuView { pc: (s.pc + 2) as u16, ..s }
    } else {
        s
    }
}

/// Sets register `x` to `val`.
pub open spec fn set_reg(s: EmuView, x: int, val: u8) -> EmuView {
    EmuView { v: s.v.update(x, val), ..s }
}

/// The register operations `8XYn`. Those that set a flag write VF first and
/// V[X] after it, reading the registers as VF left them; `8XY4` writes its
/// carry last.
pub open spec fn alu(s: EmuView, op: u16) -> EmuView {
    let x = nib2(op) as int;
    let y = nib3(op) as int;
    let a = s.v[x];
    let b = s.v[y];
    match nib4(op) {
        0 => set_reg(s, x, b),
        1 => set_reg(s, x, a | b),
        2 => set_reg(s, x, a & b),
        3 => set_reg(s, x, a ^ b),
        4 => set_reg(
            set_reg(s, x, ((a + b) % 256) as u8),
            15,
            if a + b > 255 { 1u8 } else { 0u8 },
        ),
        5 => {
            let t = set_reg(s, 15, if a > b { 1u8 } else { 0u8 });
            set_reg(t, x, ((t.v[x] - t.v[y]) % 256) as u8)
        },
        6 => {
            let t = set_reg(s, 15, a % 2);
            set_reg(t, x, t.v[x] / 2)
        },
        7 => {
            let t = set_reg(s, 15, if b > a { 1u8 } else { 0u8 });
            set_reg(t, x, ((t.v[y] - t.v[x]) % 256) as u8)
        },
        _ => {
            let t = set_reg(s, 15, a / 128);
            set_reg(t, x, ((t.v[x] * 2) % 256) as u8)
        },
    }
}

/// Carries out `op` on a state whose program counter has already moved past
/// it. `rnd` is the random byte that `CXNN` masks. A word that is no
/// instruction leaves the state as it is.
pub open spec fn step(s: EmuView, op: u16, rnd: u8) -> Result<EmuView, EmuError> {
    let x = nib2(op) as int;
    let y = nib3(op) as int;
    let n = nib4(op) as int;
    let nn = low_byte(op);
    let nnn = address(op);
    if !recognized(op) {
        Ok(s)
    } else {
        match nib1(op) {
            0 => if op == 0x00E0 {
                Ok(EmuView { screen: blank_screen(), ..s })
            } else if op == 0x00EE {
                if s.sp == 0 {
                    Err(EmuError::StackUnderflow)
                } else {
                    Ok(EmuView { sp: (s.sp - 1) as u16, pc: s.stack[s.sp - 1], ..s })
                }
            } else {
                Ok(s)
            },
            1 => Ok(EmuView { pc: nnn, ..s }),
            2 => if s.sp >= STACK_SIZE {
                Err(EmuError::StackOverflow)
            } else {
                Ok(EmuView { stack: s.stack.update(s.sp as int, s.pc), sp: (s.sp + 1) as u16, pc: nnn, ..s })
            },
            3 => Ok(skip_if(s, s.v[x] == nn)),
            4 => Ok(skip_if(s, s.v[x] != nn)),
            5 => Ok(skip_if(s, s.v[x] == s.v[y])),
            6 => Ok(set_reg(s, x, nn)),
            7 => Ok(set_reg(s, x, ((s.v[x] + nn) % 256) as u8)),
            8 => Ok(alu(s, op)),
            9 => Ok(skip_if(s, s.v[x] != s.v[y])),
            0xA => Ok(EmuView { i: nnn, ..s }),
            0xC => Ok(set_reg(s, x, rnd & nn)),
            _ => if s.i + n > RAM_SIZE {
                Err(EmuError::AddressOutOfRange)
            } else {
                Ok(drawn(s, x, y, n))
            },
        }
    }
}

/// `r` and `t` are what executing `op` on `s` returns and leaves: on success the
/// state `step` gives, on a fatal error that error and `s` untouched.
pub open spec fn executes(s: EmuView, op: u16, rnd: u8, r: Result<Step, EmuError>, t: EmuView) -> bool {
    match step(s, op, rnd) {
        Ok(u) => t == u && r == Ok::<Step, EmuError>(
            if recognized(op) { Step::Executed } else { Step::Unrecognized(op) },
        ),
        Err(e) => t == s && r == Err::<Step, EmuError>(e),
    }
}

/// The cells of a sprite that the draw loop has reached: every row before
/// `r`, and the columns before `c` of row `r`.
spec fn covered_before(ram: Seq<u8>, i: int, vx: int, vy: int, n: int, k: int, r: int, c: int) -> bool {
    let row = k / (SCREEN_WIDTH as int) - vy;
    let col = k % (SCREEN_WIDTH as int) - vx;
    sprite_covers(ram, i, vx, vy, n, k) && (row < r || (row == r && col < c))
}

proof fn lemma_cell(x: int, y: int)
    requires
        0 <= x < SCREEN_WIDTH,
        0 <= y,
    ensures
        (y * SCREEN_WIDTH + x) / (SCREEN_WIDTH as int) == y,
        (y * SCREEN_WIDTH + x) % (SCREEN_WIDTH as int) == x,
{
    vstd::arithmetic::div_mod::lemma_fundamental_div_mod_converse(
        y * SCREEN_WIDTH + x,
        SCREEN_WIDTH as int,
        y,
        x,
    );
}

/// The state once PC has moved past the instruction at PC.
pub open spec fn fetched(s: EmuView) -> EmuView {
    EmuView { pc: (s.pc + 2) as u16, ..s }
}

/// Memory with `data` copied in at the program start.
pub open spec fn loaded(ram: Seq<u8>, data: Seq<u8>) -> Seq<u8> {
    ram.take(PROGRAM_START as int) + data + ram.skip(PROGRAM_START + data.len())
}

/// A timer after one 60 Hz tick.
pub open spec fn count_down(t: u8) -> u8 {
    if t > 0 { (t - 1) as u8 } else { 0 }
}

/// Relies on `rand::random::<u8>`, drawn from the thread-local generator: any
/// byte may come back, so nothing is stated of it.
#[verifier::external_body]
fn random_byte() -> (r: u8) {
    rand::random::<u8>()
}

/// What Verus sees of an interpreter: its whole state as plain values.
pub struct EmuView {
    pub pc: u16,
    pub ram: Seq<u8>,
    pub screen: Seq<bool>,
    pub v: Seq<u8>,
    pub i: u16,
    pub sp: u16,
    pub stack: Seq<u16>,
    pub keys: Seq<bool>,
    pub delay_timer: u8,
    pub sound_timer: u8,
}

/// Memory as it stands after power-on: the font at offset 0, zeros elsewhere.
pub open spec fn initial_ram() -> Seq<u8> {
    Seq::new(RAM_SIZE as nat, |a: int| if a < FONT_SIZE { font()[a] } else { 0u8 })
}

/// A CHIP-8 machine: 4096 bytes of memory, sixteen 8-bit registers V0 to VF,
/// the index register I, the program counter, a sixteen-deep call stack, a
/// 64 by 32 framebuffer, the hex keypad and the delay and sound timers.
pub struct Emu {
    pc: u16,
    ram: Vec<u8>,
    screen: Vec<bool>,
    v_reg: Vec<u8>,
    i_reg: u16,
    sp: u16,
    stack: Vec<u16>,
    keys: Vec<bool>,
    delay_timer: u8,
    sound_timer: u8,
}

impl View for Emu {
    type V = EmuView;

    closed spec fn view(&self) -> EmuView {
        EmuView {
            pc: self.pc,
            ram: self.ram@,
            screen: self.screen@,
            v: self.v_reg@,
            i: self.i_reg,
            sp: self.sp,
            stack: self.stack@,
            keys: self.keys@,
            delay_timer: self.delay_timer,
            sound_timer: self.sound_timer,
        }
    }
}

impl EmuView {
    /// Every buffer has its fixed size and the stack pointer is within the stack.
    pub open spec fn wf(self) -> bool {
        &&& self.ram.len() == RAM_SIZE
        &&& self.screen.len() == SCREEN_SIZE
        &&& self.v.len() == REGISTERS_COUNT
        &&& self.stack.len() == STACK_SIZE
        &&& self.keys.len() == KEYS_COUNT
        &&& self.sp <= STACK_SIZE
    }
}

impl Emu {
    /// The buffers have their fixed sizes and the stack pointer is in range.
    pub open spec fn wf(&self) -> bool {
        self@.wf()
    }

    /// A powered-on machine: the font in memory, everything else zero, PC at
    /// the program start.
    pub fn new() -> (r: Emu)
        ensures
            r.wf(),
            r@.ram == initial_ram(),
            r@.pc == PROGRAM_START,
            r@.i == 0,
            r@.sp == 0,
            r@.screen == Seq::new(SCREEN_SIZE as nat, |k: int| false),
            r@.v == Seq::new(REGISTERS_COUNT as nat, |k: int| 0u8),
            r@.stack == Seq::new(STACK_SIZE as nat, |k: int| 0u16),
            r@.keys == Seq::new(KEYS_COUNT as nat, |k: int| false),
            r@.delay_timer == 0,
            r@.sound_timer == 0,
    {
        let glyphs = fontset();
        let mut ram: Vec<u8> = Vec::new();
        let mut a: usize = 0;
        while a < RAM_SIZE
            invariant
                a <= RAM_SIZE,
                glyphs@ == font(),
                ram@ =~= initial_ram().take(a as int),
            decreases RAM_SIZE - a,
        {
            if a < FONT_SIZE {
                ram.push(glyphs[a]);
            } else {
                ram.push(0u8);
            }
            a += 1;
        }
        assert(ram@ =~= initial_ram());
        let r = Emu {
            pc: PROGRAM_START,
            ram,
            screen: vec![false; SCREEN_SIZE],
            v_reg: vec![0u8; REGISTERS_COUNT],
            i_reg: 0,
            sp: 0,
            stack: vec![0u16; STACK_SIZE],
            keys: vec![false; KEYS_COUNT],
            delay_timer: 0,
            sound_timer: 0,
        };
        assert(r@.screen =~= Seq::new(SCREEN_SIZE as nat, |k: int| false));
        assert(r@.v =~= Seq::new(REGISTERS_COUNT as nat, |k: int| 0u8));
        assert(r@.stack =~= Seq::new(STACK_SIZE as nat, |k: int| 0u16));
        assert(r@.keys =~= Seq::new(KEYS_COUNT as nat, |k: int| false));
        r
    }

    /// Copies a program into memory at the program start. A program that
    /// does not fit below the end of memory is refused and nothing changes.
    pub fn load_rom(&mut self, data: &[u8]) -> (r: Result<(), EmuError>)
        requires
            old(self).wf(),
        ensures
            final(self).wf(),
            PROGRAM_START + data@.len() > RAM_SIZE ==> r == Err::<(), EmuError>(EmuError::RomTooLarge)
                && final(self)@ == old(self)@,
            PROGRAM_START + data@.len() <= RAM_SIZE ==> r == Ok::<(), EmuError>(())
                && final(self)@ == (EmuView { ram: loaded(old(self)@.ram, data@), ..old(self)@ }),
    {
        let start = PROGRAM_START as usize;
        if data.len() > RAM_SIZE - start {
            return Err(EmuError::RomTooLarge);
        }
        let ghost s = self@;
        let mut j: usize = 0;
        while j < data.len()
            invariant
                self.wf(),
                s.wf(),
                start == PROGRAM_START,
                j <= data@.len(),
                start + data@.len() <= RAM_SIZE,
                self@ == (EmuView { ram: self@.ram, ..s }),
                self@.ram =~= s.ram.take(start as int) + data@.take(j as int) + s.ram.skip(start + j),
            decreases data@.len() - j,
        {
            self.ram.set(start + j, data[j]);
            j += 1;
        }
        assert(data@.take(data@.len() as int) =~= data@);
        Ok(())
    }

    /// One instruction cycle: fetches the word at PC and carries it out. A
    /// `CXNN` draws its random byte from the thread-local generator.
    pub fn tick(&mut self) -> (r: Result<Step, EmuError>)
        requires
            old(self).wf(),
        ensures
            final(self).wf(),
            old(self)@.pc + 1 >= RAM_SIZE ==> r == Err::<Step, EmuError>(EmuError::AddressOutOfRange)
                && final(self)@ == old(self)@,
            old(self)@.pc + 1 < RAM_SIZE ==> exists|rnd: u8|
                executes(fetched(old(self)@), word_at(old(self)@.ram, old(self)@.pc as int), rnd, r, final(self)@),
    {
        let op = match self.fetch() {
            Ok(op) => op,
            Err(e) => return Err(e),
        };
        let rnd = if op / 4096 == 0xC { random_byte() } else { 0 };
        let r = self.execute(op, rnd);
        assert(executes(fetched(old(self)@), op, rnd, r, self@));
        r
    }

    /// One 60 Hz timer tick: each timer above zero goes down by one.
    pub fn tick_timers(&mut self)
        requires
            old(self).wf(),
        ensures
            final(self).wf(),
            final(self)@ == (EmuView {
                delay_timer: count_down(old(self)@.delay_timer),
                sound_timer: count_down(old(self)@.sound_timer),
                ..old(self)@
            }),
    {
        if self.delay_timer > 0 {
            self.delay_timer -= 1;
        }
        if self.sound_timer > 0 {
            self.sound_timer -= 1;
        }
    }

    /// Records that key `k` of the hex pad is pressed or released.
    pub fn keypress(&mut self, k: usize, pressed: bool)
        requires
            old(self).wf(),
            k < KEYS_COUNT,
        ensures
            final(self).wf(),
            final(self)@ == (EmuView { keys: old(self)@.keys.update(k as int, pressed), ..old(self)@ }),
    {
        self.keys.set(k, pressed);
    }

    /// The sound timer: a tone plays while it is above zero.
    pub fn get_sound_timer(&self) -> (r: u8)
        ensures
            r == self@.sound_timer,
    {
        self.sound_timer
    }

    /// The delay timer.
    pub fn get_delay_timer(&self) -> (r: u8)
        ensures
            r == self@.delay_timer,
    {
        self.delay_timer
    }

    /// Register `V[x]`.
    pub fn get_register(&self, x: usize) -> (r: u8)
        requires
            self.wf(),
            x < REGISTERS_COUNT,
        ensures
            r == self@.v[x as int],
    {
        self.v_reg[x]
    }

    /// The program counter.
    pub fn get_pc(&self) -> (r: u16)
        ensures
            r == self@.pc,
    {
        self.pc
    }

    /// The index register I.
    pub fn get_index(&self) -> (r: u16)
        ensures
            r == self@.i,
    {
        self.i_reg
    }

    /// The number of return addresses on the call stack.
    pub fn get_sp(&self) -> (r: u16)
        ensures
            r == self@.sp,
    {
        self.sp
    }

    /// Whether key `k` of the hex pad is held down.
    pub fn is_key_pressed(&self, k: usize) -> (r: bool)
        requires
            self.wf(),
            k < KEYS_COUNT,
        ensures
            r == self@.keys[k as int],
    {
        self.keys[k]
    }

    /// Reads the big-endian instruction word at PC and moves PC past it.
    pub fn fetch(&mut self) -> (r: Result<u16, EmuError>)
        requires
            old(self).wf(),
        ensures
            final(self).wf(),
            old(self)@.pc + 1 >= RAM_SIZE ==> r == Err::<u16, EmuError>(EmuError::AddressOutOfRange)
                && final(self)@ == old(self)@,
            old(self)@.pc + 1 < RAM_SIZE ==> r == Ok::<u16, EmuError>(word_at(old(self)@.ram, old(self)@.pc as int))
                && final(self)@ == (EmuView { pc: (old(self)@.pc + 2) as u16, ..old(self)@ }),
    {
        if self.pc as usize + 1 >= RAM_SIZE {
            return Err(EmuError::AddressOutOfRange);
        }
        let high_byte = self.ram[self.pc as usize] as u16;
        let low_byte = self.ram[(self.pc + 1) as usize] as u16;
        self.pc += 2;
        Ok(high_byte * 256 + low_byte)
    }

    /// Skips the next instruction when `c` holds.
    fn skip_when(&mut self, c: bool)
        requires
            old(self).wf(),
            old(self)@.pc <= 0xFFFD,
        ensures
            final(self).wf(),
            final(self)@ == skip_if(old(self)@, c),
    {
        if c {
            self.pc += 2;
        }
    }

    /// Carries out the instruction `op`, with `rnd` as the random byte that
    /// `CXNN` masks. PC must already have moved past `op`, so that it still
    /// has room for a skip in 16 bits, as it always has after a fetch. A
    /// word that is no instruction is reported and changes nothing; a fatal
    /// error changes nothing either.
    pub fn execute(&mut self, op: u16, rnd: u8) -> (r: Result<Step, EmuError>)
        requires
            old(self).wf(),
            old(self)@.pc <= 0xFFFD,
        ensures
            final(self).wf(),
            executes(old(self)@, op, rnd, r, final(self)@),
    {
        let ghost s = self@;
        let digit1 = op / 4096;
        let digit2 = (op / 256) % 16;
        let digit3 = (op / 16) % 16;
        let digit4 = op % 16;
        let x = digit2 as usize;
        let y = digit3 as usize;
        let nn = (op % 256) as u8;
        let nnn = op % 4096;
        if digit1 == 0 {
            if op == 0x0000 {
            } else if op == 0x00E0 {
                self.screen = vec![false; SCREEN_SIZE];
                assert(self@.screen =~= blank_screen());
            } else if op == 0x00EE {
                if self.sp == 0 {
                    return Err(EmuError::StackUnderflow);
                }
                self.sp -= 1;
                self.pc = self.stack[self.sp as usize];
            } else {
                return Ok(Step::Unrecognized(op));
            }
        } else if digit1 == 1 {
            self.pc = nnn;
        } else if digit1 == 2 {
            if self.sp as usize >= STACK_SIZE {
                return Err(EmuError::StackOverflow);
            }
            self.stack.set(self.sp as usize, self.pc);
            self.sp += 1;
            self.pc = nnn;
        } else if digit1 == 3 {
            let c = self.v_reg[x] == nn;
            self.skip_when(c);
        } else if digit1 == 4 {
            let c = self.v_reg[x] != nn;
            self.skip_when(c);
        } else if digit1 == 5 {
            if digit4 != 0 {
                return Ok(Step::Unrecognized(op));
            }
            let c = self.v_reg[x] == self.v_reg[y];
            self.skip_when(c);
        } else if digit1 == 6 {
            self.v_reg.set(x, nn);
        } else if digit1 == 7 {
            let sum = self.v_reg[x].wrapping_add(nn);
            self.v_reg.set(x, sum);
        } else if digit1 == 8 {
            if digit4 > 7 && digit4 != 0xE {
                return Ok(Step::Unrecognized(op));
            }
            self.alu(op);
        } else if digit1 == 9 {
            if digit4 != 0 {
                return Ok(Step::Unrecognized(op));
            }
            let c = self.v_reg[x] != self.v_reg[y];
            self.skip_when(c);
        } else if digit1 == 0xA {
            self.i_reg = nnn;
        } else if digit1 == 0xC {
            self.v_reg.set(x, rnd & nn);
        } else if digit1 == 0xD {
            if self.i_reg as usize + digit4 as usize > RAM_SIZE {
                return Err(EmuError::AddressOutOfRange);
            }
            self.draw(x, y, digit4);
        } else {
            return Ok(Step::Unrecognized(op));
        }
        assert(self@.v =~= step(s, op, rnd).unwrap().v);
        assert(self@.stack =~= step(s, op, rnd).unwrap().stack);
        Ok(Step::Executed)
    }

    /// The register operations `8XYn`.
    #[verifier::rlimit(30)]
    fn alu(&mut self, op: u16)
        requires
            old(self).wf(),
            op / 4096 == 8,
            op % 16 <= 7 || op % 16 == 0xE,
        ensures
            final(self).wf(),
            final(self)@ == alu(old(self)@, op),
    {
        let ghost s = self@;
        let x = ((op / 256) % 16) as usize;
        let y = ((op / 16) % 16) as usize;
        let digit4 = op % 16;
        let a = self.v_reg[x];
        let b = self.v_reg[y];
        if digit4 == 0 {
            self.v_reg.set(x, b);
            assert(self@.v =~= alu(s, op).v);
        } else if digit4 == 1 {
            self.v_reg.set(x, a | b);
            assert(self@.v =~= alu(s, op).v);
        } else if digit4 == 2 {
            self.v_reg.set(x, a & b);
            assert(self@.v =~= alu(s, op).v);
        } else if digit4 == 3 {
            self.v_reg.set(x, a ^ b);
            assert(self@.v =~= alu(s, op).v);
        } else if digit4 == 4 {
            let carry = a as u16 + b as u16 > 255;
            self.v_reg.set(x, a.wrapping_add(b));
            self.v_reg.set(15, if carry { 1 } else { 0 });
            assert(self@.v =~= alu(s, op).v);
        } else if digit4 == 5 {
            self.v_reg.set(15, if a > b { 1 } else { 0 });
            let diff = self.v_reg[x].wrapping_sub(self.v_reg[y]);
            self.v_reg.set(x, diff);
            assert(self@.v =~= alu(s, op).v);
        } else if digit4 == 6 {
            self.v_reg.set(15, a & 1);
            let c = self.v_reg[x];
            let shifted = c >> 1;
            assert(a & 1 == a % 2 && c >> 1 == c / 2) by (bit_vector);
            self.v_reg.set(x, shifted);
            assert(self@.v =~= alu(s, op).v);
        } else if digit4 == 7 {
            self.v_reg.set(15, if b > a { 1 } else { 0 });
            let diff = self.v_reg[y].wrapping_sub(self.v_reg[x]);
            self.v_reg.set(x, diff);
            assert(self@.v =~= alu(s, op).v);
        } else {
            self.v_reg.set(15, (a >> 7) & 1);
            let c = self.v_reg[x];
            let shifted = c << 1u8;
            assert((a >> 7) & 1 == a / 128 && c << 1u8 == ((c as u16 * 2) % 256) as u8) by (bit_vector);
            self.v_reg.set(x, shifted);
            assert(self@.v =~= alu(s, op).v);
        }
    }

    /// `DXYN`: XORs an `n`-row sprite read at I onto the framebuffer at
    /// `(V[x], V[y])`, clipping at the right and bottom edges; VF becomes 1
    /// when a cell that was on is turned off, else 0.
    fn draw(&mut self, x: usize, y: usize, n: u16)
        requires
            old(self).wf(),
            x < REGISTERS_COUNT,
            y < REGISTERS_COUNT,
            n < 16,
            old(self)@.i + n <= RAM_SIZE,
        ensures
            final(self).wf(),
            final(self)@ == drawn(old(self)@, x as int, y as int, n as int),
    {
        let ghost s = self@;
        let x_coord: u16 = self.v_reg[x] as u16;
        let y_coord: u16 = self.v_reg[y] as u16;
        let ghost vx = x_coord as int;
        let ghost vy = y_coord as int;
        let ghost i = s.i as int;
        let mut collided = false;
        let mut row: u16 = 0;
        while row < n
            invariant
                self.wf(),
                row <= n,
                n < 16,
                s.wf(),
                x < REGISTERS_COUNT,
                y < REGISTERS_COUNT,
                i + n <= RAM_SIZE,
                self@ == (EmuView { screen: self@.screen, ..s }),
                vx == s.v[x as int],
                vy == s.v[y as int],
                i == s.i,
                x_coord == vx,
                y_coord == vy,
                forall|k: int| 0 <= k < SCREEN_SIZE ==>
                    self@.screen[k] == (s.screen[k] != covered_before(s.ram, i, vx, vy, n as int, k, row as int, 0)),
                collided == exists|k: int| 0 <= k < SCREEN_SIZE && s.screen[k]
                    && #[trigger] covered_before(s.ram, i, vx, vy, n as int, k, row as int, 0),
            decreases n - row,
        {
            let sprite_byte = self.ram[(self.i_reg + row) as usize];
            let mut col: u8 = 0;
            while col < 8
                invariant
                    self.wf(),
                    row < n,
                    n < 16,
                    col <= 8,
                    s.wf(),
                    x < REGISTERS_COUNT,
                    y < REGISTERS_COUNT,
                    i + n <= RAM_SIZE,
                    self@ == (EmuView { screen: self@.screen, ..s }),
                    vx == s.v[x as int],
                    vy == s.v[y as int],
                    i == s.i,
                    x_coord == vx,
                    y_coord == vy,
                    sprite_byte == s.ram[i + row],
                    forall|k: int| 0 <= k < SCREEN_SIZE ==>
                        self@.screen[k] == (s.screen[k] != covered_before(s.ram, i, vx, vy, n as int, k, row as int, col as int)),
                    collided == exists|k: int| 0 <= k < SCREEN_SIZE && s.screen[k]
                        && #[trigger] covered_before(s.ram, i, vx, vy, n as int, k, row as int, col as int),
                decreases 8 - col,
            {
                let bit = (sprite_byte >> (7 - col)) & 1;
                let draw_x = (x_coord + col as u16) as usize;
                let draw_y = (y_coord + row) as usize;
                let ghost before = self@.screen;
                let ghost was = collided;
                if bit == 1 && draw_x < SCREEN_WIDTH && draw_y < SCREEN_HEIGHT {
                    let idx = draw_y * SCREEN_WIDTH + draw_x;
                    proof {
                        lemma_cell(draw_x as int, draw_y as int);
                    }
                    if self.screen[idx] {
                        collided = true;
                    }
                    let cell = self.screen[idx];
                    self.screen.set(idx, !cell);
                    assert forall|k: int| 0 <= k < SCREEN_SIZE implies
                        #[trigger] covered_before(s.ram, i, vx, vy, n as int, k, row as int, col + 1)
                            == (covered_before(s.ram, i, vx, vy, n as int, k, row as int, col as int) || k == idx) by {
                        if k == idx {
                            assert(pixel_bit(sprite_byte, col as int));
                        }
                    }
                    assert(self@.screen[idx as int] == (s.screen[idx as int] != covered_before(s.ram, i, vx, vy, n as int, idx as int, row as int, col + 1)));
                    proof {
                        if was {
                            let k0 = choose|k: int| 0 <= k < SCREEN_SIZE && s.screen[k]
                                && #[trigger] covered_before(s.ram, i, vx, vy, n as int, k, row as int, col as int);
                            assert(covered_before(s.ram, i, vx, vy, n as int, k0, row as int, col + 1));
                        } else if collided {
                            assert(s.screen[idx as int] && covered_before(s.ram, i, vx, vy, n as int, idx as int, row as int, col + 1));
                        }
                    }
                } else {
                    assert forall|k: int| 0 <= k < SCREEN_SIZE implies
                        #[trigger] covered_before(s.ram, i, vx, vy, n as int, k, row as int, col + 1)
                            == covered_before(s.ram, i, vx, vy, n as int, k, row as int, col as int) by {
                        if k / (SCREEN_WIDTH as int) - vy == row && k % (SCREEN_WIDTH as int) - vx == col
                            && sprite_covers(s.ram, i, vx, vy, n as int, k) {
                            assert(pixel_bit(sprite_byte, col as int));
                        }
                    }
                    proof {
                        if was {
                            let k0 = choose|k: int| 0 <= k < SCREEN_SIZE && s.screen[k]
                                && #[trigger] covered_before(s.ram, i, vx, vy, n as int, k, row as int, col as int);
                            assert(covered_before(s.ram, i, vx, vy, n as int, k0, row as int, col + 1));
                        }
                    }
                }
                col += 1;
            }
            assert forall|k: int| 0 <= k < SCREEN_SIZE implies
                #[trigger] covered_before(s.ram, i, vx, vy, n as int, k, row + 1, 0)
                    == covered_before(s.ram, i, vx, vy, n as int, k, row as int, 8) by {}
            proof {
                if collided {
                    let k0 = choose|k: int| 0 <= k < SCREEN_SIZE && s.screen[k]
                        && #[trigger] covered_before(s.ram, i, vx, vy, n as int, k, row as int, 8);
                    assert(covered_before(s.ram, i, vx, vy, n as int, k0, row + 1, 0));
                }
            }
            row += 1;
        }
        assert forall|k: int| 0 <= k < SCREEN_SIZE implies
            #[trigger] sprite_covers(s.ram, i, vx, vy, n as int, k)
                == covered_before(s.ram, i, vx, vy, n as int, k, n as int, 0) by {}
        proof {
            if collided {
                let k0 = choose|k: int| 0 <= k < SCREEN_SIZE && s.screen[k]
                    && #[trigger] covered_before(s.ram, i, vx, vy, n as int, k, n as int, 0);
                assert(sprite_covers(s.ram, i, vx, vy, n as int, k0));
            }
        }
        let flag: u8 = if collided { 1 } else { 0 };
        self.v_reg.set(15, flag);
        assert(self@.screen =~= drawn(s, x as int, y as int, n as int).screen);
        assert(self@.v =~= drawn(s, x as int, y as int, n as int).v);
    }

    /// The framebuffer, row-major: cell `(x, y)` is at `y * 64 + x`.
    pub fn get_display(&self) -> (r: &[bool])
        ensures
            r@ == self@.screen,
    {
        self.screen.as_slice()
    }
}

} // verus!
