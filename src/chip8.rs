use vstd::prelude::*;

use vstd::arithmetic::div_mod::{lemma_fundamental_div_mod, lemma_fundamental_div_mod_converse};
use vstd::arithmetic::mul::lemma_mul_unary_negation;

use crate::decode::{decode, operands_in_range, Chip8Error, Operation};
use crate::model::{
    cell_x, cell_y, clock_draws_random, clock_spec, draw_sprite, execute_spec, execute_word,
    fetch_spec, first_pressed, follows, font, height_of, initial_state, loaded, needs_random,
    scrolled_down, scrolled_left, scrolled_right, skip_if, sprite_height, sprite_hits,
    sprite_offset, sprite_pixel, sprite_width, tick_spec, width_of, MachineState, FONTSET_SIZE,
    MEMORY_SIZE, NUM_KEYS, PROGRAM_OFFSET, SCREEN_CELLS, SCREEN_HEIGHT, SCREEN_WIDTH, STACK_SIZE,
};
use crate::quirks::{chip8_profile, Quirks};

verus! {

/// A CHIP-8 machine: registers, memory, stack, timers, screen and keypad.
pub struct Chip8 {
    memory: [u8; 4096],
    v: [u8; 16],
    rpl: [u8; 16],
    index: u16,
    pc: u16,
    sp: u16,
    stack: [u16; 16],
    delay: u8,
    sound: u8,
    screen: [bool; 8192],
    keys: [bool; 16],
    hires: bool,
    v_blank_wait: bool,
    /// The active compatibility profile; it applies from the next instruction on.
    pub quirks: Quirks,
}

impl View for Chip8 {
    type V = MachineState;

    closed spec fn view(&self) -> MachineState {
        MachineState {
            memory: self.memory@,
            v: self.v@,
            rpl: self.rpl@,
            index: self.index,
            pc: self.pc,
            sp: self.sp,
            stack: self.stack@,
            delay: self.delay,
            sound: self.sound,
            screen: self.screen@,
            keys: self.keys@,
            hires: self.hires,
            v_blank_wait: self.v_blank_wait,
            quirks: self.quirks,
        }
    }
}

/// The built-in font as an array.
fn fontset() -> (r: [u8; 80])
    ensures
        r@ == font(),
{
    [
        0xF0, 0x90, 0x90, 0x90, 0xF0,
        0x20, 0x60, 0x20, 0x20, 0x70,
        0xF0, 0x10, 0xF0, 0x80, 0xF0,
        0xF0, 0x10, 0xF0, 0x10, 0xF0,
        0x90, 0x90, 0xF0, 0x10, 0x10,
        0xF0, 0x80, 0xF0, 0x10, 0xF0,
        0xF0, 0x80, 0xF0, 0x90, 0xF0,
        0xF0, 0x10, 0x20, 0x40, 0x40,
        0xF0, 0x90, 0xF0, 0x90, 0xF0,
        0xF0, 0x90, 0xF0, 0x10, 0xF0,
        0xF0, 0x90, 0xF0, 0x90, 0x90,
        0xE0, 0x90, 0xE0, 0x90, 0xE0,
        0xF0, 0x80, 0x80, 0x80, 0xF0,
        0xE0, 0x90, 0x90, 0x90, 0xE0,
        0xF0, 0x80, 0xF0, 0x80, 0xF0,
        0xF0, 0x80, 0xF0, 0x80, 0x80,
    ]
}

/// Cell `i` is hit by a sprite pixel that comes before pixel (`r`, `c`) in
/// drawing order (row by row, left to right).
spec fn hit_before(
    s: MachineState,
    x0: int,
    y0: int,
    rows: int,
    wide: bool,
    i: int,
    r: int,
    c: int,
) -> bool {
    let (row, col) = sprite_offset(s.hires, x0, y0, i);
    sprite_hits(s, x0, y0, rows, wide, i) && (row < r || (row == r && col < c))
}

/// Offset `d` from `a` lands on `p`, modulo `w`, exactly when `p == (a + d) % w`.
proof fn lemma_wrap(a: int, d: int, w: int, p: int)
    requires
        0 <= d < w,
        0 <= p < w,
    ensures
        ((p - a) % w == d) <==> (p == (a + d) % w),
{
    lemma_fundamental_div_mod(a + d, w);
    lemma_fundamental_div_mod(p - a, w);
    let q1 = (a + d) / w;
    let q2 = (p - a) / w;
    lemma_mul_unary_negation(q1, w);
    lemma_mul_unary_negation(q2, w);
    assert(w * q1 == q1 * w && w * q2 == q2 * w) by (nonlinear_arith);
    if p == (a + d) % w {
        lemma_fundamental_div_mod_converse(p - a, w, -q1, d);
    }
    if (p - a) % w == d {
        lemma_fundamental_div_mod_converse(a + d, w, -q2, p);
    }
}

/// A screen cell is determined by its column and row.
proof fn lemma_cell(i: int, x: int, y: int)
    requires
        0 <= i < SCREEN_CELLS,
        0 <= x < 128,
        0 <= y < 64,
    ensures
        (i == y * 128 + x) <==> (cell_x(i) == x && cell_y(i) == y),
        0 <= y * 128 + x < SCREEN_CELLS,
{
}

/// Drawing pixel (`r`, `c`) toggles exactly cell `k`, and only when the pixel is
/// set and not clipped.
proof fn lemma_draw_step(
    s: MachineState,
    x0: int,
    y0: int,
    rows: int,
    wide: bool,
    r: int,
    c: int,
    k: int,
    source: bool,
)
    requires
        0 <= x0 < 256,
        0 <= y0 < 256,
        0 <= rows <= 16,
        0 <= r < sprite_height(rows, wide),
        0 <= c < sprite_width(wide),
        k == ((y0 + r) % height_of(s.hires)) * 128 + (x0 + c) % width_of(s.hires),
        source == (sprite_pixel(s.memory, s.index as int, wide, r, c) && !(s.quirks.clip_quirks
            && (x0 % width_of(s.hires) + c >= width_of(s.hires) || y0 % height_of(s.hires) + r
            >= height_of(s.hires)))),
    ensures
        0 <= k < SCREEN_CELLS,
        !hit_before(s, x0, y0, rows, wide, k, r, c),
        forall|i: int|
            #[trigger] hit_before(s, x0, y0, rows, wide, i, r, c + 1) == (hit_before(
                s,
                x0,
                y0,
                rows,
                wide,
                i,
                r,
                c,
            ) || (i == k && source)),
{
    let w = width_of(s.hires);
    let h = height_of(s.hires);
    let x = (x0 + c) % w;
    let y = (y0 + r) % h;
    lemma_cell(0, x, y);
    lemma_cell(k, x, y);
    lemma_wrap(x0, c, w, x);
    lemma_wrap(y0, r, h, y);
    assert(sprite_offset(s.hires, x0, y0, k) == (r, c));
    assert(sprite_hits(s, x0, y0, rows, wide, k) == source);
    assert forall|i: int|
        #[trigger] hit_before(s, x0, y0, rows, wide, i, r, c + 1) == (hit_before(
            s,
            x0,
            y0,
            rows,
            wide,
            i,
            r,
            c,
        ) || (i == k && source)) by {
        if i != k && sprite_hits(s, x0, y0, rows, wide, i) {
            lemma_cell(i, x, y);
            lemma_wrap(x0, c, w, cell_x(i));
            lemma_wrap(y0, r, h, cell_y(i));
        }
    }
}

/// Relies on `rand::random::<u8>` (rand 0.8): a byte drawn from the
/// thread-local generator, which panics only if the operating system cannot
/// seed it. Nothing is promised about the value beyond its type.
#[verifier::external_body]
fn random_byte() -> u8 {
    rand::random::<u8>()
}

/// Once key `k` is the lowest pressed one, it stays the lowest among any longer prefix.
proof fn lemma_first_pressed_stays(keys: Seq<bool>, k: nat, m: nat)
    requires
        first_pressed(keys, k + 1) == k,
        k < m,
    ensures
        first_pressed(keys, m) == k,
    decreases m,
{
    if m > k + 1 {
        lemma_first_pressed_stays(keys, k, (m - 1) as nat);
    }
}

impl Chip8 {
    /// The memory and every register of a fresh machine, with `quirks` kept.
    fn power_on(quirks: Quirks) -> (r: Chip8)
        ensures
            r@ == initial_state(quirks),
    {
        let mut memory = [0u8; 4096];
        let glyphs = fontset();
        let mut i: usize = 0;
        while i < FONTSET_SIZE
            invariant
                i <= FONTSET_SIZE,
                glyphs@ == font(),
                memory@.len() == MEMORY_SIZE,
                forall|a: int| 0 <= a < i ==> memory@[a] == font()[a],
                forall|a: int| i <= a < MEMORY_SIZE ==> memory@[a] == 0,
            decreases FONTSET_SIZE - i,
        {
            memory[i] = glyphs[i];
            i = i + 1;
        }
        let r = Chip8 {
            memory,
            v: [0u8; 16],
            rpl: [0u8; 16],
            index: 0,
            pc: PROGRAM_OFFSET,
            sp: 0,
            stack: [0u16; 16],
            delay: 0,
            sound: 0,
            screen: [false; 8192],
            keys: [false; 16],
            hires: false,
            v_blank_wait: false,
            quirks,
        };
        assert(r@ =~= initial_state(quirks));
        r
    }

    /// A machine in its initial state under the default `chip8` profile.
    pub fn new() -> (r: Chip8)
        ensures
            r@ == initial_state(chip8_profile()),
    {
        Chip8::power_on(Quirks::new())
    }

    /// Whether the machine is in high-resolution mode.
    pub fn get_hires(&self) -> (r: bool)
        ensures
            r == self@.hires,
    {
        self.hires
    }

    /// The screen buffer, row by row, `SCREEN_WIDTH` cells per row.
    pub fn get_screen_buf(&self) -> (r: &[bool; 8192])
        ensures
            r@ == self@.screen,
    {
        &self.screen
    }

    /// Whether the cell at column `x`, row `y` is lit.
    pub fn get_pixel(&self, x: usize, y: usize) -> (r: bool)
        requires
            x < SCREEN_WIDTH,
            y < SCREEN_HEIGHT,
        ensures
            r == self@.screen[y * SCREEN_WIDTH + x],
    {
        self.screen[y * SCREEN_WIDTH + x]
    }

    /// General-purpose register `vx`.
    pub fn get_register(&self, x: usize) -> (r: u8)
        requires
            x < 16,
        ensures
            r == self@.v[x as int],
    {
        self.v[x]
    }

    /// Persistent flag register `x`.
    pub fn get_flag_register(&self, x: usize) -> (r: u8)
        requires
            x < 16,
        ensures
            r == self@.rpl[x as int],
    {
        self.rpl[x]
    }

    /// The byte at `addr`.
    pub fn get_memory(&self, addr: usize) -> (r: u8)
        requires
            addr < MEMORY_SIZE,
        ensures
            r == self@.memory[addr as int],
    {
        self.memory[addr]
    }

    /// The index register.
    pub fn get_index(&self) -> (r: u16)
        ensures
            r == self@.index,
    {
        self.index
    }

    /// The program counter.
    pub fn get_pc(&self) -> (r: u16)
        ensures
            r == self@.pc,
    {
        self.pc
    }

    /// The stack pointer: how many return addresses the stack holds.
    pub fn get_sp(&self) -> (r: u16)
        ensures
            r == self@.sp,
    {
        self.sp
    }

    /// The delay timer.
    pub fn get_delay(&self) -> (r: u8)
        ensures
            r == self@.delay,
    {
        self.delay
    }

    /// The sound timer; the host sounds a tone while it is nonzero.
    pub fn get_sound(&self) -> (r: u8)
        ensures
            r == self@.sound,
    {
        self.sound
    }

    /// Whether a draw is holding the CPU until the next timer tick.
    pub fn get_v_blank_wait(&self) -> (r: bool)
        ensures
            r == self@.v_blank_wait,
    {
        self.v_blank_wait
    }

    /// Returns the machine to its initial state; the active profile stays.
    pub fn reset(&mut self)
        ensures
            final(self)@ == initial_state(old(self)@.quirks),
    {
        *self = Chip8::power_on(self.quirks);
    }

    /// Pushes a return address onto the stack.
    pub fn push(&mut self, val: u16) -> (r: Result<(), Chip8Error>)
        ensures
            old(self)@.sp >= STACK_SIZE ==> r == Err::<(), _>(Chip8Error::OutOfRange)
                && final(self)@ == old(self)@,
            old(self)@.sp < STACK_SIZE ==> r is Ok && final(self)@ == (MachineState {
                stack: old(self)@.stack.update(old(self)@.sp as int, val),
                sp: (old(self)@.sp + 1) as u16,
                ..old(self)@
            }),
    {
        if self.sp as usize >= STACK_SIZE {
            return Err(Chip8Error::OutOfRange);
        }
        self.stack[self.sp as usize] = val;
        self.sp = self.sp + 1;
        Ok(())
    }

    /// Pops the most recent return address off the stack.
    pub fn pop(&mut self) -> (r: Result<u16, Chip8Error>)
        ensures
            (old(self)@.sp == 0 || old(self)@.sp > STACK_SIZE) ==> r == Err::<u16, _>(
                Chip8Error::OutOfRange,
            ) && final(self)@ == old(self)@,
            0 < old(self)@.sp <= STACK_SIZE ==> r == Ok::<u16, Chip8Error>(
                old(self)@.stack[old(self)@.sp - 1],
            ) && final(self)@ == (MachineState { sp: (old(self)@.sp - 1) as u16, ..old(self)@ }),
    {
        if self.sp == 0 || self.sp as usize > STACK_SIZE {
            return Err(Chip8Error::OutOfRange);
        }
        self.sp = self.sp - 1;
        Ok(self.stack[self.sp as usize])
    }

    /// Copies a program image into memory at `PROGRAM_OFFSET`.
    pub fn load_rom(&mut self, data: &[u8]) -> (r: Result<(), Chip8Error>)
        ensures
            match loaded(old(self)@, data@) {
                Ok(s) => r is Ok && final(self)@ == s,
                Err(e) => r == Err::<(), _>(e) && final(self)@ == old(self)@,
            },
    {
        if data.len() > MEMORY_SIZE - PROGRAM_OFFSET as usize {
            return Err(Chip8Error::OutOfRange);
        }
        let start = PROGRAM_OFFSET as usize;
        let ghost before = self.memory@;
        let mut i: usize = 0;
        while i < data.len()
            invariant
                i <= data@.len(),
                start == PROGRAM_OFFSET,
                start + data@.len() <= MEMORY_SIZE,
                self.memory@.len() == MEMORY_SIZE,
                forall|a: int|
                    0 <= a < MEMORY_SIZE ==> self.memory@[a] == if start <= a < start + i {
                        data@[a - start]
                    } else {
                        before[a]
                    },
                self@ == (MachineState { memory: self.memory@, ..old(self)@ }),
            decreases data@.len() - i,
        {
            self.memory[start + i] = data[i];
            i = i + 1;
        }
        proof {
            let s = loaded(old(self)@, data@)->Ok_0;
            assert(self.memory@ =~= s.memory);
        }
        Ok(())
    }

    /// Records whether keypad key `index` is held down.
    pub fn keypress(&mut self, index: usize, pressed: bool)
        requires
            index < NUM_KEYS,
        ensures
            final(self)@ == (MachineState {
                keys: old(self)@.keys.update(index as int, pressed),
                ..old(self)@
            }),
    {
        self.keys[index] = pressed;
    }

    /// One timer tick: releases a v-blank stall and counts both timers down.
    pub fn update_timer(&mut self)
        ensures
            final(self)@ == tick_spec(old(self)@),
    {
        self.v_blank_wait = false;
        if self.delay > 0 {
            self.delay = self.delay - 1;
        }
        if self.sound > 0 {
            self.sound = self.sound - 1;
        }
    }

    /// XORs a sprite onto the screen and reports whether a lit cell went dark.
    fn xor_sprite(&mut self, x_coord: u16, y_coord: u16, rows: u16, wide: bool) -> (r: Result<
        bool,
        Chip8Error,
    >)
        requires
            x_coord < 256,
            y_coord < 256,
            rows <= 16,
        ensures
            match draw_sprite(old(self)@, x_coord as int, y_coord as int, rows as int, wide) {
                Ok((s, hit)) => r == Ok::<bool, Chip8Error>(hit) && final(self)@ == s,
                Err(e) => r == Err::<bool, _>(e) && final(self)@ == old(self)@,
            },
    {
        let span: usize = if wide {
            32
        } else {
            rows as usize
        };
        if self.index as usize + span > MEMORY_SIZE {
            return Err(Chip8Error::OutOfRange);
        }
        let nrows: u16 = if wide {
            16
        } else {
            rows
        };
        let ncols: u16 = if wide {
            16
        } else {
            8
        };
        let width: u16 = if self.hires {
            128
        } else {
            64
        };
        let height: u16 = if self.hires {
            64
        } else {
            32
        };
        let ghost s0 = self@;
        let ghost x0 = x_coord as int;
        let ghost y0 = y_coord as int;
        let ghost nr = rows as int;
        let mut flip = false;
        let mut y_line: u16 = 0;
        while y_line < nrows
            invariant
                x_coord < 256,
                y_coord < 256,
                rows <= 16,
                x0 == x_coord,
                y0 == y_coord,
                nr == rows,
                nrows == sprite_height(nr, wide),
                ncols == sprite_width(wide),
                width == width_of(s0.hires),
                height == height_of(s0.hires),
                self.index + (if wide {
                    32
                } else {
                    rows as int
                }) <= MEMORY_SIZE,
                y_line <= nrows,
                self@ == (MachineState { screen: self.screen@, ..s0 }),
                forall|i: int|
                    0 <= i < SCREEN_CELLS ==> self.screen@[i] == (s0.screen[i] != hit_before(
                        s0,
                        x0,
                        y0,
                        nr,
                        wide,
                        i,
                        y_line as int,
                        0,
                    )),
                flip == exists|i: int|
                    #[trigger] hit_before(s0, x0, y0, nr, wide, i, y_line as int, 0)
                        && s0.screen[i],
            decreases nrows - y_line,
        {
            let mut x_line: u16 = 0;
            while x_line < ncols
                invariant
                    x_coord < 256,
                    y_coord < 256,
                    rows <= 16,
                    x0 == x_coord,
                    y0 == y_coord,
                    nr == rows,
                    nrows == sprite_height(nr, wide),
                    ncols == sprite_width(wide),
                    width == width_of(s0.hires),
                    height == height_of(s0.hires),
                    self.index + (if wide {
                        32
                    } else {
                        rows as int
                    }) <= MEMORY_SIZE,
                    y_line < nrows,
                    x_line <= ncols,
                    self@ == (MachineState { screen: self.screen@, ..s0 }),
                    forall|i: int|
                        0 <= i < SCREEN_CELLS ==> self.screen@[i] == (s0.screen[i] != hit_before(
                            s0,
                            x0,
                            y0,
                            nr,
                            wide,
                            i,
                            y_line as int,
                            x_line as int,
                        )),
                    flip == exists|i: int|
                        #[trigger] hit_before(s0, x0, y0, nr, wide, i, y_line as int, x_line as int)
                            && s0.screen[i],
                decreases ncols - x_line,
            {
                let addr: usize = if wide {
                    self.index as usize + 2 * y_line as usize + (x_line / 8) as usize
                } else {
                    self.index as usize + y_line as usize
                };
                let pixels = self.memory[addr];
                let mut source = pixels & (0x80u8 >> ((x_line % 8) as u8)) != 0;
                if self.quirks.clip_quirks && ((x_coord % width) + x_line >= width || (y_coord
                    % height) + y_line >= height) {
                    source = false;
                }
                let x = ((x_coord + x_line) % width) as usize;
                let y = ((y_coord + y_line) % height) as usize;
                let cell = y * 128 + x;
                let ghost before_flip = flip;
                proof {
                    lemma_draw_step(
                        s0,
                        x0,
                        y0,
                        nr,
                        wide,
                        y_line as int,
                        x_line as int,
                        cell as int,
                        source,
                    );
                }
                if source {
                    flip = flip || self.screen[cell];
                    self.screen[cell] = !self.screen[cell];
                }
                proof {
                    let r = y_line as int;
                    let c = x_line as int;
                    let k = cell as int;
                    if flip && !before_flip {
                        assert(hit_before(s0, x0, y0, nr, wide, k, r, c + 1) && s0.screen[k]);
                    }
                    if before_flip {
                        let j = choose|j: int|
                            #[trigger] hit_before(s0, x0, y0, nr, wide, j, r, c) && s0.screen[j];
                        assert(hit_before(s0, x0, y0, nr, wide, j, r, c + 1));
                    }
                    if !flip {
                        assert forall|j: int|
                            #[trigger] hit_before(s0, x0, y0, nr, wide, j, r, c + 1) implies !s0.screen[j] by {
                            if hit_before(s0, x0, y0, nr, wide, j, r, c) {
                            }
                        }
                    }
                }
                x_line = x_line + 1;
            }
            proof {
                let r = y_line as int;
                assert forall|i: int|
                    #[trigger] hit_before(s0, x0, y0, nr, wide, i, r, ncols as int) == hit_before(
                        s0,
                        x0,
                        y0,
                        nr,
                        wide,
                        i,
                        r + 1,
                        0,
                    ) by {}
            }
            y_line = y_line + 1;
        }
        proof {
            assert forall|i: int|
                #[trigger] hit_before(s0, x0, y0, nr, wide, i, nrows as int, 0) == sprite_hits(
                    s0,
                    x0,
                    y0,
                    nr,
                    wide,
                    i,
                ) by {}
            let s = draw_sprite(s0, x0, y0, nr, wide)->Ok_0.0;
            assert(self.screen@ =~= s.screen);
            if flip {
                let j = choose|j: int|
                    #[trigger] hit_before(s0, x0, y0, nr, wide, j, nrows as int, 0) && s0.screen[j];
                assert(sprite_hits(s0, x0, y0, nr, wide, j));
            }
            if draw_sprite(s0, x0, y0, nr, wide)->Ok_0.1 {
                let j = choose|j: int| #[trigger] sprite_hits(s0, x0, y0, nr, wide, j) && s0.screen[j];
                assert(hit_before(s0, x0, y0, nr, wide, j, nrows as int, 0));
            }
        }
        Ok(flip)
    }

    /// Draws a sprite of `rows` one-byte rows from the index register at
    /// (`x_coord`, `y_coord`); reports whether a lit cell went dark.
    pub fn draw_normal(&mut self, x_coord: u16, y_coord: u16, rows: u16) -> (r: Result<
        bool,
        Chip8Error,
    >)
        requires
            x_coord < 256,
            y_coord < 256,
            rows < 16,
        ensures
            match draw_sprite(old(self)@, x_coord as int, y_coord as int, rows as int, false) {
                Ok((s, hit)) => r == Ok::<bool, Chip8Error>(hit) && final(self)@ == s,
                Err(e) => r == Err::<bool, _>(e) && final(self)@ == old(self)@,
            },
    {
        self.xor_sprite(x_coord, y_coord, rows, false)
    }

    /// Draws a 16x16 sprite (two bytes per row) from the index register at
    /// (`x_coord`, `y_coord`); reports whether a lit cell went dark.
    pub fn draw_extended(&mut self, x_coord: u16, y_coord: u16) -> (r: Result<bool, Chip8Error>)
        requires
            x_coord < 256,
            y_coord < 256,
        ensures
            match draw_sprite(old(self)@, x_coord as int, y_coord as int, 16, true) {
                Ok((s, hit)) => r == Ok::<bool, Chip8Error>(hit) && final(self)@ == s,
                Err(e) => r == Err::<bool, _>(e) && final(self)@ == old(self)@,
            },
    {
        self.xor_sprite(x_coord, y_coord, 16, true)
    }

    /// Scrolls the logical screen down by `n` rows.
    fn scroll_down(&mut self, n: u8)
        requires
            n < 16,
        ensures
            final(self)@ == (MachineState { screen: scrolled_down(old(self)@, n as int), ..old(self)@ }),
    {
        let before = self.screen;
        let height: usize = if self.hires {
            64
        } else {
            32
        };
        let ghost s0 = self@;
        let mut i: usize = 0;
        while i < SCREEN_CELLS
            invariant
                n < 16,
                height == height_of(s0.hires),
                before@ == s0.screen,
                i <= SCREEN_CELLS,
                self@ == (MachineState { screen: self.screen@, ..s0 }),
                forall|j: int| 0 <= j < i ==> self.screen@[j] == scrolled_down(s0, n as int)[j],
                forall|j: int| i <= j < SCREEN_CELLS ==> self.screen@[j] == s0.screen[j],
            decreases SCREEN_CELLS - i,
        {
            let y = i / 128;
            if y < height {
                if y < n as usize {
                    self.screen[i] = false;
                } else {
                    self.screen[i] = before[i - n as usize * 128];
                }
            }
            i = i + 1;
        }
        assert(self.screen@ =~= scrolled_down(s0, n as int));
    }

    /// Scrolls the logical screen right by four columns.
    fn scroll_right(&mut self)
        ensures
            final(self)@ == (MachineState { screen: scrolled_right(old(self)@), ..old(self)@ }),
    {
        let before = self.screen;
        let width: usize = if self.hires {
            128
        } else {
            64
        };
        let height: usize = if self.hires {
            64
        } else {
            32
        };
        let ghost s0 = self@;
        let mut i: usize = 0;
        while i < SCREEN_CELLS
            invariant
                width == width_of(s0.hires),
                height == height_of(s0.hires),
                before@ == s0.screen,
                i <= SCREEN_CELLS,
                self@ == (MachineState { screen: self.screen@, ..s0 }),
                forall|j: int| 0 <= j < i ==> self.screen@[j] == scrolled_right(s0)[j],
                forall|j: int| i <= j < SCREEN_CELLS ==> self.screen@[j] == s0.screen[j],
            decreases SCREEN_CELLS - i,
        {
            let x = i % 128;
            let y = i / 128;
            if y < height && x < width {
                if x < 4 {
                    self.screen[i] = false;
                } else {
                    self.screen[i] = before[i - 4];
                }
            }
            i = i + 1;
        }
        assert(self.screen@ =~= scrolled_right(s0));
    }

    /// Scrolls the logical screen left by four columns.
    fn scroll_left(&mut self)
        ensures
            final(self)@ == (MachineState { screen: scrolled_left(old(self)@), ..old(self)@ }),
    {
        let before = self.screen;
        let width: usize = if self.hires {
            128
        } else {
            64
        };
        let height: usize = if self.hires {
            64
        } else {
            32
        };
        let ghost s0 = self@;
        let mut i: usize = 0;
        while i < SCREEN_CELLS
            invariant
                width == width_of(s0.hires),
                height == height_of(s0.hires),
                before@ == s0.screen,
                i <= SCREEN_CELLS,
                self@ == (MachineState { screen: self.screen@, ..s0 }),
                forall|j: int| 0 <= j < i ==> self.screen@[j] == scrolled_left(s0)[j],
                forall|j: int| i <= j < SCREEN_CELLS ==> self.screen@[j] == s0.screen[j],
            decreases SCREEN_CELLS - i,
        {
            let x = i % 128;
            let y = i / 128;
            if y < height && x < width {
                if x >= width - 4 {
                    self.screen[i] = false;
                } else {
                    self.screen[i] = before[i + 4];
                }
            }
            i = i + 1;
        }
        assert(self.screen@ =~= scrolled_left(s0));
    }

    /// Moves past the next instruction when `cond` holds.
    fn skip_when(&mut self, cond: bool) -> (r: Result<(), Chip8Error>)
        ensures
            follows(old(self)@, final(self)@, r, skip_if(old(self)@, cond)),
    {
        if cond {
            if self.pc > 0xFFFD {
                return Err(Chip8Error::OutOfRange);
            }
            self.pc = self.pc + 2;
        }
        Ok(())
    }

    /// The lowest pressed key, or `NUM_KEYS` when none is pressed.
    fn first_pressed_key(&self) -> (k: usize)
        ensures
            k == first_pressed(self@.keys, NUM_KEYS as nat),
    {
        let mut i: usize = 0;
        while i < NUM_KEYS
            invariant
                i <= NUM_KEYS,
                first_pressed(self@.keys, i as nat) == i,
            decreases NUM_KEYS - i,
        {
            if self.keys[i] {
                proof {
                    lemma_first_pressed_stays(self@.keys, i as nat, NUM_KEYS as nat);
                }
                return i;
            }
            i = i + 1;
        }
        NUM_KEYS
    }

    /// Writes `v0..=vx` to memory at the index register.
    fn store_registers(&mut self, x: u8)
        requires
            x < 16,
            old(self)@.index + x + 1 <= MEMORY_SIZE,
        ensures
            final(self)@ == execute_spec(old(self)@, Operation::Store(x), 0)->Ok_0,
    {
        let ghost s0 = self@;
        let base = self.index as usize;
        let mut j: usize = 0;
        while j <= x as usize
            invariant
                x < 16,
                base == s0.index,
                base + x + 1 <= MEMORY_SIZE,
                j <= x + 1,
                self@ == (MachineState { memory: self.memory@, ..s0 }),
                forall|a: int|
                    0 <= a < MEMORY_SIZE ==> self.memory@[a] == if base <= a < base + j {
                        s0.v[a - base]
                    } else {
                        s0.memory[a]
                    },
            decreases x + 1 - j,
        {
            self.memory[base + j] = self.v[j];
            j = j + 1;
        }
        if !self.quirks.load_store_quirks {
            self.index = self.index + x as u16 + 1;
        }
        assert(self@ =~= execute_spec(s0, Operation::Store(x), 0)->Ok_0);
    }

    /// Reads `v0..=vx` from memory at the index register.
    fn load_registers(&mut self, x: u8)
        requires
            x < 16,
            old(self)@.index + x + 1 <= MEMORY_SIZE,
        ensures
            final(self)@ == execute_spec(old(self)@, Operation::Load(x), 0)->Ok_0,
    {
        let ghost s0 = self@;
        let base = self.index as usize;
        let mut j: usize = 0;
        while j <= x as usize
            invariant
                x < 16,
                base == s0.index,
                base + x + 1 <= MEMORY_SIZE,
                j <= x + 1,
                self@ == (MachineState { v: self.v@, ..s0 }),
                forall|k: int|
                    0 <= k < 16 ==> self.v@[k] == if k < j {
                        s0.memory[base + k]
                    } else {
                        s0.v[k]
                    },
            decreases x + 1 - j,
        {
            self.v[j] = self.memory[base + j];
            j = j + 1;
        }
        if !self.quirks.load_store_quirks {
            self.index = self.index + x as u16 + 1;
        }
        assert(self@ =~= execute_spec(s0, Operation::Load(x), 0)->Ok_0);
    }

    /// Copies `v0..=vx` into the flag registers.
    fn save_flags(&mut self, x: u8)
        requires
            x < 16,
        ensures
            final(self)@ == execute_spec(old(self)@, Operation::SaveFlags(x), 0)->Ok_0,
    {
        let ghost s0 = self@;
        let mut j: usize = 0;
        while j <= x as usize
            invariant
                x < 16,
                j <= x + 1,
                self@ == (MachineState { rpl: self.rpl@, ..s0 }),
                forall|k: int|
                    0 <= k < 16 ==> self.rpl@[k] == if k < j {
                        s0.v[k]
                    } else {
                        s0.rpl[k]
                    },
            decreases x + 1 - j,
        {
            self.rpl[j] = self.v[j];
            j = j + 1;
        }
        assert(self@ =~= execute_spec(s0, Operation::SaveFlags(x), 0)->Ok_0);
    }

    /// Copies the flag registers back into `v0..=vx`.
    fn restore_flags(&mut self, x: u8)
        requires
            x < 16,
        ensures
            final(self)@ == execute_spec(old(self)@, Operation::RestoreFlags(x), 0)->Ok_0,
    {
        let ghost s0 = self@;
        let mut j: usize = 0;
        while j <= x as usize
            invariant
                x < 16,
                j <= x + 1,
                self@ == (MachineState { v: self.v@, ..s0 }),
                forall|k: int|
                    0 <= k < 16 ==> self.v@[k] == if k < j {
                        s0.rpl[k]
                    } else {
                        s0.v[k]
                    },
            decreases x + 1 - j,
        {
            self.v[j] = self.rpl[j];
            j = j + 1;
        }
        assert(self@ =~= execute_spec(s0, Operation::RestoreFlags(x), 0)->Ok_0);
    }

    /// Carries out a screen, subroutine or jump instruction.
    fn run_control(&mut self, o: Operation, random_byte: u8) -> (r: Result<(), Chip8Error>)
        requires
            operands_in_range(o),
            o is Sys || o is ScrollDown || o is Clear || o is Return || o is ScrollRight
                || o is ScrollLeft || o is LowRes || o is HighRes || o is Jump || o is Call
                || o is JumpOffset || o is LoadIndex,
        ensures
            follows(old(self)@, final(self)@, r, execute_spec(old(self)@, o, random_byte)),
    {
        let ghost s0 = self@;
        match o {
            Operation::Sys => {},
            Operation::ScrollDown(n) => self.scroll_down(n),
            Operation::Clear => {
                self.screen = [false; 8192];
                assert(self@ =~= execute_spec(s0, o, random_byte)->Ok_0);
            },
            Operation::Return => {
                match self.pop() {
                    Ok(a) => self.pc = a,
                    Err(e) => return Err(e),
                }
            },
            Operation::ScrollRight => self.scroll_right(),
            Operation::ScrollLeft => self.scroll_left(),
            Operation::LowRes => self.hires = false,
            Operation::HighRes => self.hires = true,
            Operation::Jump(nnn) => self.pc = nnn,
            Operation::Call(nnn) => {
                let ret = self.pc;
                match self.push(ret) {
                    Ok(()) => self.pc = nnn,
                    Err(e) => return Err(e),
                }
            },
            Operation::JumpOffset(nnn) => {
                let reg: usize = if self.quirks.jump_quirks {
                    (nnn / 0x100) as usize
                } else {
                    0
                };
                self.pc = self.v[reg] as u16 + nnn;
            },
            Operation::LoadIndex(nnn) => self.index = nnn,
            _ => {},  // excluded by `requires`
        }
        Ok(())
    }

    /// Carries out a conditional skip or the wait for a key.
    fn run_branch(&mut self, o: Operation, random_byte: u8) -> (r: Result<(), Chip8Error>)
        requires
            operands_in_range(o),
            o is SkipEqImm || o is SkipNeImm || o is SkipEqReg || o is SkipNeReg || o is SkipKey
                || o is SkipNoKey || o is WaitKey,
        ensures
            follows(old(self)@, final(self)@, r, execute_spec(old(self)@, o, random_byte)),
    {
        match o {
            Operation::SkipEqImm(x, nn) => {
                let cond = self.v[x as usize] == nn;
                return self.skip_when(cond);
            },
            Operation::SkipNeImm(x, nn) => {
                let cond = self.v[x as usize] != nn;
                return self.skip_when(cond);
            },
            Operation::SkipEqReg(x, y) => {
                let cond = self.v[x as usize] == self.v[y as usize];
                return self.skip_when(cond);
            },
            Operation::SkipNeReg(x, y) => {
                let cond = self.v[x as usize] != self.v[y as usize];
                return self.skip_when(cond);
            },
            Operation::SkipKey(x) => {
                let key = self.v[x as usize] as usize;
                if key >= NUM_KEYS {
                    return Err(Chip8Error::OutOfRange);
                }
                let cond = self.keys[key];
                return self.skip_when(cond);
            },
            Operation::SkipNoKey(x) => {
                let key = self.v[x as usize] as usize;
                if key >= NUM_KEYS {
                    return Err(Chip8Error::OutOfRange);
                }
                let cond = !self.keys[key];
                return self.skip_when(cond);
            },
            Operation::WaitKey(x) => {
                let key = self.first_pressed_key();
                if key < NUM_KEYS {
                    self.v[x as usize] = key as u8;
                } else {
                    if self.pc < 2 {
                        return Err(Chip8Error::OutOfRange);
                    }
                    self.pc = self.pc - 2;
                }
            },
            _ => {},  // excluded by `requires`
        }
        Ok(())
    }

    /// Carries out a register load or an arithmetic, logic or shift instruction.
    fn run_arithmetic(&mut self, o: Operation, random_byte: u8) -> (r: Result<(), Chip8Error>)
        requires
            operands_in_range(o),
            o is LoadImm || o is AddImm || o is Assign || o is Or || o is And || o is Xor
                || o is AddReg || o is SubReg || o is ShiftRight || o is SubnReg || o is ShiftLeft
                || o is Random,
        ensures
            follows(old(self)@, final(self)@, r, execute_spec(old(self)@, o, random_byte)),
    {
        match o {
            Operation::LoadImm(x, nn) => self.v[x as usize] = nn,
            Operation::AddImm(x, nn) => self.v[x as usize] = self.v[x as usize].wrapping_add(nn),
            Operation::Assign(x, y) => self.v[x as usize] = self.v[y as usize],
            Operation::Or(x, y) => {
                self.v[x as usize] = self.v[x as usize] | self.v[y as usize];
                if self.quirks.logic_quirks {
                    self.v[15] = 0;
                }
            },
            Operation::And(x, y) => {
                self.v[x as usize] = self.v[x as usize] & self.v[y as usize];
                if self.quirks.logic_quirks {
                    self.v[15] = 0;
                }
            },
            Operation::Xor(x, y) => {
                self.v[x as usize] = self.v[x as usize] ^ self.v[y as usize];
                if self.quirks.logic_quirks {
                    self.v[15] = 0;
                }
            },
            Operation::AddReg(x, y) => {
                let sum = self.v[x as usize] as u16 + self.v[y as usize] as u16;
                self.v[x as usize] = (sum % 256) as u8;
                self.v[15] = if sum > 255 {
                    1
                } else {
                    0
                };
            },
            Operation::SubReg(x, y) => {
                let a = self.v[x as usize];
                let b = self.v[y as usize];
                self.v[x as usize] = a.wrapping_sub(b);
                self.v[15] = if a >= b {
                    1
                } else {
                    0
                };
            },
            Operation::ShiftRight(x, y) => {
                let src = if self.quirks.shift_quirks {
                    self.v[x as usize]
                } else {
                    self.v[y as usize]
                };
                self.v[x as usize] = src / 2;
                self.v[15] = src % 2;
            },
            Operation::SubnReg(x, y) => {
                let a = self.v[x as usize];
                let b = self.v[y as usize];
                self.v[x as usize] = b.wrapping_sub(a);
                self.v[15] = if b >= a {
                    1
                } else {
                    0
                };
            },
            Operation::ShiftLeft(x, y) => {
                let src = if self.quirks.shift_quirks {
                    self.v[x as usize]
                } else {
                    self.v[y as usize]
                };
                self.v[x as usize] = ((src as u16 * 2) % 256) as u8;
                self.v[15] = src / 128;
            },
            Operation::Random(x, nn) => self.v[x as usize] = random_byte & nn,
            _ => {},  // excluded by `requires`
        }
        Ok(())
    }

    /// Carries out a draw, timer, index or memory-transfer instruction.
    fn run_misc(&mut self, o: Operation, random_byte: u8) -> (r: Result<(), Chip8Error>)
        requires
            operands_in_range(o),
            o is Draw || o is ReadDelay || o is SetDelay || o is SetSound || o is AddIndex
                || o is Glyph || o is BigGlyph || o is Bcd || o is Store || o is Load || o is SaveFlags
                || o is RestoreFlags,
        ensures
            follows(old(self)@, final(self)@, r, execute_spec(old(self)@, o, random_byte)),
    {
        match o {
            Operation::Draw(x, y, n) => {
                let x_coord = self.v[x as usize] as u16;
                let y_coord = self.v[y as usize] as u16;
                let wide = self.hires && n == 0;
                match self.xor_sprite(x_coord, y_coord, n as u16, wide) {
                    Ok(hit) => {
                        self.v[15] = if hit {
                            1
                        } else {
                            0
                        };
                        if self.quirks.v_blank_quirks {
                            self.v_blank_wait = true;
                        }
                    },
                    Err(e) => return Err(e),
                }
            },
            Operation::ReadDelay(x) => self.v[x as usize] = self.delay,
            Operation::SetDelay(x) => self.delay = self.v[x as usize],
            Operation::SetSound(x) => self.sound = self.v[x as usize],
            Operation::AddIndex(x) => self.index = self.index.wrapping_add(self.v[x as usize] as u16),
            Operation::Glyph(x) => self.index = self.v[x as usize] as u16 * 5,
            Operation::BigGlyph(x) => self.index = self.v[x as usize] as u16 * 10 + FONTSET_SIZE as u16,
            Operation::Bcd(x) => {
                if self.index as usize + 3 > MEMORY_SIZE {
                    return Err(Chip8Error::OutOfRange);
                }
                let b = self.v[x as usize];
                let i = self.index as usize;
                self.memory[i] = b / 100;
                self.memory[i + 1] = (b / 10) % 10;
                self.memory[i + 2] = b % 10;
            },
            Operation::Store(x) => {
                if self.index as usize + x as usize + 1 > MEMORY_SIZE {
                    return Err(Chip8Error::OutOfRange);
                }
                self.store_registers(x);
            },
            Operation::Load(x) => {
                if self.index as usize + x as usize + 1 > MEMORY_SIZE {
                    return Err(Chip8Error::OutOfRange);
                }
                self.load_registers(x);
            },
            Operation::SaveFlags(x) => self.save_flags(x),
            Operation::RestoreFlags(x) => self.restore_flags(x),
            _ => {},  // excluded by `requires`
        }
        Ok(())
    }

    /// Carries out one decoded instruction; `random_byte` is the byte that `Cxnn` masks.
    fn run(&mut self, o: Operation, random_byte: u8) -> (r: Result<(), Chip8Error>)
        requires
            operands_in_range(o),
        ensures
            follows(old(self)@, final(self)@, r, execute_spec(old(self)@, o, random_byte)),
    {
        match o {
            Operation::Sys | Operation::ScrollDown(..) | Operation::Clear | Operation::Return | Operation::ScrollRight | Operation::ScrollLeft | Operation::LowRes | Operation::HighRes | Operation::Jump(..) | Operation::Call(..) | Operation::JumpOffset(..) | Operation::LoadIndex(..) => self.run_control(o, random_byte),
            Operation::SkipEqImm(..) | Operation::SkipNeImm(..) | Operation::SkipEqReg(..) | Operation::SkipNeReg(..) | Operation::SkipKey(..) | Operation::SkipNoKey(..) | Operation::WaitKey(..) => self.run_branch(o, random_byte),
            Operation::LoadImm(..) | Operation::AddImm(..) | Operation::Assign(..) | Operation::Or(..) | Operation::And(..) | Operation::Xor(..) | Operation::AddReg(..) | Operation::SubReg(..) | Operation::ShiftRight(..) | Operation::SubnReg(..) | Operation::ShiftLeft(..) | Operation::Random(..) => self.run_arithmetic(o, random_byte),
            Operation::Draw(..) | Operation::ReadDelay(..) | Operation::SetDelay(..) | Operation::SetSound(..) | Operation::AddIndex(..) | Operation::Glyph(..) | Operation::BigGlyph(..) | Operation::Bcd(..) | Operation::Store(..) | Operation::Load(..) | Operation::SaveFlags(..) | Operation::RestoreFlags(..) => self.run_misc(o, random_byte),
        }
    }

    /// Decodes and carries out one instruction word; `random_byte` is the byte
    /// that `Cxnn` masks.
    pub fn execute_with(&mut self, operation: u16, random_byte: u8) -> (r: Result<(), Chip8Error>)
        ensures
            follows(old(self)@, final(self)@, r, execute_word(old(self)@, operation, random_byte)),
    {
        match decode(operation) {
            Ok(o) => self.run(o, random_byte),
            Err(e) => Err(e),
        }
    }

    /// Decodes and carries out one instruction word, drawing a random byte for `Cxnn`.
    pub fn execute(&mut self, operation: u16) -> (r: Result<(), Chip8Error>)
        ensures
            exists|b: u8| follows(old(self)@, final(self)@, r, execute_word(old(self)@, operation, b)),
            !needs_random(operation) ==> follows(
                old(self)@,
                final(self)@,
                r,
                execute_word(old(self)@, operation, 0),
            ),
    {
        let ghost s0 = self@;
        let b = if operation / 0x1000 == 0xC {
            random_byte()
        } else {
            0
        };
        let r = self.execute_with(operation, b);
        assert(follows(s0, self@, r, execute_word(s0, operation, b)));
        r
    }

    /// One CPU cycle: does nothing while a v-blank stall holds, else fetches and
    /// executes one instruction (drawing a random byte for `Cxnn`). A cycle that
    /// fails leaves the machine as it was.
    pub fn clock(&mut self) -> (r: Result<(), Chip8Error>)
        ensures
            exists|b: u8| follows(old(self)@, final(self)@, r, clock_spec(old(self)@, b)),
            !clock_draws_random(old(self)@) ==> follows(
                old(self)@,
                final(self)@,
                r,
                clock_spec(old(self)@, 0),
            ),
    {
        let ghost s0 = self@;
        if self.v_blank_wait && self.quirks.v_blank_quirks {
            assert(follows(s0, self@, Ok(()), clock_spec(s0, 0)));
            return Ok(());
        }
        let pc = self.pc;
        let operation = match self.fetch() {
            Ok(op) => op,
            Err(e) => {
                assert(follows(s0, self@, Err(e), clock_spec(s0, 0)));
                return Err(e);
            },
        };
        let b = if operation / 0x1000 == 0xC {
            random_byte()
        } else {
            0
        };
        let r = match self.execute_with(operation, b) {
            Ok(()) => Ok(()),
            Err(e) => {
                self.pc = pc;
                assert(self@ =~= s0);
                Err(e)
            },
        };
        assert(follows(s0, self@, r, clock_spec(s0, b)));
        r
    }

    /// Reads the instruction word at `pc` and moves `pc` past it.
    pub fn fetch(&mut self) -> (r: Result<u16, Chip8Error>)
        ensures
            match fetch_spec(old(self)@) {
                Ok((s, op)) => r == Ok::<u16, Chip8Error>(op) && final(self)@ == s,
                Err(e) => r == Err::<u16, _>(e) && final(self)@ == old(self)@,
            },
    {
        if self.pc as usize + 1 >= MEMORY_SIZE {
            return Err(Chip8Error::OutOfRange);
        }
        let top_half = self.memory[self.pc as usize] as u16;
        let bottom_half = self.memory[self.pc as usize + 1] as u16;
        self.pc = self.pc + 2;
        Ok(top_half * 256 + bottom_half)
    }
}

} // verus!
