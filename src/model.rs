use vstd::prelude::*;

use crate::decode::{decode_spec, nibble, Chip8Error, Operation};
use crate::quirks::Quirks;

verus! {

/// Bytes of addressable memory.
pub const MEMORY_SIZE: usize = 4096;

/// Columns of the screen buffer (the high-resolution width).
pub const SCREEN_WIDTH: usize = 128;

/// Rows of the screen buffer (the high-resolution height).
pub const SCREEN_HEIGHT: usize = 64;

/// Cells of the screen buffer, stored row by row.
pub const SCREEN_CELLS: usize = 8192;

/// Where a program image is loaded and execution starts.
pub const PROGRAM_OFFSET: u16 = 0x200;

/// Return addresses the stack can hold.
pub const STACK_SIZE: usize = 16;

/// Keys of the hexadecimal keypad.
pub const NUM_KEYS: usize = 16;

/// Bytes of the built-in font: sixteen glyphs of five rows.
pub const FONTSET_SIZE: usize = 80;

/// The mathematical picture of a machine: every field that an instruction
/// reads or writes.
#[verifier::ext_equal]
pub struct MachineState {
    pub memory: Seq<u8>,
    pub v: Seq<u8>,
    pub rpl: Seq<u8>,
    pub index: u16,
    pub pc: u16,
    pub sp: u16,
    pub stack: Seq<u16>,
    pub delay: u8,
    pub sound: u8,
    /// Row-major, `SCREEN_WIDTH` cells per row.
    pub screen: Seq<bool>,
    pub keys: Seq<bool>,
    pub hires: bool,
    pub v_blank_wait: bool,
    pub quirks: Quirks,
}

impl MachineState {
    /// Every sequence has the length of the storage it stands for.
    pub open spec fn valid(self) -> bool {
        &&& self.memory.len() == MEMORY_SIZE
        &&& self.v.len() == 16
        &&& self.rpl.len() == 16
        &&& self.stack.len() == STACK_SIZE
        &&& self.screen.len() == SCREEN_CELLS
        &&& self.keys.len() == NUM_KEYS
    }
}

/// The glyphs of the hexadecimal digits, five bytes each.
pub open spec fn font() -> Seq<u8> {
    seq![
        0xF0u8, 0x90, 0x90, 0x90, 0xF0,
        0x20, 0x60, 0x20, 0x20, 0x70,
        0xF0, 0x10, 0xF0, 0x80, 0xF0,
        0xF0, 0x10, 0xF0, 0x10, 0xF0,
        0x90, 0x90, 0xF0, 0x10, 0x10,
        0xF0, 0x80, 0xF0, 0x10, 0xF0,
        0xF0, 0x80, 0xF0, 0x90, 0xF0,
        0xF0, 0x10, 0x20, 0x40, 0x40,
        0xF0, 0x90, 0xF0, 0x90, 0xF0,
        0xF0, 0x90, 0xF0, 0x10, 0xF0,
        0xF0, 0x90, 0xF0, 0x90, 0x90,
        0xE0, 0x90, 0xE0, 0x90, 0xE0,
        0xF0, 0x80, 0x80, 0x80, 0xF0,
        0xE0, 0x90, 0x90, 0x90, 0xE0,
        0xF0, 0x80, 0xF0, 0x80, 0xF0,
        0xF0, 0x80, 0xF0, 0x80, 0x80,
    ]
}

/// A freshly powered machine running under `quirks`: zeroed storage with the
/// font at the bottom of memory, `pc` at the program start, low resolution.
pub open spec fn initial_state(quirks: Quirks) -> MachineState {
    MachineState {
        memory: Seq::new(
            MEMORY_SIZE as nat,
            |a: int|
                if a < FONTSET_SIZE {
                    font()[a]
                } else {
                    0u8
                },
        ),
        v: Seq::new(16, |i: int| 0u8),
        rpl: Seq::new(16, |i: int| 0u8),
        index: 0,
        pc: PROGRAM_OFFSET,
        sp: 0,
        stack: Seq::new(STACK_SIZE as nat, |i: int| 0u16),
        delay: 0,
        sound: 0,
        screen: Seq::new(SCREEN_CELLS as nat, |i: int| false),
        keys: Seq::new(NUM_KEYS as nat, |i: int| false),
        hires: false,
        v_blank_wait: false,
        quirks,
    }
}

/// Memory after a program image is copied in at `PROGRAM_OFFSET`.
pub open spec fn loaded(s: MachineState, data: Seq<u8>) -> Result<MachineState, Chip8Error> {
    if PROGRAM_OFFSET + data.len() > MEMORY_SIZE {
        Err(Chip8Error::OutOfRange)
    } else {
        Ok(
            MachineState {
                memory: Seq::new(
                    s.memory.len(),
                    |a: int|
                        if PROGRAM_OFFSET <= a < PROGRAM_OFFSET + data.len() {
                            data[a - PROGRAM_OFFSET]
                        } else {
                            s.memory[a]
                        },
                ),
                ..s
            },
        )
    }
}

/// The logical width of the current resolution.
pub open spec fn width_of(hires: bool) -> int {
    if hires {
        128
    } else {
        64
    }
}

/// The logical height of the current resolution.
pub open spec fn height_of(hires: bool) -> int {
    if hires {
        64
    } else {
        32
    }
}

/// The column of a screen cell.
pub open spec fn cell_x(i: int) -> int {
    i % SCREEN_WIDTH as int
}

/// The row of a screen cell.
pub open spec fn cell_y(i: int) -> int {
    i / SCREEN_WIDTH as int
}

/// Pixel `col` (0 is the leftmost, 7 the rightmost) of a sprite byte.
pub open spec fn bit_set(b: u8, col: int) -> bool {
    b & (0x80u8 >> (col as u8)) != 0
}

/// Whether pixel (`row`, `col`) of the sprite at `index` is set. A narrow
/// sprite has one byte per row; a wide one has two.
pub open spec fn sprite_pixel(memory: Seq<u8>, index: int, wide: bool, row: int, col: int) -> bool {
    if wide {
        bit_set(memory[index + 2 * row + col / 8], col % 8)
    } else {
        bit_set(memory[index + row], col)
    }
}

/// The sprite's width in pixels.
pub open spec fn sprite_width(wide: bool) -> int {
    if wide {
        16
    } else {
        8
    }
}

/// The sprite's height in rows: a wide sprite always has sixteen.
pub open spec fn sprite_height(rows: int, wide: bool) -> int {
    if wide {
        16
    } else {
        rows
    }
}

/// The row and column of the sprite pixel that would land on screen cell `i`.
pub open spec fn sprite_offset(hires: bool, x0: int, y0: int, i: int) -> (int, int) {
    ((cell_y(i) - y0) % height_of(hires), (cell_x(i) - x0) % width_of(hires))
}

/// Whether drawing a sprite of `rows` rows at (`x0`, `y0`) toggles screen cell
/// `i`. The cell takes the sprite pixel whose offset is its distance from the
/// origin, modulo the logical size; under the clip quirk a pixel that would
/// wrap past an edge is dropped.
pub open spec fn sprite_hits(
    s: MachineState,
    x0: int,
    y0: int,
    rows: int,
    wide: bool,
    i: int,
) -> bool {
    let w = width_of(s.hires);
    let h = height_of(s.hires);
    let (row, col) = sprite_offset(s.hires, x0, y0, i);
    &&& 0 <= i < SCREEN_CELLS
    &&& cell_x(i) < w
    &&& cell_y(i) < h
    &&& col < sprite_width(wide)
    &&& row < sprite_height(rows, wide)
    &&& sprite_pixel(s.memory, s.index as int, wide, row, col)
    &&& !(s.quirks.clip_quirks && (x0 % w + col >= w || y0 % h + row >= h))
}

/// The screen after the sprite is XORed onto it.
pub open spec fn drawn_screen(s: MachineState, x0: int, y0: int, rows: int, wide: bool) -> Seq<
    bool,
> {
    Seq::new(s.screen.len(), |i: int| s.screen[i] != sprite_hits(s, x0, y0, rows, wide, i))
}

/// Whether the sprite turns off a cell that was on.
pub open spec fn draw_collides(s: MachineState, x0: int, y0: int, rows: int, wide: bool) -> bool {
    exists|i: int| #[trigger] sprite_hits(s, x0, y0, rows, wide, i) && s.screen[i]
}

/// Whether the sprite turns on a cell that was off.
pub open spec fn draw_lights(s: MachineState, x0: int, y0: int, rows: int, wide: bool) -> bool {
    exists|i: int| #[trigger] sprite_hits(s, x0, y0, rows, wide, i) && !s.screen[i]
}

/// The sprite's bytes lie inside memory.
pub open spec fn sprite_in_memory(s: MachineState, rows: int, wide: bool) -> bool {
    s.index + (if wide {
        32
    } else {
        rows
    }) <= MEMORY_SIZE
}

/// A sprite drawn onto the screen, or `OutOfRange` when its bytes are not in memory.
pub open spec fn draw_sprite(s: MachineState, x0: int, y0: int, rows: int, wide: bool) -> Result<
    (MachineState, bool),
    Chip8Error,
> {
    if !sprite_in_memory(s, rows, wide) {
        Err(Chip8Error::OutOfRange)
    } else {
        Ok(
            (
                MachineState { screen: drawn_screen(s, x0, y0, rows, wide), ..s },
                draw_collides(s, x0, y0, rows, wide),
            ),
        )
    }
}

/// The screen scrolled down by `n` rows within the logical height.
pub open spec fn scrolled_down(s: MachineState, n: int) -> Seq<bool> {
    Seq::new(
        s.screen.len(),
        |i: int|
            if cell_y(i) >= height_of(s.hires) {
                s.screen[i]
            } else if cell_y(i) < n {
                false
            } else {
                s.screen[i - n * SCREEN_WIDTH]
            },
    )
}

/// The screen scrolled right by four columns within the logical size.
pub open spec fn scrolled_right(s: MachineState) -> Seq<bool> {
    Seq::new(
        s.screen.len(),
        |i: int|
            if cell_y(i) >= height_of(s.hires) || cell_x(i) >= width_of(s.hires) {
                s.screen[i]
            } else if cell_x(i) < 4 {
                false
            } else {
                s.screen[i - 4]
            },
    )
}

/// The screen scrolled left by four columns within the logical size.
pub open spec fn scrolled_left(s: MachineState) -> Seq<bool> {
    Seq::new(
        s.screen.len(),
        |i: int|
            if cell_y(i) >= height_of(s.hires) || cell_x(i) >= width_of(s.hires) {
                s.screen[i]
            } else if cell_x(i) >= width_of(s.hires) - 4 {
                false
            } else {
                s.screen[i + 4]
            },
    )
}

/// Moves past the next instruction when `cond` holds.
pub open spec fn skip_if(s: MachineState, cond: bool) -> Result<MachineState, Chip8Error> {
    if !cond {
        Ok(s)
    } else if s.pc + 2 > u16::MAX {
        Err(Chip8Error::OutOfRange)
    } else {
        Ok(MachineState { pc: (s.pc + 2) as u16, ..s })
    }
}

/// The lowest pressed key among the first `n`, or `n` when none of them is pressed.
pub open spec fn first_pressed(keys: Seq<bool>, n: nat) -> nat
    decreases n,
{
    if n == 0 {
        0
    } else {
        let f = first_pressed(keys, (n - 1) as nat);
        if f < n - 1 {
            f
        } else if keys[n - 1] {
            (n - 1) as nat
        } else {
            n
        }
    }
}

/// Sets register `x`.
pub open spec fn set_v(s: MachineState, x: int, b: u8) -> MachineState {
    MachineState { v: s.v.update(x, b), ..s }
}

/// Sets register `x` to `b` and then the flag register to `f`.
pub open spec fn set_v_flag(s: MachineState, x: int, b: u8, f: u8) -> MachineState {
    MachineState { v: s.v.update(x, b).update(15, f), ..s }
}

/// A bitwise operation's result in `vx`, and the flag cleared under the logic quirk.
pub open spec fn logic_result(s: MachineState, x: int, b: u8) -> MachineState {
    if s.quirks.logic_quirks {
        set_v_flag(s, x, b, 0)
    } else {
        set_v(s, x, b)
    }
}

/// The register a shift reads: `vx` under the shift quirk, `vy` otherwise.
pub open spec fn shift_source(s: MachineState, x: int, y: int) -> u8 {
    if s.quirks.shift_quirks {
        s.v[x]
    } else {
        s.v[y]
    }
}

/// The decimal digits of `b`, most significant first.
pub open spec fn decimal_digits(b: u8) -> (u8, u8, u8) {
    ((b / 100) as u8, ((b / 10) % 10) as u8, (b % 10) as u8)
}

/// The index register after a bulk transfer of `v0..=vx`.
pub open spec fn index_after_transfer(s: MachineState, x: int) -> u16 {
    if s.quirks.load_store_quirks {
        s.index
    } else {
        (s.index + x + 1) as u16
    }
}

/// What one decoded instruction does to the machine; `random_byte` is the
/// value drawn for `Cxnn`.
pub open spec fn execute_spec(s: MachineState, o: Operation, random_byte: u8) -> Result<
    MachineState,
    Chip8Error,
> {
    match o {
        Operation::Sys => Ok(s),
        Operation::ScrollDown(n) => Ok(MachineState { screen: scrolled_down(s, n as int), ..s }),
        Operation::Clear => Ok(MachineState { screen: Seq::new(s.screen.len(), |i: int| false), ..s }),
        Operation::Return => {
            if s.sp == 0 || s.sp > STACK_SIZE {
                Err(Chip8Error::OutOfRange)
            } else {
                Ok(MachineState { sp: (s.sp - 1) as u16, pc: s.stack[s.sp - 1], ..s })
            }
        },
        Operation::ScrollRight => Ok(MachineState { screen: scrolled_right(s), ..s }),
        Operation::ScrollLeft => Ok(MachineState { screen: scrolled_left(s), ..s }),
        Operation::LowRes => Ok(MachineState { hires: false, ..s }),
        Operation::HighRes => Ok(MachineState { hires: true, ..s }),
        Operation::Jump(nnn) => Ok(MachineState { pc: nnn, ..s }),
        Operation::Call(nnn) => {
            if s.sp >= STACK_SIZE {
                Err(Chip8Error::OutOfRange)
            } else {
                Ok(
                    MachineState {
                        stack: s.stack.update(s.sp as int, s.pc),
                        sp: (s.sp + 1) as u16,
                        pc: nnn,
                        ..s
                    },
                )
            }
        },
        Operation::SkipEqImm(x, nn) => skip_if(s, s.v[x as int] == nn),
        Operation::SkipNeImm(x, nn) => skip_if(s, s.v[x as int] != nn),
        Operation::SkipEqReg(x, y) => skip_if(s, s.v[x as int] == s.v[y as int]),
        Operation::LoadImm(x, nn) => Ok(set_v(s, x as int, nn)),
        Operation::AddImm(x, nn) => Ok(set_v(s, x as int, ((s.v[x as int] + nn) % 256) as u8)),
        Operation::Assign(x, y) => Ok(set_v(s, x as int, s.v[y as int])),
        Operation::Or(x, y) => Ok(logic_result(s, x as int, s.v[x as int] | s.v[y as int])),
        Operation::And(x, y) => Ok(logic_result(s, x as int, s.v[x as int] & s.v[y as int])),
        Operation::Xor(x, y) => Ok(logic_result(s, x as int, s.v[x as int] ^ s.v[y as int])),
        Operation::AddReg(x, y) => {
            let sum = s.v[x as int] + s.v[y as int];
            Ok(
                set_v_flag(
                    s,
                    x as int,
                    (sum % 256) as u8,
                    if sum > 255 {
                        1
                    } else {
                        0
                    },
                ),
            )
        },
        Operation::SubReg(x, y) => {
            let (a, b) = (s.v[x as int], s.v[y as int]);
            Ok(
                set_v_flag(
                    s,
                    x as int,
                    ((a - b) % 256) as u8,
                    if a >= b {
                        1
                    } else {
                        0
                    },
                ),
            )
        },
        Operation::SubnReg(x, y) => {
            let (a, b) = (s.v[x as int], s.v[y as int]);
            Ok(
                set_v_flag(
                    s,
                    x as int,
                    ((b - a) % 256) as u8,
                    if b >= a {
                        1
                    } else {
                        0
                    },
                ),
            )
        },
        Operation::ShiftRight(x, y) => {
            let src = shift_source(s, x as int, y as int);
            Ok(set_v_flag(s, x as int, src / 2, src % 2))
        },
        Operation::ShiftLeft(x, y) => {
            let src = shift_source(s, x as int, y as int);
            Ok(set_v_flag(s, x as int, ((src * 2) % 256) as u8, src / 128))
        },
        Operation::SkipNeReg(x, y) => skip_if(s, s.v[x as int] != s.v[y as int]),
        Operation::LoadIndex(nnn) => Ok(MachineState { index: nnn, ..s }),
        Operation::JumpOffset(nnn) => {
            let r = if s.quirks.jump_quirks {
                nnn / 0x100
            } else {
                0
            };
            Ok(MachineState { pc: (s.v[r as int] + nnn) as u16, ..s })
        },
        Operation::Random(x, nn) => Ok(set_v(s, x as int, random_byte & nn)),
        Operation::Draw(x, y, n) => {
            let wide = s.hires && n == 0;
            match draw_sprite(s, s.v[x as int] as int, s.v[y as int] as int, n as int, wide) {
                Err(e) => Err(e),
                Ok((t, hit)) => Ok(
                    MachineState {
                        v: t.v.update(
                            15,
                            if hit {
                                1u8
                            } else {
                                0u8
                            },
                        ),
                        v_blank_wait: t.v_blank_wait || t.quirks.v_blank_quirks,
                        ..t
                    },
                ),
            }
        },
        Operation::SkipKey(x) => {
            if s.v[x as int] >= NUM_KEYS {
                Err(Chip8Error::OutOfRange)
            } else {
                skip_if(s, s.keys[s.v[x as int] as int])
            }
        },
        Operation::SkipNoKey(x) => {
            if s.v[x as int] >= NUM_KEYS {
                Err(Chip8Error::OutOfRange)
            } else {
                skip_if(s, !s.keys[s.v[x as int] as int])
            }
        },
        Operation::ReadDelay(x) => Ok(set_v(s, x as int, s.delay)),
        Operation::WaitKey(x) => {
            let k = first_pressed(s.keys, NUM_KEYS as nat);
            if k < NUM_KEYS {
                Ok(set_v(s, x as int, k as u8))
            } else if s.pc < 2 {
                Err(Chip8Error::OutOfRange)
            } else {
                Ok(MachineState { pc: (s.pc - 2) as u16, ..s })
            }
        },
        Operation::SetDelay(x) => Ok(MachineState { delay: s.v[x as int], ..s }),
        Operation::SetSound(x) => Ok(MachineState { sound: s.v[x as int], ..s }),
        Operation::AddIndex(x) => Ok(
            MachineState { index: ((s.index + s.v[x as int]) % 0x10000) as u16, ..s },
        ),
        Operation::Glyph(x) => Ok(MachineState { index: (s.v[x as int] * 5) as u16, ..s }),
        Operation::BigGlyph(x) => Ok(
            MachineState { index: (s.v[x as int] * 10 + FONTSET_SIZE) as u16, ..s },
        ),
        Operation::Bcd(x) => {
            if s.index + 3 > MEMORY_SIZE {
                Err(Chip8Error::OutOfRange)
            } else {
                let (h, t, o) = decimal_digits(s.v[x as int]);
                let i = s.index as int;
                Ok(
                    MachineState {
                        memory: s.memory.update(i, h).update(i + 1, t).update(i + 2, o),
                        ..s
                    },
                )
            }
        },
        Operation::Store(x) => {
            if s.index + x + 1 > MEMORY_SIZE {
                Err(Chip8Error::OutOfRange)
            } else {
                Ok(
                    MachineState {
                        memory: Seq::new(
                            s.memory.len(),
                            |a: int|
                                if s.index <= a <= s.index + x {
                                    s.v[a - s.index]
                                } else {
                                    s.memory[a]
                                },
                        ),
                        index: index_after_transfer(s, x as int),
                        ..s
                    },
                )
            }
        },
        Operation::Load(x) => {
            if s.index + x + 1 > MEMORY_SIZE {
                Err(Chip8Error::OutOfRange)
            } else {
                Ok(
                    MachineState {
                        v: Seq::new(
                            s.v.len(),
                            |j: int|
                                if j <= x {
                                    s.memory[s.index + j]
                                } else {
                                    s.v[j]
                                },
                        ),
                        index: index_after_transfer(s, x as int),
                        ..s
                    },
                )
            }
        },
        Operation::SaveFlags(x) => Ok(
            MachineState {
                rpl: Seq::new(
                    s.rpl.len(),
                    |j: int|
                        if j <= x {
                            s.v[j]
                        } else {
                            s.rpl[j]
                        },
                ),
                ..s
            },
        ),
        Operation::RestoreFlags(x) => Ok(
            MachineState {
                v: Seq::new(
                    s.v.len(),
                    |j: int|
                        if j <= x {
                            s.rpl[j]
                        } else {
                            s.v[j]
                        },
                ),
                ..s
            },
        ),
    }
}

/// Whether `r` and `after` are what an operation specified by `expected` leaves:
/// the new state on success; the error and the untouched state on failure.
pub open spec fn follows(
    before: MachineState,
    after: MachineState,
    r: Result<(), Chip8Error>,
    expected: Result<MachineState, Chip8Error>,
) -> bool {
    match expected {
        Ok(s) => r is Ok && after == s,
        Err(e) => r == Err::<(), Chip8Error>(e) && after == before,
    }
}

/// What an instruction word does: decode it, then execute it.
pub open spec fn execute_word(s: MachineState, op: u16, random_byte: u8) -> Result<
    MachineState,
    Chip8Error,
> {
    match decode_spec(op) {
        Err(e) => Err(e),
        Ok(o) => execute_spec(s, o, random_byte),
    }
}

/// The instruction word at `pc`, big-endian, with `pc` moved past it.
pub open spec fn fetch_spec(s: MachineState) -> Result<(MachineState, u16), Chip8Error> {
    if s.pc + 1 >= MEMORY_SIZE {
        Err(Chip8Error::OutOfRange)
    } else {
        Ok(
            (
                MachineState { pc: (s.pc + 2) as u16, ..s },
                (s.memory[s.pc as int] * 256 + s.memory[s.pc + 1]) as u16,
            ),
        )
    }
}

/// Whether the CPU is held until the next timer tick.
pub open spec fn stalled(s: MachineState) -> bool {
    s.v_blank_wait && s.quirks.v_blank_quirks
}

/// Whether the instruction word draws a random byte.
pub open spec fn needs_random(op: u16) -> bool {
    nibble(op, 0) == 0xC
}

/// Whether the next cycle fetches an instruction that draws a random byte.
pub open spec fn clock_draws_random(s: MachineState) -> bool {
    &&& !stalled(s)
    &&& fetch_spec(s) matches Ok((_, op)) && needs_random(op)
}

/// One CPU cycle: nothing while stalled, else fetch and execute.
pub open spec fn clock_spec(s: MachineState, random_byte: u8) -> Result<MachineState, Chip8Error> {
    if stalled(s) {
        Ok(s)
    } else {
        match fetch_spec(s) {
            Err(e) => Err(e),
            Ok((t, op)) => execute_word(t, op, random_byte),
        }
    }
}

/// One timer tick: the v-blank latch clears and both timers count down to zero.
pub open spec fn tick_spec(s: MachineState) -> MachineState {
    MachineState {
        v_blank_wait: false,
        delay: if s.delay > 0 {
            (s.delay - 1) as u8
        } else {
            0
        },
        sound: if s.sound > 0 {
            (s.sound - 1) as u8
        } else {
            0
        },
        ..s
    }
}

} // verus!
