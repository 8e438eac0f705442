//! Properties that hold of every machine state, proved over the model.

use vstd::prelude::*;

use vstd::arithmetic::div_mod::{lemma_fundamental_div_mod, lemma_fundamental_div_mod_converse};

use crate::decode::{decode_spec, nibble, Chip8Error, Operation};
use crate::model::{
    clock_spec, draw_collides, draw_lights, draw_sprite, execute_spec, execute_word, sprite_hits, sprite_in_memory, stalled, MachineState,
    MEMORY_SIZE, SCREEN_CELLS, STACK_SIZE,
};
use crate::timing::{advance, NANOS_PER_SECOND};

verus! {

/// The sum of a sequence of elapsed times.
pub open spec fn total_elapsed(es: Seq<nat>) -> nat
    decreases es.len(),
{
    if es.len() == 0 {
        0
    } else {
        es[0] + total_elapsed(es.drop_first())
    }
}

/// The whole cycles a system at `frequency` hertz is given over successive
/// calls whose elapsed times are `es`, and the fraction left at the end.
pub open spec fn run_schedule(remainder: nat, es: Seq<nat>, frequency: nat) -> (nat, nat)
    decreases es.len(),
{
    if es.len() == 0 {
        (0, remainder)
    } else {
        let (cycles, rest) = advance(remainder, es[0], frequency);
        let (more, last) = run_schedule(rest, es.drop_first(), frequency);
        (cycles + more, last)
    }
}

/// Splitting a sum at a multiple of `d` splits its quotient the same way.
proof fn lemma_div_split(q: int, b: int, d: int)
    requires
        d > 0,
        b >= 0,
    ensures
        (q * d + b) / d == q + b / d,
        (q * d + b) % d == b % d,
{
    lemma_fundamental_div_mod(b, d);
    assert(q * d + b == (q + b / d) * d + b % d) by (nonlinear_arith)
        requires
            b == d * (b / d) + b % d,
    ;
    lemma_fundamental_div_mod_converse(q * d + b, d, q + b / d, b % d);
}

/// Successive calls carry exactly the remainder of one whole run: with
/// `remainder` (less than one cycle) carried in, they hand out `(remainder + T * F) / NANOS_PER_SECOND`
/// cycles in all and keep its remainder.
pub proof fn lemma_schedule_total(remainder: nat, es: Seq<nat>, frequency: nat)
    requires
        remainder < NANOS_PER_SECOND,
    ensures
        run_schedule(remainder, es, frequency) == (
            (remainder + total_elapsed(es) * frequency) / NANOS_PER_SECOND as nat,
            (remainder + total_elapsed(es) * frequency) % NANOS_PER_SECOND as nat,
        ),
    decreases es.len(),
{
    if es.len() > 0 {
        let n = NANOS_PER_SECOND as int;
        let a: int = remainder as int + es[0] * frequency;
        let rest = es.drop_first();
        lemma_schedule_total((a % n) as nat, rest, frequency);
        lemma_fundamental_div_mod(a, n);
        let b: int = a % n + total_elapsed(rest) * frequency;
        assert(remainder + total_elapsed(es) * frequency == (a / n) * n + b) by (nonlinear_arith)
            requires
                total_elapsed(es) == es[0] + total_elapsed(rest),
                a == remainder + es[0] * frequency,
                a == n * (a / n) + a % n,
                b == a % n + total_elapsed(rest) * frequency,
        ;
        lemma_div_split(a / n, b, n);
        assert(advance(remainder, es[0], frequency) == ((a / n) as nat, (a % n) as nat));
        assert(run_schedule((a % n) as nat, rest, frequency) == ((b / n) as nat, (b % n) as nat));
        assert(run_schedule(remainder, es, frequency).0 == a / n + b / n);
        assert(run_schedule(remainder, es, frequency).1 == b % n);
    } else {
        assert(total_elapsed(es) == 0);
        assert(remainder / NANOS_PER_SECOND as nat == 0);
    }
}

/// No cycle is lost to truncation: over any calls whose elapsed times add up to
/// `T` nanoseconds, a system at `F` hertz that starts with nothing carried is
/// given exactly `floor(T * F / NANOS_PER_SECOND)` cycles in all, that is the
/// whole cycles in `T` at `F`.
pub proof fn lemma_no_drift(es: Seq<nat>, frequency: nat)
    ensures
        run_schedule(0, es, frequency).0 == total_elapsed(es) * frequency / NANOS_PER_SECOND as nat,
{
    lemma_schedule_total(0, es, frequency);
}

/// The nibbles, low byte and address of a word built from four nibbles.
proof fn lemma_nibbles(op: u16, a: int, x: int, y: int, n: int)
    requires
        0 <= a < 16,
        0 <= x < 16,
        0 <= y < 16,
        0 <= n < 16,
        op == 0x1000 * a + 0x100 * x + 0x10 * y + n,
    ensures
        nibble(op, 0) == a,
        nibble(op, 1) == x,
        nibble(op, 2) == y,
        nibble(op, 3) == n,
        op % 0x100 == 0x10 * y + n,
        op % 0x1000 == 0x100 * x + 0x10 * y + n,
{
}

/// `6xNN` leaves `vx == NN`, whatever the machine held before.
pub proof fn lemma_load_immediate(s: MachineState, x: u8, nn: u8, random_byte: u8)
    requires
        s.valid(),
        x < 16,
    ensures
        execute_word(s, (0x6000 + 0x100 * x + nn) as u16, random_byte) matches Ok(t) && t.v[x as int]
            == nn,
{
    lemma_nibbles((0x6000 + 0x100 * x + nn) as u16, 6, x as int, nn as int / 0x10, nn as int % 0x10);
}

/// `8xy4` sets `vF` to 1 exactly when `vx + vy` exceeds 255, and `vx` (unless it
/// is `vF` itself) becomes the sum modulo 256.
pub proof fn lemma_add_carry(s: MachineState, x: u8, y: u8, random_byte: u8)
    requires
        s.valid(),
        x < 16,
        y < 16,
    ensures
        execute_word(s, (0x8004 + 0x100 * x + 0x10 * y) as u16, random_byte) matches Ok(t) && {
            &&& (t.v[15] == 1) == (s.v[x as int] + s.v[y as int] > 255)
            &&& (t.v[15] == 0) == (s.v[x as int] + s.v[y as int] <= 255)
            &&& x != 15 ==> t.v[x as int] == (s.v[x as int] + s.v[y as int]) % 256
        },
{
    let op = (0x8004 + 0x100 * x + 0x10 * y) as u16;
    lemma_nibbles(op, 8, x as int, y as int, 4);
    assert(decode_spec(op) == Ok::<Operation, Chip8Error>(Operation::AddReg(x, y)));
}

/// `8xy5` sets `vF` to 0 exactly when `vx < vy` (a borrow) and to 1 otherwise,
/// and `vx` (unless it is `vF` itself) becomes `vx - vy` modulo 256.
pub proof fn lemma_sub_borrow(s: MachineState, x: u8, y: u8, random_byte: u8)
    requires
        s.valid(),
        x < 16,
        y < 16,
    ensures
        execute_word(s, (0x8005 + 0x100 * x + 0x10 * y) as u16, random_byte) matches Ok(t) && {
            &&& (t.v[15] == 0) == (s.v[x as int] < s.v[y as int])
            &&& (t.v[15] == 1) == (s.v[x as int] >= s.v[y as int])
            &&& x != 15 ==> t.v[x as int] == (s.v[x as int] - s.v[y as int]) % 256
        },
{
    let op = (0x8005 + 0x100 * x + 0x10 * y) as u16;
    lemma_nibbles(op, 8, x as int, y as int, 5);
    assert(decode_spec(op) == Ok::<Operation, Chip8Error>(Operation::SubReg(x, y)));
}

/// `8xy6` shifts `vy` into `vx` when the shift quirk is off and shifts `vx` in
/// place when it is on; either way the shifted-out bit lands in `vF`.
pub proof fn lemma_shift_right(s: MachineState, x: u8, y: u8, random_byte: u8)
    requires
        s.valid(),
        x < 16,
        y < 16,
    ensures
        execute_word(s, (0x8006 + 0x100 * x + 0x10 * y) as u16, random_byte) matches Ok(t) && {
            let src = if s.quirks.shift_quirks {
                s.v[x as int]
            } else {
                s.v[y as int]
            };
            &&& t.v[15] == src % 2
            &&& x != 15 ==> t.v[x as int] == src / 2
        },
{
    let op = (0x8006 + 0x100 * x + 0x10 * y) as u16;
    lemma_nibbles(op, 8, x as int, y as int, 6);
    assert(decode_spec(op) == Ok::<Operation, Chip8Error>(Operation::ShiftRight(x, y)));
}

/// After `00E0` every cell of the whole buffer is dark, whatever the screen
/// held and whichever resolution is active.
pub proof fn lemma_clear_screen(s: MachineState, random_byte: u8)
    requires
        s.valid(),
    ensures
        execute_word(s, 0x00E0, random_byte) matches Ok(t) && t.screen.len() == SCREEN_CELLS && forall|
            i: int,
        |
            0 <= i < SCREEN_CELLS ==> !#[trigger] t.screen[i],
{
}

/// Running `2NNN` and then the `00EE` found at `NNN` brings `pc` back to the
/// instruction after the call, with the stack as it was.
pub proof fn lemma_call_return(s: MachineState, nnn: u16, b1: u8, b2: u8)
    requires
        s.valid(),
        !stalled(s),
        nnn < 0x1000,
        s.sp < STACK_SIZE,
        s.pc + 1 < MEMORY_SIZE,
        nnn + 1 < MEMORY_SIZE,
        s.memory[s.pc as int] == 0x20 + nnn / 0x100,
        s.memory[s.pc + 1] == nnn % 0x100,
        s.memory[nnn as int] == 0x00,
        s.memory[nnn + 1] == 0xEE,
    ensures
        clock_spec(s, b1) matches Ok(t) && clock_spec(t, b2) matches Ok(u) && u.pc == s.pc + 2
            && u.sp == s.sp,
{
    let t = clock_spec(s, b1)->Ok_0;
    assert(t.pc == nnn);
    assert(t.memory == s.memory);
}

/// Drawing the same sprite twice at the same place restores the screen, and
/// the second draw collides exactly when the first lit some cell.
pub proof fn lemma_draw_twice(s: MachineState, x0: int, y0: int, rows: int, wide: bool)
    requires
        s.valid(),
        sprite_in_memory(s, rows, wide),
    ensures
        draw_sprite(s, x0, y0, rows, wide) matches Ok((t, _)) && draw_sprite(
            t,
            x0,
            y0,
            rows,
            wide,
        ) matches Ok((u, hit)) && u.screen == s.screen && hit == draw_lights(s, x0, y0, rows, wide),
{
    let t = draw_sprite(s, x0, y0, rows, wide)->Ok_0.0;
    assert forall|i: int| #[trigger] sprite_hits(t, x0, y0, rows, wide, i) == sprite_hits(s, x0, y0, rows, wide, i) by {}
    let u = draw_sprite(t, x0, y0, rows, wide)->Ok_0.0;
    assert(u.screen =~= s.screen);
    let hit = draw_sprite(t, x0, y0, rows, wide)->Ok_0.1;
    if hit {
        let i = choose|i: int| #[trigger] sprite_hits(t, x0, y0, rows, wide, i) && t.screen[i];
        assert(sprite_hits(s, x0, y0, rows, wide, i) && !s.screen[i]);
    }
    if draw_lights(s, x0, y0, rows, wide) {
        let i = choose|i: int| #[trigger] sprite_hits(s, x0, y0, rows, wide, i) && !s.screen[i];
        assert(sprite_hits(t, x0, y0, rows, wide, i) && t.screen[i]);
    }
}

/// The word `Dxyn` decodes to a draw of `n` rows at `(vx, vy)`.
proof fn lemma_decode_draw(x: u8, y: u8, n: u8)
    requires
        x < 16,
        y < 16,
        n < 16,
    ensures
        decode_spec((0xD000 + 0x100 * x + 0x10 * y + n) as u16) == Ok::<Operation, Chip8Error>(
            Operation::Draw(x, y, n),
        ),
{
    lemma_nibbles((0xD000 + 0x100 * x + 0x10 * y + n) as u16, 0xD, x as int, y as int, n as int);
}

/// A draw's screen and collision depend only on the screen, the sprite's bytes,
/// the resolution and the profile.
proof fn lemma_draw_depends(a: MachineState, b: MachineState, x0: int, y0: int, rows: int, wide: bool)
    requires
        a.screen == b.screen,
        a.memory == b.memory,
        a.index == b.index,
        a.hires == b.hires,
        a.quirks == b.quirks,
        sprite_in_memory(a, rows, wide),
    ensures
        draw_sprite(a, x0, y0, rows, wide)->Ok_0.0.screen == draw_sprite(b, x0, y0, rows, wide)->Ok_0.0.screen,
        draw_sprite(a, x0, y0, rows, wide)->Ok_0.1 == draw_sprite(b, x0, y0, rows, wide)->Ok_0.1,
{
    assert forall|i: int| #[trigger] sprite_hits(a, x0, y0, rows, wide, i) == sprite_hits(b, x0, y0, rows, wide, i) by {}
    assert(draw_sprite(a, x0, y0, rows, wide)->Ok_0.0.screen =~= draw_sprite(b, x0, y0, rows, wide)->Ok_0.0.screen);
    if draw_collides(a, x0, y0, rows, wide) {
        let i = choose|i: int| #[trigger] sprite_hits(a, x0, y0, rows, wide, i) && a.screen[i];
        assert(sprite_hits(b, x0, y0, rows, wide, i) && b.screen[i]);
    }
    if draw_collides(b, x0, y0, rows, wide) {
        let i = choose|i: int| #[trigger] sprite_hits(b, x0, y0, rows, wide, i) && b.screen[i];
        assert(sprite_hits(a, x0, y0, rows, wide, i) && a.screen[i]);
    }
}

/// Executing `Dxyn` twice in a row (with neither coordinate register being `vF`,
/// so that both draws use the same coordinates) restores the screen, and the
/// second draw sets `vF` to 1 exactly when the first lit some cell.
pub proof fn lemma_draw_instruction_twice(s: MachineState, x: u8, y: u8, n: u8, b1: u8, b2: u8)
    requires
        s.valid(),
        x < 15,
        y < 15,
        n < 16,
        sprite_in_memory(s, n as int, s.hires && n == 0),
    ensures
        ({
            let op = (0xD000 + 0x100 * x + 0x10 * y + n) as u16;
            let wide = s.hires && n == 0;
            let (x0, y0) = (s.v[x as int] as int, s.v[y as int] as int);
            &&& execute_word(s, op, b1) matches Ok(t)
            &&& execute_word(t, op, b2) matches Ok(u)
            &&& u.screen == s.screen
            &&& (u.v[15] == 1) == draw_lights(s, x0, y0, n as int, wide)
        }),
{
    let op = (0xD000 + 0x100 * x + 0x10 * y + n) as u16;
    let wide = s.hires && n == 0;
    let x0 = s.v[x as int] as int;
    let y0 = s.v[y as int] as int;
    lemma_decode_draw(x, y, n);
    lemma_draw_twice(s, x0, y0, n as int, wide);
    let d1 = draw_sprite(s, x0, y0, n as int, wide)->Ok_0.0;
    let t = execute_spec(s, Operation::Draw(x, y, n), b1)->Ok_0;
    assert(t.v[x as int] == s.v[x as int] && t.v[y as int] == s.v[y as int]);
    lemma_draw_depends(t, d1, x0, y0, n as int, wide);
    assert(execute_word(s, op, b1) == Ok::<MachineState, Chip8Error>(t));
    let u = execute_spec(t, Operation::Draw(x, y, n), b2)->Ok_0;
    assert(execute_word(t, op, b2) == Ok::<MachineState, Chip8Error>(u));
    let d2 = draw_sprite(d1, x0, y0, n as int, wide)->Ok_0;
    assert(u.screen == d2.0.screen);
    assert(u.v[15] == if d2.1 {
        1u8
    } else {
        0u8
    });
    assert(u.screen == s.screen);
}

} // verus!
