//! Properties of the instruction semantics that hold for every machine state.

use vstd::prelude::*;
use vstd::arithmetic::div_mod::lemma_fundamental_div_mod_converse;
use crate::emu::{
    executes, fetched, nib1, nib2, nib3, nib4, sprite_covers, word_at, EmuError, EmuView, Step,
    RAM_SIZE, SCREEN_HEIGHT, SCREEN_SIZE, SCREEN_WIDTH, STACK_SIZE,
};

verus! {

/// The nibbles of a word assembled from four nibbles are those nibbles.
pub proof fn lemma_nibbles(op: u16, a: int, x: int, y: int, n: int)
    requires
        0 <= a < 16,
        0 <= x < 16,
        0 <= y < 16,
        0 <= n < 16,
        op == a * 4096 + x * 256 + y * 16 + n,
    ensures
        nib1(op) == a,
        nib2(op) == x,
        nib3(op) == y,
        nib4(op) == n,
{
    let w = op as int;
    lemma_fundamental_div_mod_converse(w, 4096, a, x * 256 + y * 16 + n);
    lemma_fundamental_div_mod_converse(w, 256, a * 16 + x, y * 16 + n);
    lemma_fundamental_div_mod_converse(a * 16 + x, 16, a, x);
    lemma_fundamental_div_mod_converse(w, 16, a * 256 + x * 16 + y, n);
    lemma_fundamental_div_mod_converse(a * 256 + x * 16 + y, 16, a * 16 + x, y);
}

/// `8XY4` adds with carry: VF is 1 exactly when the sum exceeds 255, and
/// (unless X is VF itself) V[X] holds the sum modulo 256.
pub proof fn law_add_with_carry(s: EmuView, x: int, y: int, rnd: u8, r: Result<Step, EmuError>, t: EmuView)
    requires
        s.wf(),
        0 <= x < 16,
        0 <= y < 16,
        executes(s, (0x8004 + x * 256 + y * 16) as u16, rnd, r, t),
    ensures
        r == Ok::<Step, EmuError>(Step::Executed),
        t.v[15] == 1 <==> s.v[x] + s.v[y] > 255,
        t.v[15] == 0 <==> s.v[x] + s.v[y] <= 255,
        x != 15 ==> t.v[x] == (s.v[x] + s.v[y]) % 256,
{
    lemma_nibbles((0x8004 + x * 256 + y * 16) as u16, 8, x, y, 4);
}

/// `7XNN` adds without carry: V[X] becomes (V[X] + NN) modulo 256 and VF is
/// left alone (unless X is VF itself).
pub proof fn law_add_immediate(s: EmuView, x: int, nn: int, rnd: u8, r: Result<Step, EmuError>, t: EmuView)
    requires
        s.wf(),
        0 <= x < 16,
        0 <= nn < 256,
        executes(s, (0x7000 + x * 256 + nn) as u16, rnd, r, t),
    ensures
        r == Ok::<Step, EmuError>(Step::Executed),
        t.v[x] == (s.v[x] + nn) % 256,
        x != 15 ==> t.v[15] == s.v[15],
{
    let op = (0x7000 + x * 256 + nn) as u16;
    lemma_nibbles(op, 7, x, nn / 16, nn % 16);
    lemma_fundamental_div_mod_converse(op as int, 256, 0x70 + x, nn);
}

/// `8XY5` subtracts. The flag is written first and V[X] after it, so with X
/// other than VF: VF is 1 exactly when V[X] > V[Y] before the operation, and
/// when Y is not VF either, V[X] holds the difference modulo 256.
pub proof fn law_sub_with_borrow(s: EmuView, x: int, y: int, rnd: u8, r: Result<Step, EmuError>, t: EmuView)
    requires
        s.wf(),
        0 <= x < 16,
        0 <= y < 16,
        executes(s, (0x8005 + x * 256 + y * 16) as u16, rnd, r, t),
    ensures
        r == Ok::<Step, EmuError>(Step::Executed),
        x != 15 ==> (t.v[15] == 1 <==> s.v[x] > s.v[y]),
        x != 15 ==> (t.v[15] == 0 <==> s.v[x] <= s.v[y]),
        x != 15 && y != 15 ==> t.v[x] == (s.v[x] - s.v[y]) % 256,
{
    lemma_nibbles((0x8005 + x * 256 + y * 16) as u16, 8, x, y, 5);
}

/// `8XY6` shifts right: unless X is VF, which the shifted value overwrites,
/// VF gets the bit shifted out and V[X] becomes V[X] >> 1.
pub proof fn law_shift_right(s: EmuView, x: int, y: int, rnd: u8, r: Result<Step, EmuError>, t: EmuView)
    requires
        s.wf(),
        0 <= x < 16,
        0 <= y < 16,
        executes(s, (0x8006 + x * 256 + y * 16) as u16, rnd, r, t),
    ensures
        r == Ok::<Step, EmuError>(Step::Executed),
        x != 15 ==> t.v[15] == s.v[x] & 1,
        x != 15 ==> t.v[x] == s.v[x] >> 1,
{
    lemma_nibbles((0x8006 + x * 256 + y * 16) as u16, 8, x, y, 6);
    let a = s.v[x];
    assert(a & 1 == a % 2 && a >> 1 == a / 2) by (bit_vector);
}

/// `00E0` leaves every cell of the framebuffer off, whatever was drawn.
pub proof fn law_clear_screen(s: EmuView, rnd: u8, r: Result<Step, EmuError>, t: EmuView)
    requires
        s.wf(),
        executes(s, 0x00E0, rnd, r, t),
    ensures
        r == Ok::<Step, EmuError>(Step::Executed),
        t.screen.len() == SCREEN_SIZE,
        forall|k: int| 0 <= k < SCREEN_SIZE ==> !t.screen[k],
{
    lemma_nibbles(0x00E0, 0, 0, 14, 0);
}

/// `DXYN` clips: a cell outside the rectangle that starts at (V[X], V[Y]) and
/// spans 8 columns and N rows keeps its value. Pixels past the right or
/// bottom edge land nowhere; a wrapped copy would land left of or above the
/// rectangle, where nothing changes.
pub proof fn law_draw_clips(
    s: EmuView,
    x: int,
    y: int,
    n: int,
    rnd: u8,
    r: Result<Step, EmuError>,
    t: EmuView,
    cx: int,
    cy: int,
)
    requires
        s.wf(),
        0 <= x < 16,
        0 <= y < 16,
        0 <= n < 16,
        executes(s, (0xD000 + x * 256 + y * 16 + n) as u16, rnd, r, t),
        r is Ok,
        0 <= cx < SCREEN_WIDTH,
        0 <= cy < SCREEN_HEIGHT,
        !(s.v[x] <= cx < s.v[x] + 8 && s.v[y] <= cy < s.v[y] + n),
    ensures
        t.screen[cy * SCREEN_WIDTH + cx] == s.screen[cy * SCREEN_WIDTH + cx],
{
    lemma_nibbles((0xD000 + x * 256 + y * 16 + n) as u16, 0xD, x, y, n);
    lemma_fundamental_div_mod_converse(cy * SCREEN_WIDTH + cx, SCREEN_WIDTH as int, cy, cx);
}

/// Drawing a sprite a second time at the same place restores every cell.
/// The second draw reports a collision when the first one turned some cell
/// on, that is when the sprite covers a cell that was off. X and Y must not
/// be VF, which the first draw rewrites.
pub proof fn law_draw_twice(
    s: EmuView,
    x: int,
    y: int,
    n: int,
    rnd1: u8,
    r1: Result<Step, EmuError>,
    t1: EmuView,
    rnd2: u8,
    r2: Result<Step, EmuError>,
    t2: EmuView,
)
    requires
        s.wf(),
        0 <= x < 15,
        0 <= y < 15,
        0 <= n < 16,
        s.i + n <= RAM_SIZE,
        executes(s, (0xD000 + x * 256 + y * 16 + n) as u16, rnd1, r1, t1),
        executes(t1, (0xD000 + x * 256 + y * 16 + n) as u16, rnd2, r2, t2),
        exists|k: int| 0 <= k < SCREEN_SIZE && !s.screen[k]
            && #[trigger] sprite_covers(s.ram, s.i as int, s.v[x] as int, s.v[y] as int, n, k),
    ensures
        r1 == Ok::<Step, EmuError>(Step::Executed),
        r2 == Ok::<Step, EmuError>(Step::Executed),
        t2.screen == s.screen,
        t2.v[15] == 1,
{
    lemma_nibbles((0xD000 + x * 256 + y * 16 + n) as u16, 0xD, x, y, n);
    let vx = s.v[x] as int;
    let vy = s.v[y] as int;
    let k0 = choose|k: int| 0 <= k < SCREEN_SIZE && !s.screen[k]
        && #[trigger] sprite_covers(s.ram, s.i as int, vx, vy, n, k);
    assert(t1.screen[k0] != s.screen[k0]);
    assert(t1.screen[k0] && sprite_covers(t1.ram, t1.i as int, t1.v[x] as int, t1.v[y] as int, n, k0));
    assert(t2.screen =~= s.screen);
}

/// `00EE` with an empty call stack is fatal and changes nothing.
pub proof fn law_return_underflow(s: EmuView, rnd: u8, r: Result<Step, EmuError>, t: EmuView)
    requires
        s.wf(),
        s.sp == 0,
        executes(s, 0x00EE, rnd, r, t),
    ensures
        r == Err::<Step, EmuError>(EmuError::StackUnderflow),
        t == s,
{
    lemma_nibbles(0x00EE, 0, 0, 14, 14);
}

/// A `2NNN` fetched at PC, then a `00EE` fetched at NNN, bring PC back to the
/// instruction right after the call and the stack pointer back where it was.
pub proof fn law_call_then_return(
    s: EmuView,
    rnd1: u8,
    r1: Result<Step, EmuError>,
    t1: EmuView,
    rnd2: u8,
    r2: Result<Step, EmuError>,
    t2: EmuView,
)
    requires
        s.wf(),
        s.sp < STACK_SIZE,
        s.pc + 1 < RAM_SIZE,
        nib1(word_at(s.ram, s.pc as int)) == 2,
        executes(fetched(s), word_at(s.ram, s.pc as int), rnd1, r1, t1),
        t1.pc + 1 < RAM_SIZE,
        word_at(t1.ram, t1.pc as int) == 0x00EE,
        executes(fetched(t1), 0x00EE, rnd2, r2, t2),
    ensures
        r1 == Ok::<Step, EmuError>(Step::Executed),
        r2 == Ok::<Step, EmuError>(Step::Executed),
        t2.pc == s.pc + 2,
        t2.sp == s.sp,
{
    lemma_nibbles(0x00EE, 0, 0, 14, 14);
}

} // verus!
