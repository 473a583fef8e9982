use vstd::prelude::*;

use crate::fault::Fault;
use crate::font;
use crate::mem::{be_word, write_seq, MEM_SIZE, START_ADDRESS};

verus! {

/// Width of the display in pixels.
pub const SCREEN_WIDTH: usize = 64;

/// Height of the display in pixels.
pub const SCREEN_HEIGHT: usize = 32;

/// Bytes one instruction word occupies in memory.
pub const OPCODE_SIZE: u16 = 2;

/// Mathematical model of the whole machine: program counter, memory image,
/// call stack (bottom first), index register, the sixteen 8-bit registers,
/// the two timers, the row-major display grid, the keypad, and the dirty
/// flag the host polls before redrawing.
#[verifier::ext_equal]
pub ghost struct CpuView {
    pub pc: u16,
    pub ram: Seq<u8>,
    pub stack: Seq<u16>,
    pub i_reg: u16,
    pub v_reg: Seq<u8>,
    pub delay_timer: u8,
    pub sound_timer: u8,
    pub display: Seq<bool>,
    pub keypad: Seq<bool>,
    pub draw_flag: bool,
}

/// Number of cells in the display grid.
pub open spec fn display_len() -> nat {
    (SCREEN_WIDTH * SCREEN_HEIGHT) as nat
}

impl CpuView {
    /// The dimensions every reachable machine state keeps.
    pub open spec fn wf(self) -> bool {
        &&& self.ram.len() == MEM_SIZE
        &&& self.stack.len() <= 16
        &&& self.v_reg.len() == 16
        &&& self.display.len() == display_len()
        &&& self.keypad.len() == 16
    }
}

/// Memory at power-on: all zero but for the font table.
pub open spec fn fresh_ram() -> Seq<u8> {
    font::with_font(Seq::new(MEM_SIZE as nat, |i: int| 0u8))
}

/// The power-on state: `reset` and `new` both establish it.
pub open spec fn initial_state() -> CpuView {
    CpuView {
        pc: START_ADDRESS,
        ram: fresh_ram(),
        stack: Seq::empty(),
        i_reg: 0,
        v_reg: Seq::new(16, |i: int| 0u8),
        delay_timer: 0,
        sound_timer: 0,
        display: Seq::new(display_len(), |i: int| false),
        keypad: Seq::new(16, |i: int| false),
        draw_flag: true,
    }
}

// Fields of an instruction word.
pub open spec fn nib1(op: u16) -> u16 {
    op >> 12
}

pub open spec fn nib2(op: u16) -> u16 {
    (op >> 8) & 0xF
}

pub open spec fn nib3(op: u16) -> u16 {
    (op >> 4) & 0xF
}

pub open spec fn nib4(op: u16) -> u16 {
    op & 0xF
}

pub open spec fn imm_byte(op: u16) -> u8 {
    (op & 0xFF) as u8
}

pub open spec fn imm_addr(op: u16) -> u16 {
    op & 0xFFF
}

/// 8-bit wraparound of a non-negative value.
pub open spec fn wrap8(n: int) -> u8 {
    (n % 256) as u8
}

/// 16-bit wraparound of a non-negative value.
pub open spec fn wrap16(n: int) -> u16 {
    (n % 0x10000) as u16
}

/// 8-bit subtraction with wraparound on borrow.
pub open spec fn sub8(a: u8, b: u8) -> u8 {
    wrap8(a - b + 256)
}

// The operation semantics. Each takes the state with the program counter
// already advanced past the instruction and yields the state after the
// operation; the fallible ones yield the fault that ends the session instead.

/// Clear display: every cell off, display marked dirty.
pub open spec fn op_cls(s: CpuView) -> CpuView {
    CpuView { display: Seq::new(display_len(), |i: int| false), draw_flag: true, ..s }
}

/// Return: pop the stack into the program counter.
pub open spec fn op_ret(s: CpuView) -> Result<CpuView, Fault> {
    if s.stack.len() == 0 {
        Err(Fault::StackUnderflow)
    } else {
        Ok(CpuView { pc: s.stack.last(), stack: s.stack.drop_last(), ..s })
    }
}

/// Jump to an absolute address.
pub open spec fn op_jump(s: CpuView, addr: u16) -> CpuView {
    CpuView { pc: addr, ..s }
}

/// Call: push the current (already advanced) program counter, then jump.
pub open spec fn op_call(s: CpuView, addr: u16) -> Result<CpuView, Fault> {
    if s.stack.len() >= 16 {
        Err(Fault::StackOverflow)
    } else {
        Ok(CpuView { stack: s.stack.push(s.pc), pc: addr, ..s })
    }
}

/// One extra instruction width of program-counter advance when `cond` holds.
pub open spec fn skip_if(s: CpuView, cond: bool) -> CpuView {
    if cond {
        CpuView { pc: (s.pc + OPCODE_SIZE) as u16, ..s }
    } else {
        s
    }
}

pub open spec fn op_skip_eq_imm(s: CpuView, x: int, nn: u8) -> CpuView {
    skip_if(s, s.v_reg[x] == nn)
}

pub open spec fn op_skip_ne_imm(s: CpuView, x: int, nn: u8) -> CpuView {
    skip_if(s, s.v_reg[x] != nn)
}

pub open spec fn op_skip_eq_reg(s: CpuView, x: int, y: int) -> CpuView {
    skip_if(s, s.v_reg[x] == s.v_reg[y])
}

pub open spec fn op_skip_ne_reg(s: CpuView, x: int, y: int) -> CpuView {
    skip_if(s, s.v_reg[x] != s.v_reg[y])
}

/// Load immediate; no flag side effect.
pub open spec fn op_load_imm(s: CpuView, x: int, nn: u8) -> CpuView {
    CpuView { v_reg: s.v_reg.update(x, nn), ..s }
}

/// Add immediate modulo 256; no flag side effect.
pub open spec fn op_add_imm(s: CpuView, x: int, nn: u8) -> CpuView {
    CpuView { v_reg: s.v_reg.update(x, wrap8(s.v_reg[x] + nn)), ..s }
}

pub open spec fn op_copy_reg(s: CpuView, x: int, y: int) -> CpuView {
    CpuView { v_reg: s.v_reg.update(x, s.v_reg[y]), ..s }
}

pub open spec fn op_or_reg(s: CpuView, x: int, y: int) -> CpuView {
    CpuView { v_reg: s.v_reg.update(x, s.v_reg[x] | s.v_reg[y]), ..s }
}

pub open spec fn op_and_reg(s: CpuView, x: int, y: int) -> CpuView {
    CpuView { v_reg: s.v_reg.update(x, s.v_reg[x] & s.v_reg[y]), ..s }
}

pub open spec fn op_xor_reg(s: CpuView, x: int, y: int) -> CpuView {
    CpuView { v_reg: s.v_reg.update(x, s.v_reg[x] ^ s.v_reg[y]), ..s }
}

/// Add with carry: the sum modulo 256 lands in `Vx` first, then the carry bit
/// of the pre-wrap sum lands in `VF`; when `x` is 15 the flag wins.
pub open spec fn op_add_carry(s: CpuView, x: int, y: int) -> CpuView {
    let total = s.v_reg[x] + s.v_reg[y];
    let flag: u8 = if total > 255 { 1 } else { 0 };
    CpuView { v_reg: s.v_reg.update(x, wrap8(total)).update(15, flag), ..s }
}

/// Subtract `Vy` from `Vx`: `VF` reports "no borrow" (minuend at least the
/// subtrahend) and is written before the difference is computed, so when `x`
/// or `y` is 15 the flag value feeds the subtraction.
pub open spec fn op_sub_borrow(s: CpuView, x: int, y: int) -> CpuView {
    let flag: u8 = if s.v_reg[x] >= s.v_reg[y] { 1 } else { 0 };
    let v1 = s.v_reg.update(15, flag);
    CpuView { v_reg: v1.update(x, sub8(v1[x], v1[y])), ..s }
}

/// Subtract `Vx` from `Vy` into `Vx`; flag discipline as in `op_sub_borrow`.
pub open spec fn op_subn_borrow(s: CpuView, x: int, y: int) -> CpuView {
    let flag: u8 = if s.v_reg[y] >= s.v_reg[x] { 1 } else { 0 };
    let v1 = s.v_reg.update(15, flag);
    CpuView { v_reg: v1.update(x, sub8(v1[y], v1[x])), ..s }
}

/// Shift right: the bit shifted out lands in `VF` before the shift; the
/// second operand register of the encoding is not read.
pub open spec fn op_shr(s: CpuView, x: int) -> CpuView {
    let flag: u8 = s.v_reg[x] & 1;
    let v1 = s.v_reg.update(15, flag);
    CpuView { v_reg: v1.update(x, v1[x] >> 1), ..s }
}

/// Shift left: the bit shifted out lands in `VF` before the shift; the
/// second operand register of the encoding is not read.
pub open spec fn op_shl(s: CpuView, x: int) -> CpuView {
    let flag: u8 = (s.v_reg[x] & 0x80) >> 7;
    let v1 = s.v_reg.update(15, flag);
    CpuView { v_reg: v1.update(x, v1[x] << 1), ..s }
}

/// Load the index register.
pub open spec fn op_set_i(s: CpuView, addr: u16) -> CpuView {
    CpuView { i_reg: addr, ..s }
}

/// Jump with offset: target is the 12-bit immediate plus `V0`.
pub open spec fn op_jump_v0(s: CpuView, addr: u16) -> CpuView {
    CpuView { pc: (addr + s.v_reg[0]) as u16, ..s }
}

/// Random: a byte from the host's generator masked by the immediate.
pub open spec fn op_random(s: CpuView, x: int, nn: u8, rnd: u8) -> CpuView {
    CpuView { v_reg: s.v_reg.update(x, rnd & nn), ..s }
}

/// The pixel of sprite row byte `row` at column offset `j` (0 is leftmost).
pub open spec fn sprite_row_bit(row: u8, j: int) -> bool {
    row & (0x80u8 >> (j as u8)) != 0
}

/// Whether `pos` lies in the clipped box of a sprite of `n` rows drawn at
/// origin `(ox, oy)`: rows and columns that would leave the grid are dropped,
/// not wrapped.
pub open spec fn draw_covers(ox: int, oy: int, n: int, pos: int) -> bool {
    &&& oy <= pos / (SCREEN_WIDTH as int) < oy + n
    &&& ox <= pos % (SCREEN_WIDTH as int) < ox + 8
}

/// The sprite pixel that lands on display cell `pos`.
pub open spec fn draw_bit(s: CpuView, ox: int, oy: int, pos: int) -> bool {
    sprite_row_bit(
        s.ram[s.i_reg + (pos / (SCREEN_WIDTH as int) - oy)],
        pos % (SCREEN_WIDTH as int) - ox,
    )
}

/// The display after a sprite draw: covered cells are XORed with the sprite,
/// all others are kept.
pub open spec fn draw_display(s: CpuView, ox: int, oy: int, n: int) -> Seq<bool> {
    Seq::new(
        display_len(),
        |pos: int|
            if draw_covers(ox, oy, n, pos) && draw_bit(s, ox, oy, pos) {
                !s.display[pos]
            } else {
                s.display[pos]
            },
    )
}

/// Whether the draw turns some lit cell off: a sprite pixel meets a lit cell.
pub open spec fn draw_collision(s: CpuView, ox: int, oy: int, n: int) -> bool {
    exists|pos: int|
        0 <= pos < display_len() && draw_covers(ox, oy, n, pos) && draw_bit(s, ox, oy, pos)
            && #[trigger] s.display[pos]
}

/// The cells a row-major, column-inner walk of the sprite box has reached:
/// every cell on a row before `rows`, and the cells before column `cols` on
/// row `rows` itself (row and column counted from the sprite origin).
pub open spec fn draw_processed(ox: int, oy: int, rows: int, cols: int, pos: int) -> bool {
    let r = pos / (SCREEN_WIDTH as int) - oy;
    let c = pos % (SCREEN_WIDTH as int) - ox;
    r < rows || (r == rows && c < cols)
}

/// The display in the middle of a draw: only reached cells are XORed yet.
pub open spec fn draw_display_partial(
    s: CpuView,
    ox: int,
    oy: int,
    n: int,
    rows: int,
    cols: int,
) -> Seq<bool> {
    Seq::new(
        display_len(),
        |pos: int|
            if draw_covers(ox, oy, n, pos) && draw_processed(ox, oy, rows, cols, pos) && draw_bit(
                s,
                ox,
                oy,
                pos,
            ) {
                !s.display[pos]
            } else {
                s.display[pos]
            },
    )
}

/// Whether a collision has shown up among the reached cells.
pub open spec fn draw_collision_partial(
    s: CpuView,
    ox: int,
    oy: int,
    n: int,
    rows: int,
    cols: int,
) -> bool {
    exists|pos: int|
        0 <= pos < display_len() && draw_covers(ox, oy, n, pos) && draw_processed(
            ox,
            oy,
            rows,
            cols,
            pos,
        ) && draw_bit(s, ox, oy, pos) && #[trigger] s.display[pos]
}

/// Row and column recombine into the one cell they name.
pub proof fn lemma_pos_coords(row: int, col: int)
    requires
        0 <= row < SCREEN_HEIGHT,
        0 <= col < SCREEN_WIDTH,
    ensures
        (row * (SCREEN_WIDTH as int) + col) / (SCREEN_WIDTH as int) == row,
        (row * (SCREEN_WIDTH as int) + col) % (SCREEN_WIDTH as int) == col,
        0 <= row * (SCREEN_WIDTH as int) + col < display_len(),
{
    vstd::arithmetic::div_mod::lemma_fundamental_div_mod_converse(
        row * (SCREEN_WIDTH as int) + col,
        SCREEN_WIDTH as int,
        row,
        col,
    );
}

/// A cell splits into its row and column.
pub proof fn lemma_pos_decompose(pos: int)
    requires
        0 <= pos < display_len(),
    ensures
        pos == (SCREEN_WIDTH as int) * (pos / (SCREEN_WIDTH as int)) + pos % (SCREEN_WIDTH as int),
        0 <= pos / (SCREEN_WIDTH as int) < SCREEN_HEIGHT,
        0 <= pos % (SCREEN_WIDTH as int) < SCREEN_WIDTH,
{
    vstd::arithmetic::div_mod::lemma_fundamental_div_mod(pos, SCREEN_WIDTH as int);
    vstd::arithmetic::div_mod::lemma_mod_bound(pos, SCREEN_WIDTH as int);
}

/// What one cell of the walk does: the reached set grows by exactly the cell
/// at sprite row `ri`, column `ci`, whose XOR and collision contribution are
/// those of the sprite bit that lands there.
pub proof fn lemma_draw_step(s: CpuView, ox: int, oy: int, n: int, ri: int, ci: int)
    requires
        s.wf(),
        0 <= ox < SCREEN_WIDTH,
        0 <= oy < SCREEN_HEIGHT,
        0 <= ri < n,
        oy + ri < SCREEN_HEIGHT,
        0 <= ci < 8,
        ox + ci < SCREEN_WIDTH,
    ensures
        ({
            let w = SCREEN_WIDTH as int;
            let pos = (oy + ri) * w + (ox + ci);
            let hit = draw_bit(s, ox, oy, pos);
            &&& 0 <= pos < display_len()
            &&& pos / w == oy + ri
            &&& pos % w == ox + ci
            &&& draw_covers(ox, oy, n, pos)
            &&& draw_display_partial(s, ox, oy, n, ri, ci)[pos] == s.display[pos]
            &&& draw_display_partial(s, ox, oy, n, ri, ci + 1) =~= draw_display_partial(
                s,
                ox,
                oy,
                n,
                ri,
                ci,
            ).update(
                pos,
                if hit {
                    !s.display[pos]
                } else {
                    s.display[pos]
                },
            )
            &&& draw_collision_partial(s, ox, oy, n, ri, ci + 1) == (draw_collision_partial(
                s,
                ox,
                oy,
                n,
                ri,
                ci,
            ) || (hit && s.display[pos]))
        }),
{
    let w = SCREEN_WIDTH as int;
    let pos = (oy + ri) * w + (ox + ci);
    let hit = draw_bit(s, ox, oy, pos);
    lemma_pos_coords(oy + ri, ox + ci);
    assert forall|p: int|
        #![trigger draw_display_partial(s, ox, oy, n, ri, ci + 1)[p]]
        0 <= p < display_len() implies draw_display_partial(
        s,
        ox,
        oy,
        n,
        ri,
        ci + 1,
    )[p] == draw_display_partial(s, ox, oy, n, ri, ci).update(
        pos,
        if hit {
            !s.display[pos]
        } else {
            s.display[pos]
        },
    )[p] by {
        lemma_pos_decompose(p);
    }
    assert(draw_display_partial(s, ox, oy, n, ri, ci + 1) =~= draw_display_partial(
        s,
        ox,
        oy,
        n,
        ri,
        ci,
    ).update(
        pos,
        if hit {
            !s.display[pos]
        } else {
            s.display[pos]
        },
    ));
    if draw_collision_partial(s, ox, oy, n, ri, ci) {
        let p0 = choose|p: int|
            0 <= p < display_len() && draw_covers(ox, oy, n, p) && draw_processed(ox, oy, ri, ci, p)
                && draw_bit(s, ox, oy, p) && #[trigger] s.display[p];
        assert(draw_processed(ox, oy, ri, ci + 1, p0));
        assert(draw_collision_partial(s, ox, oy, n, ri, ci + 1));
    }
    if hit && s.display[pos] {
        assert(draw_processed(ox, oy, ri, ci + 1, pos));
        assert(draw_collision_partial(s, ox, oy, n, ri, ci + 1));
    }
    if draw_collision_partial(s, ox, oy, n, ri, ci + 1) {
        let p1 = choose|p: int|
            0 <= p < display_len() && draw_covers(ox, oy, n, p) && draw_processed(
                ox,
                oy,
                ri,
                ci + 1,
                p,
            ) && draw_bit(s, ox, oy, p) && #[trigger] s.display[p];
        lemma_pos_decompose(p1);
        if p1 == pos {
            assert(hit && s.display[pos]);
        } else {
            assert(draw_processed(ox, oy, ri, ci, p1));
            assert(draw_collision_partial(s, ox, oy, n, ri, ci));
        }
    }
}

/// Finishing a row (by its eighth column or the right screen edge) reaches
/// the same cells as standing at the start of the next row.
pub proof fn lemma_draw_row_done(s: CpuView, ox: int, oy: int, n: int, ri: int, cexit: int)
    requires
        0 <= ox < SCREEN_WIDTH,
        0 <= oy < SCREEN_HEIGHT,
        0 <= ri,
        0 <= cexit <= 8,
        cexit == 8 || ox + cexit == SCREEN_WIDTH,
    ensures
        draw_display_partial(s, ox, oy, n, ri, cexit) =~= draw_display_partial(
            s,
            ox,
            oy,
            n,
            ri + 1,
            0,
        ),
        draw_collision_partial(s, ox, oy, n, ri, cexit) == draw_collision_partial(
            s,
            ox,
            oy,
            n,
            ri + 1,
            0,
        ),
{
    assert forall|p: int|
        #![trigger draw_covers(ox, oy, n, p)]
        0 <= p < display_len() implies (draw_covers(ox, oy, n, p)
        && draw_processed(ox, oy, ri, cexit, p)) == (draw_covers(ox, oy, n, p) && draw_processed(
        ox,
        oy,
        ri + 1,
        0,
        p,
    )) by {
        lemma_pos_decompose(p);
    }
    assert forall|p: int|
        #![trigger draw_display_partial(s, ox, oy, n, ri, cexit)[p]]
        0 <= p < display_len() implies draw_display_partial(
        s,
        ox,
        oy,
        n,
        ri,
        cexit,
    )[p] == draw_display_partial(s, ox, oy, n, ri + 1, 0)[p] by {
        lemma_pos_decompose(p);
    }
    assert(draw_display_partial(s, ox, oy, n, ri, cexit) =~= draw_display_partial(
        s,
        ox,
        oy,
        n,
        ri + 1,
        0,
    ));
    if draw_collision_partial(s, ox, oy, n, ri, cexit) {
        let p0 = choose|p: int|
            0 <= p < display_len() && draw_covers(ox, oy, n, p) && draw_processed(
                ox,
                oy,
                ri,
                cexit,
                p,
            ) && draw_bit(s, ox, oy, p) && #[trigger] s.display[p];
        lemma_pos_decompose(p0);
        assert(draw_collision_partial(s, ox, oy, n, ri + 1, 0));
    }
    if draw_collision_partial(s, ox, oy, n, ri + 1, 0) {
        let p1 = choose|p: int|
            0 <= p < display_len() && draw_covers(ox, oy, n, p) && draw_processed(
                ox,
                oy,
                ri + 1,
                0,
                p,
            ) && draw_bit(s, ox, oy, p) && #[trigger] s.display[p];
        lemma_pos_decompose(p1);
        assert(draw_processed(ox, oy, ri, cexit, p1));
        assert(draw_collision_partial(s, ox, oy, n, ri, cexit));
    }
}

/// Before any cell is reached nothing is XORed and no collision is seen.
pub proof fn lemma_draw_start(s: CpuView, ox: int, oy: int, n: int)
    requires
        s.wf(),
        0 <= ox < SCREEN_WIDTH,
        0 <= oy < SCREEN_HEIGHT,
    ensures
        draw_display_partial(s, ox, oy, n, 0, 0) =~= s.display,
        !draw_collision_partial(s, ox, oy, n, 0, 0),
{
    assert forall|p: int|
        #![trigger draw_display_partial(s, ox, oy, n, 0, 0)[p]]
        0 <= p < display_len() implies draw_display_partial(
        s,
        ox,
        oy,
        n,
        0,
        0,
    )[p] == s.display[p] by {
        lemma_pos_decompose(p);
    }
    assert(draw_display_partial(s, ox, oy, n, 0, 0) =~= s.display);
    assert forall|p: int|
        #![trigger s.display[p]]
        !(0 <= p < display_len() && draw_covers(ox, oy, n, p) && draw_processed(ox, oy, 0, 0, p)
            && draw_bit(s, ox, oy, p) && s.display[p]) by {
        if 0 <= p < display_len() {
            lemma_pos_decompose(p);
        }
    }
}

/// Passing the last row (by the sprite's height or the bottom screen edge)
/// reaches every covered cell: the walk has performed the whole draw.
pub proof fn lemma_draw_done(s: CpuView, ox: int, oy: int, n: int, rexit: int)
    requires
        0 <= ox < SCREEN_WIDTH,
        0 <= oy < SCREEN_HEIGHT,
        0 <= rexit <= n,
        rexit == n || oy + rexit == SCREEN_HEIGHT,
    ensures
        draw_display_partial(s, ox, oy, n, rexit, 0) =~= draw_display(s, ox, oy, n),
        draw_collision_partial(s, ox, oy, n, rexit, 0) == draw_collision(s, ox, oy, n),
{
    assert forall|p: int|
        #![trigger draw_covers(ox, oy, n, p)]
        0 <= p < display_len() implies (draw_covers(ox, oy, n, p)
        && draw_processed(ox, oy, rexit, 0, p)) == draw_covers(ox, oy, n, p) by {
        lemma_pos_decompose(p);
    }
    assert forall|p: int|
        #![trigger draw_display_partial(s, ox, oy, n, rexit, 0)[p]]
        0 <= p < display_len() implies draw_display_partial(
        s,
        ox,
        oy,
        n,
        rexit,
        0,
    )[p] == draw_display(s, ox, oy, n)[p] by {
        lemma_pos_decompose(p);
    }
    assert(draw_display_partial(s, ox, oy, n, rexit, 0) =~= draw_display(s, ox, oy, n));
    if draw_collision_partial(s, ox, oy, n, rexit, 0) {
        let p0 = choose|p: int|
            0 <= p < display_len() && draw_covers(ox, oy, n, p) && draw_processed(
                ox,
                oy,
                rexit,
                0,
                p,
            ) && draw_bit(s, ox, oy, p) && #[trigger] s.display[p];
        assert(draw_collision(s, ox, oy, n));
    }
    if draw_collision(s, ox, oy, n) {
        let p1 = choose|p: int|
            0 <= p < display_len() && draw_covers(ox, oy, n, p) && draw_bit(s, ox, oy, p)
                && #[trigger] s.display[p];
        lemma_pos_decompose(p1);
        assert(draw_processed(ox, oy, rexit, 0, p1));
        assert(draw_collision_partial(s, ox, oy, n, rexit, 0));
    }
}

/// Draw sprite: `n` rows read from memory at the index register, origin taken
/// from `Vx` and `Vy` modulo the screen size, clipped at the right and bottom
/// edges; `VF` reports a collision anywhere in the sprite; the display is
/// marked dirty even when no cell changes.
pub open spec fn op_draw(s: CpuView, x: int, y: int, n: int) -> Result<CpuView, Fault> {
    if s.i_reg + n > MEM_SIZE {
        Err(Fault::OutOfBounds)
    } else {
        let ox = s.v_reg[x] % (SCREEN_WIDTH as u8);
        let oy = s.v_reg[y] % (SCREEN_HEIGHT as u8);
        Ok(
            CpuView {
                display: draw_display(s, ox as int, oy as int, n),
                v_reg: s.v_reg.update(
                    15,
                    if draw_collision(s, ox as int, oy as int, n) {
                        1u8
                    } else {
                        0u8
                    },
                ),
                draw_flag: true,
                ..s
            },
        )
    }
}

/// Skip if the key indexed by `Vx` is pressed; an index outside the 16-key
/// pad is a bounds fault.
pub open spec fn op_skip_key(s: CpuView, x: int) -> Result<CpuView, Fault> {
    if s.v_reg[x] >= 16 {
        Err(Fault::OutOfBounds)
    } else {
        Ok(skip_if(s, s.keypad[s.v_reg[x] as int]))
    }
}

/// Skip if the key indexed by `Vx` is not pressed.
pub open spec fn op_skip_nokey(s: CpuView, x: int) -> Result<CpuView, Fault> {
    if s.v_reg[x] >= 16 {
        Err(Fault::OutOfBounds)
    } else {
        Ok(skip_if(s, !s.keypad[s.v_reg[x] as int]))
    }
}

pub open spec fn op_read_delay(s: CpuView, x: int) -> CpuView {
    CpuView { v_reg: s.v_reg.update(x, s.delay_timer), ..s }
}

/// The lowest pressed key index at or above `k`, or 16 when none is.
pub open spec fn first_pressed(keypad: Seq<bool>, k: int) -> int
    decreases 16 - k,
{
    if k < 0 || k >= 16 {
        16
    } else if keypad[k] {
        k
    } else {
        first_pressed(keypad, k + 1)
    }
}

/// Wait for key: with no key pressed the program counter rewinds one
/// instruction width so the instruction re-executes (a busy poll); once some
/// key is pressed, the lowest pressed index lands in `Vx` and execution
/// advances normally.
pub open spec fn op_wait_key(s: CpuView, x: int) -> CpuView {
    let k = first_pressed(s.keypad, 0);
    if k == 16 {
        CpuView { pc: (s.pc - OPCODE_SIZE) as u16, ..s }
    } else {
        CpuView { v_reg: s.v_reg.update(x, k as u8), ..s }
    }
}

pub open spec fn op_set_delay(s: CpuView, x: int) -> CpuView {
    CpuView { delay_timer: s.v_reg[x], ..s }
}

pub open spec fn op_set_sound(s: CpuView, x: int) -> CpuView {
    CpuView { sound_timer: s.v_reg[x], ..s }
}

/// Add to index register: 16-bit addition, no flag, natural 16-bit wrap.
pub open spec fn op_add_i(s: CpuView, x: int) -> CpuView {
    CpuView { i_reg: wrap16(s.i_reg + s.v_reg[x]), ..s }
}

/// Font character address: the glyph of the low nibble of `Vx`, 5 bytes each.
pub open spec fn op_font_addr(s: CpuView, x: int) -> CpuView {
    CpuView { i_reg: (font::FONT_ADDRESS + (s.v_reg[x] & 0xF) * 5) as u16, ..s }
}

/// Store BCD digits: hundreds, tens, units of `Vx` as three consecutive bytes
/// at the index register.
pub open spec fn op_bcd(s: CpuView, x: int) -> Result<CpuView, Fault> {
    if s.i_reg + 3 > MEM_SIZE {
        Err(Fault::OutOfBounds)
    } else {
        let v = s.v_reg[x];
        let digits = seq![(v / 100) as u8, ((v / 10) % 10) as u8, (v % 10) as u8];
        Ok(CpuView { ram: write_seq(s.ram, s.i_reg as int, digits), ..s })
    }
}

/// Block store: registers `V0..=Vx` to consecutive memory at the index
/// register, which itself is not advanced.
pub open spec fn op_store_regs(s: CpuView, x: int) -> Result<CpuView, Fault> {
    if s.i_reg + x + 1 > MEM_SIZE {
        Err(Fault::OutOfBounds)
    } else {
        Ok(CpuView { ram: write_seq(s.ram, s.i_reg as int, s.v_reg.subrange(0, x + 1)), ..s })
    }
}

/// Block load: registers `V0..=Vx` from consecutive memory at the index
/// register, which itself is not advanced.
pub open spec fn op_load_regs(s: CpuView, x: int) -> Result<CpuView, Fault> {
    if s.i_reg + x + 1 > MEM_SIZE {
        Err(Fault::OutOfBounds)
    } else {
        Ok(
            CpuView {
                v_reg: Seq::new(
                    16,
                    |k: int|
                        if 0 <= k <= x {
                            s.ram[s.i_reg + k]
                        } else {
                            s.v_reg[k]
                        },
                ),
                ..s
            },
        )
    }
}

/// The dispatch table: routes a fetched word to the one matching operation.
/// `s` has the program counter already advanced past the word. `rnd` is the
/// byte the host's generator supplied, read only by the random operation.
/// Unrecognized words are documented no-ops.
pub open spec fn exec_op(s: CpuView, op: u16, rnd: u8) -> Result<CpuView, Fault> {
    let x = nib2(op) as int;
    let y = nib3(op) as int;
    let n = nib4(op) as int;
    let nn = imm_byte(op);
    let nnn = imm_addr(op);
    if op == 0x00E0 {
        Ok(op_cls(s))
    } else if op == 0x00EE {
        op_ret(s)
    } else if nib1(op) == 0x1 {
        Ok(op_jump(s, nnn))
    } else if nib1(op) == 0x2 {
        op_call(s, nnn)
    } else if nib1(op) == 0x3 {
        Ok(op_skip_eq_imm(s, x, nn))
    } else if nib1(op) == 0x4 {
        Ok(op_skip_ne_imm(s, x, nn))
    } else if nib1(op) == 0x5 && nib4(op) == 0x0 {
        Ok(op_skip_eq_reg(s, x, y))
    } else if nib1(op) == 0x6 {
        Ok(op_load_imm(s, x, nn))
    } else if nib1(op) == 0x7 {
        Ok(op_add_imm(s, x, nn))
    } else if nib1(op) == 0x8 && nib4(op) == 0x0 {
        Ok(op_copy_reg(s, x, y))
    } else if nib1(op) == 0x8 && nib4(op) == 0x1 {
        Ok(op_or_reg(s, x, y))
    } else if nib1(op) == 0x8 && nib4(op) == 0x2 {
        Ok(op_and_reg(s, x, y))
    } else if nib1(op) == 0x8 && nib4(op) == 0x3 {
        Ok(op_xor_reg(s, x, y))
    } else if nib1(op) == 0x8 && nib4(op) == 0x4 {
        Ok(op_add_carry(s, x, y))
    } else if nib1(op) == 0x8 && nib4(op) == 0x5 {
        Ok(op_sub_borrow(s, x, y))
    } else if nib1(op) == 0x8 && nib4(op) == 0x6 {
        Ok(op_shr(s, x))
    } else if nib1(op) == 0x8 && nib4(op) == 0x7 {
        Ok(op_subn_borrow(s, x, y))
    } else if nib1(op) == 0x8 && nib4(op) == 0xE {
        Ok(op_shl(s, x))
    } else if nib1(op) == 0x9 && nib4(op) == 0x0 {
        Ok(op_skip_ne_reg(s, x, y))
    } else if nib1(op) == 0xA {
        Ok(op_set_i(s, nnn))
    } else if nib1(op) == 0xB {
        Ok(op_jump_v0(s, nnn))
    } else if nib1(op) == 0xC {
        Ok(op_random(s, x, nn, rnd))
    } else if nib1(op) == 0xD {
        op_draw(s, x, y, n)
    } else if nib1(op) == 0xE && nn == 0x9E {
        op_skip_key(s, x)
    } else if nib1(op) == 0xE && nn == 0xA1 {
        op_skip_nokey(s, x)
    } else if nib1(op) == 0xF && nn == 0x07 {
        Ok(op_read_delay(s, x))
    } else if nib1(op) == 0xF && nn == 0x0A {
        Ok(op_wait_key(s, x))
    } else if nib1(op) == 0xF && nn == 0x15 {
        Ok(op_set_delay(s, x))
    } else if nib1(op) == 0xF && nn == 0x18 {
        Ok(op_set_sound(s, x))
    } else if nib1(op) == 0xF && nn == 0x1E {
        Ok(op_add_i(s, x))
    } else if nib1(op) == 0xF && nn == 0x29 {
        Ok(op_font_addr(s, x))
    } else if nib1(op) == 0xF && nn == 0x33 {
        op_bcd(s, x)
    } else if nib1(op) == 0xF && nn == 0x55 {
        op_store_regs(s, x)
    } else if nib1(op) == 0xF && nn == 0x65 {
        op_load_regs(s, x)
    } else {
        Ok(s)
    }
}

/// The four nibbles reassemble the word; each is below 16.
pub proof fn lemma_nibbles(op: u16)
    ensures
        nib1(op) < 16,
        nib2(op) < 16,
        nib3(op) < 16,
        nib4(op) < 16,
        imm_addr(op) < 0x1000,
        op == nib1(op) * 0x1000 + nib2(op) * 0x100 + nib3(op) * 0x10 + nib4(op),
        imm_byte(op) == nib3(op) * 0x10 + nib4(op),
        imm_addr(op) == nib2(op) * 0x100 + nib3(op) * 0x10 + nib4(op),
{
    assert(op >> 12 < 16) by (bit_vector);
    assert((op >> 8) & 0xF < 16) by (bit_vector);
    assert((op >> 4) & 0xF < 16) by (bit_vector);
    assert(op & 0xF < 16) by (bit_vector);
    assert(op & 0xFFF < 0x1000) by (bit_vector);
    assert(op == (op >> 12) * 0x1000 + ((op >> 8) & 0xF) * 0x100 + ((op >> 4) & 0xF) * 0x10 + (op
        & 0xF)) by (bit_vector);
    assert((op & 0xFF) == ((op >> 4) & 0xF) * 0x10 + (op & 0xF)) by (bit_vector);
    assert((op & 0xFFF) == ((op >> 8) & 0xF) * 0x100 + ((op >> 4) & 0xF) * 0x10 + (op & 0xF))
        by (bit_vector);
}

/// What `first_pressed` finds from `i` on: the lowest pressed index, with
/// everything below it unpressed, or 16 when no key at or above `i` is down.
pub proof fn lemma_first_pressed_from(kp: Seq<bool>, i: int)
    requires
        0 <= i <= 16,
    ensures
        ({
            let k = first_pressed(kp, i);
            &&& i <= k <= 16
            &&& k < 16 ==> kp[k]
            &&& forall|j: int| i <= j < k ==> !kp[j]
        }),
    decreases 16 - i,
{
    if i < 16 && !kp[i] {
        lemma_first_pressed_from(kp, i + 1);
    }
}

/// Skipping a prefix of unpressed keys does not change the first pressed one.
pub proof fn lemma_first_pressed_prefix(kp: Seq<bool>, k: int)
    requires
        0 <= k <= 16,
        forall|j: int| 0 <= j < k ==> !kp[j],
    ensures
        first_pressed(kp, 0) == first_pressed(kp, k),
    decreases k,
{
    if k > 0 {
        lemma_first_pressed_prefix(kp, k - 1);
    }
}

/// `s` with the program counter advanced past one instruction word.
pub open spec fn fetched(s: CpuView) -> CpuView {
    CpuView { pc: (s.pc + OPCODE_SIZE) as u16, ..s }
}

/// How one operation run relates a result and a post-state to the pre-state:
/// the specified state on success, the specified fault with the pre-state
/// kept on failure.
pub open spec fn outcome_matches(
    target: Result<CpuView, Fault>,
    r: Result<(), Fault>,
    post: CpuView,
    pre: CpuView,
) -> bool {
    match target {
        Ok(s2) => r is Ok && post == s2,
        Err(f) => r == Err::<(), Fault>(f) && post == pre,
    }
}

/// How dispatching `op` relates a result and a post-state to the pre-state.
pub open spec fn process_outcome(
    pre: CpuView,
    op: u16,
    rnd: u8,
    r: Result<(), Fault>,
    post: CpuView,
) -> bool {
    outcome_matches(exec_op(pre, op, rnd), r, post, pre)
}

/// Whether the next instruction word is the random operation: only then does
/// a step depend on the host's generator.
pub open spec fn is_random_op(s: CpuView) -> bool {
    s.pc + 2 <= MEM_SIZE && nib1(be_word(s.ram, s.pc as int)) == 0xC
}

/// One whole fetch-decode-execute step: fetching outside memory is a bounds
/// fault that changes nothing; otherwise the counter advances past the word
/// and the word's operation runs, a fault leaving the advanced state behind.
pub open spec fn step_outcome(pre: CpuView, rnd: u8, r: Result<(), Fault>, post: CpuView) -> bool {
    if pre.pc + 2 > MEM_SIZE {
        r == Err::<(), Fault>(Fault::OutOfBounds) && post == pre
    } else {
        process_outcome(fetched(pre), be_word(pre.ram, pre.pc as int), rnd, r, post)
    }
}

} // verus!
