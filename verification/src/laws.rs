use vstd::prelude::*;

use crate::fault::Fault;
use crate::mem::{be_word, MEM_SIZE};
use crate::state;
use crate::state::{CpuView, SCREEN_HEIGHT, SCREEN_WIDTH};

verus! {

/// The call stack is LIFO: a call pushes the current program counter as the
/// return address, and an immediate return pops it back into the program
/// counter, leaving the stack as it was.
pub proof fn lemma_call_return_lifo(s: CpuView, addr: u16)
    requires
        s.wf(),
        s.stack.len() < 16,
    ensures
        state::op_call(s, addr) is Ok,
        state::op_call(s, addr)->Ok_0.pc == addr,
        state::op_ret(state::op_call(s, addr)->Ok_0) is Ok,
        state::op_ret(state::op_call(s, addr)->Ok_0)->Ok_0.pc == s.pc,
        state::op_ret(state::op_call(s, addr)->Ok_0)->Ok_0.stack == s.stack,
{
    let called = state::op_call(s, addr)->Ok_0;
    assert(called.stack.drop_last() =~= s.stack);
}

/// A register-equals-immediate skip advances the program counter by 4 (2 for
/// the fetch, 2 for the skip) when the register equals the immediate, and by
/// 2 otherwise.
pub proof fn lemma_skip_eq_imm_step(pre: CpuView, rnd: u8, r: Result<(), Fault>, post: CpuView)
    requires
        pre.wf(),
        pre.pc + 2 <= MEM_SIZE,
        state::nib1(be_word(pre.ram, pre.pc as int)) == 0x3,
        state::step_outcome(pre, rnd, r, post),
    ensures
        r is Ok,
        ({
            let op = be_word(pre.ram, pre.pc as int);
            let x = state::nib2(op) as int;
            let nn = state::imm_byte(op);
            &&& pre.v_reg[x] == nn ==> post.pc == pre.pc + 4
            &&& pre.v_reg[x] != nn ==> post.pc == pre.pc + 2
        }),
{
    state::lemma_nibbles(be_word(pre.ram, pre.pc as int));
}

/// The key-wait busy poll: with no key pressed a step leaves the machine
/// exactly as it was; with some key pressed the lowest pressed index lands in
/// the destination register and the program counter advances normally.
pub proof fn lemma_wait_key_step(pre: CpuView, rnd: u8, r: Result<(), Fault>, post: CpuView)
    requires
        pre.wf(),
        pre.pc + 2 <= MEM_SIZE,
        state::nib1(be_word(pre.ram, pre.pc as int)) == 0xF,
        state::imm_byte(be_word(pre.ram, pre.pc as int)) == 0x0A,
        state::step_outcome(pre, rnd, r, post),
    ensures
        r is Ok,
        (forall|k: int| 0 <= k < 16 ==> !pre.keypad[k]) ==> post == pre,
        (exists|k: int| 0 <= k < 16 && pre.keypad[k]) ==> ({
            let op = be_word(pre.ram, pre.pc as int);
            let x = state::nib2(op) as int;
            let key = state::first_pressed(pre.keypad, 0);
            &&& 0 <= key < 16
            &&& pre.keypad[key]
            &&& forall|j: int| 0 <= j < key ==> !pre.keypad[j]
            &&& post.pc == pre.pc + 2
            &&& post.v_reg == pre.v_reg.update(x, key as u8)
        }),
{
    let op = be_word(pre.ram, pre.pc as int);
    state::lemma_nibbles(op);
    state::lemma_first_pressed_from(pre.keypad, 0);
    let key = state::first_pressed(pre.keypad, 0);
    if forall|k: int| 0 <= k < 16 ==> !pre.keypad[k] {
        assert(key == 16);
        assert(post =~= pre);
    }
    if exists|k: int| 0 <= k < 16 && pre.keypad[k] {
        let k0 = choose|k: int| 0 <= k < 16 && pre.keypad[k];
        assert(key < 16) by {
            if key == 16 {
                assert(!pre.keypad[k0]);
            }
        }
    }
}

/// Block store then block load over the same range reproduces the register
/// file exactly.
pub proof fn lemma_store_load_round_trip(s: CpuView, x: int)
    requires
        s.wf(),
        0 <= x < 16,
        s.i_reg + x + 1 <= MEM_SIZE,
    ensures
        state::op_store_regs(s, x) is Ok,
        state::op_load_regs(state::op_store_regs(s, x)->Ok_0, x) is Ok,
        state::op_load_regs(state::op_store_regs(s, x)->Ok_0, x)->Ok_0.v_reg == s.v_reg,
{
    let stored = state::op_store_regs(s, x)->Ok_0;
    let loaded = state::op_load_regs(stored, x)->Ok_0;
    assert(loaded.v_reg =~= s.v_reg);
}

/// A sprite draw never touches a cell outside its clipped box: rows and
/// columns that would fall off the grid are dropped, not wrapped.
pub proof fn lemma_draw_clips(s: CpuView, x: int, y: int, n: int, pos: int)
    requires
        s.wf(),
        0 <= x < 16,
        0 <= y < 16,
        0 <= n,
        state::op_draw(s, x, y, n) is Ok,
        0 <= pos < state::display_len(),
        !state::draw_covers(
            (s.v_reg[x] % (SCREEN_WIDTH as u8)) as int,
            (s.v_reg[y] % (SCREEN_HEIGHT as u8)) as int,
            n,
            pos,
        ),
    ensures
        state::op_draw(s, x, y, n)->Ok_0.display[pos] == s.display[pos],
{
}

} // verus!
