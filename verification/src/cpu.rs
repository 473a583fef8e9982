use vstd::prelude::*;

use crate::fault::Fault;
use crate::mem::{be_word, write_seq, zero_bytes, Mem, MEM_SIZE, START_ADDRESS};
use crate::state;
use crate::state::{CpuView, OPCODE_SIZE, SCREEN_HEIGHT, SCREEN_WIDTH};

verus! {

/// The virtual CPU and the state it exclusively owns. One instance holds the
/// whole machine; the host drives it through `tick`, `tick_timers` and the
/// keypad events, and reads the display back when `draw_flag` is set.
pub struct Cpu {
    pc: u16,
    /// The flat memory image; public so the host and tests can stage
    /// programs and data directly.
    pub ram: Mem,
    stack: Vec<u16>,
    i_reg: u16,
    v_reg: Vec<u8>,
    delay_timer: u8,
    sound_timer: u8,
    display: Vec<bool>,
    keypad: Vec<bool>,
    /// Set whenever the display changes; the host clears it after redrawing.
    pub draw_flag: bool,
}

impl View for Cpu {
    type V = CpuView;

    closed spec fn view(&self) -> CpuView {
        CpuView {
            pc: self.pc,
            ram: self.ram@,
            stack: self.stack@,
            i_reg: self.i_reg,
            v_reg: self.v_reg@,
            delay_timer: self.delay_timer,
            sound_timer: self.sound_timer,
            display: self.display@,
            keypad: self.keypad@,
            draw_flag: self.draw_flag,
        }
    }
}

/// A vector of `n` unset cells.
fn false_cells(n: usize) -> (r: Vec<bool>)
    ensures
        r@ == Seq::new(n as nat, |i: int| false),
{
    let mut r: Vec<bool> = Vec::new();
    while r.len() < n
        invariant
            r@.len() <= n,
            forall|i: int| 0 <= i < r@.len() ==> r@[i] == false,
        decreases n - r@.len(),
    {
        r.push(false);
    }
    proof {
        assert(r@ =~= Seq::new(n as nat, |i: int| false));
    }
    r
}

impl Cpu {
    /// The dimensions every reachable machine keeps; all public operations
    /// preserve it.
    pub open spec fn wf(&self) -> bool {
        self@.wf()
    }

    /// A machine in the power-on state: font loaded, program counter at the
    /// program origin, everything else zeroed, display marked dirty.
    pub fn new() -> (r: Cpu)
        ensures
            r.wf(),
            r@ == state::initial_state(),
    {
        let mut ram = Mem::new();
        ram.load_font();
        let r = Cpu {
            pc: START_ADDRESS,
            ram,
            stack: Vec::new(),
            i_reg: 0,
            v_reg: zero_bytes(16),
            delay_timer: 0,
            sound_timer: 0,
            display: false_cells(SCREEN_WIDTH * SCREEN_HEIGHT),
            keypad: false_cells(16),
            draw_flag: true,
        };
        proof {
            assert(r@.ram =~= state::fresh_ram());
            assert(r@ =~= state::initial_state());
        }
        r
    }

    /// Reinitializes all state to the power-on condition; the only way to
    /// clear accumulated state short of restarting the host.
    pub fn reset(&mut self)
        requires
            old(self).wf(),
        ensures
            final(self).wf(),
            final(self)@ == state::initial_state(),
    {
        self.pc = START_ADDRESS;
        self.ram = Mem::new();
        self.ram.load_font();
        self.stack = Vec::new();
        self.i_reg = 0;
        self.v_reg = zero_bytes(16);
        self.delay_timer = 0;
        self.sound_timer = 0;
        self.keypad = false_cells(16);
        self.clear_display();
        proof {
            assert(self@.ram =~= state::fresh_ram());
            assert(self@ =~= state::initial_state());
        }
    }

    /// Copies a program image into memory at the program origin: the compute
    /// half of ROM loading, with the file read left to the host. Faults,
    /// changing nothing, when the image does not fit in memory.
    pub fn load_program(&mut self, program: &[u8]) -> (r: Result<(), Fault>)
        requires
            old(self).wf(),
        ensures
            final(self).wf(),
            START_ADDRESS + program@.len() <= MEM_SIZE ==> r is Ok && final(self)@ == (CpuView {
                ram: write_seq(old(self)@.ram, START_ADDRESS as int, program@),
                ..old(self)@
            }),
            START_ADDRESS + program@.len() > MEM_SIZE ==> r == Err::<(), Fault>(Fault::OutOfBounds)
                && final(self)@ == old(self)@,
    {
        self.ram.load_program(program)
    }

    /// Decrements each timer that is above zero; called by the host at its
    /// fixed cadence, independent of instruction execution.
    pub fn tick_timers(&mut self)
        requires
            old(self).wf(),
        ensures
            final(self).wf(),
            final(self)@ == (CpuView {
                delay_timer: if old(self)@.delay_timer > 0 {
                    (old(self)@.delay_timer - 1) as u8
                } else {
                    0u8
                },
                sound_timer: if old(self)@.sound_timer > 0 {
                    (old(self)@.sound_timer - 1) as u8
                } else {
                    0u8
                },
                ..old(self)@
            }),
    {
        if self.delay_timer > 0 {
            self.delay_timer = self.delay_timer - 1;
        }
        if self.sound_timer > 0 {
            self.sound_timer = self.sound_timer - 1;
        }
    }

    /// Read-only access to the 64x32 display grid, row-major.
    pub fn display(&self) -> (r: &[bool])
        ensures
            r@ == self@.display,
    {
        self.display.as_slice()
    }

    /// Marks the key `key` pressed. An index outside 0..16 is a caller
    /// contract violation.
    pub fn key_press(&mut self, key: usize)
        requires
            old(self).wf(),
            key < 16,
        ensures
            final(self).wf(),
            final(self)@ == (CpuView { keypad: old(self)@.keypad.update(key as int, true), ..old(self)@ }),
    {
        self.keypad.set(key, true);
    }

    /// Marks the key `key` released. An index outside 0..16 is a caller
    /// contract violation.
    pub fn key_release(&mut self, key: usize)
        requires
            old(self).wf(),
            key < 16,
        ensures
            final(self).wf(),
            final(self)@ == (CpuView { keypad: old(self)@.keypad.update(key as int, false), ..old(self)@ }),
    {
        self.keypad.set(key, false);
    }

    /// The program counter.
    pub fn pc(&self) -> (r: u16)
        ensures
            r == self@.pc,
    {
        self.pc
    }

    /// Register `Vx`.
    pub fn v(&self, x: usize) -> (r: u8)
        requires
            self.wf(),
            x < 16,
        ensures
            r == self@.v_reg[x as int],
    {
        self.v_reg[x]
    }

    /// Sets register `Vx`; host and test staging.
    pub fn set_v(&mut self, x: usize, value: u8)
        requires
            old(self).wf(),
            x < 16,
        ensures
            final(self).wf(),
            final(self)@ == (CpuView { v_reg: old(self)@.v_reg.update(x as int, value), ..old(self)@ }),
    {
        self.v_reg.set(x, value);
    }

    /// The index register.
    pub fn i_reg(&self) -> (r: u16)
        ensures
            r == self@.i_reg,
    {
        self.i_reg
    }

    /// Sets the index register; host and test staging.
    pub fn set_i_reg(&mut self, value: u16)
        requires
            old(self).wf(),
        ensures
            final(self).wf(),
            final(self)@ == (CpuView { i_reg: value, ..old(self)@ }),
    {
        self.i_reg = value;
    }

    /// The delay timer.
    pub fn delay_timer(&self) -> (r: u8)
        ensures
            r == self@.delay_timer,
    {
        self.delay_timer
    }

    /// Sets the delay timer; host and test staging.
    pub fn set_delay_timer(&mut self, value: u8)
        requires
            old(self).wf(),
        ensures
            final(self).wf(),
            final(self)@ == (CpuView { delay_timer: value, ..old(self)@ }),
    {
        self.delay_timer = value;
    }

    /// The sound timer.
    pub fn sound_timer(&self) -> (r: u8)
        ensures
            r == self@.sound_timer,
    {
        self.sound_timer
    }

    /// Sets one display cell; test staging. Does not mark the display dirty:
    /// only the clear and draw operations do.
    pub fn set_pixel(&mut self, pos: usize, on: bool)
        requires
            old(self).wf(),
            pos < SCREEN_WIDTH * SCREEN_HEIGHT,
        ensures
            final(self).wf(),
            final(self)@ == (CpuView { display: old(self)@.display.update(pos as int, on), ..old(self)@ }),
    {
        self.display.set(pos, on);
    }

    /// Pushes a return address; a push at depth 16 is a stack fault that
    /// changes nothing.
    pub fn stack_push(&mut self, value: u16) -> (r: Result<(), Fault>)
        requires
            old(self).wf(),
        ensures
            final(self).wf(),
            old(self)@.stack.len() < 16 ==> r is Ok && final(self)@ == (CpuView {
                stack: old(self)@.stack.push(value),
                ..old(self)@
            }),
            old(self)@.stack.len() >= 16 ==> r == Err::<(), Fault>(Fault::StackOverflow)
                && final(self)@ == old(self)@,
    {
        if self.stack.len() >= 16 {
            return Err(Fault::StackOverflow);
        }
        self.stack.push(value);
        Ok(())
    }

    /// Pops a return address; a pop at depth 0 is a stack fault that changes
    /// nothing.
    pub fn stack_pop(&mut self) -> (r: Result<u16, Fault>)
        requires
            old(self).wf(),
        ensures
            final(self).wf(),
            old(self)@.stack.len() > 0 ==> r == Ok::<u16, Fault>(old(self)@.stack.last())
                && final(self)@ == (CpuView {
                stack: old(self)@.stack.drop_last(),
                ..old(self)@
            }),
            old(self)@.stack.len() == 0 ==> r == Err::<u16, Fault>(Fault::StackUnderflow)
                && final(self)@ == old(self)@,
    {
        match self.stack.pop() {
            Some(value) => Ok(value),
            None => Err(Fault::StackUnderflow),
        }
    }

    /// Clears the display and marks it dirty.
    pub fn clear_display(&mut self)
        requires
            old(self).wf(),
        ensures
            final(self).wf(),
            final(self)@ == state::op_cls(old(self)@),
    {
        self.op_00e0();
    }

    // CLS
    fn op_00e0(&mut self)
        requires
            old(self).wf(),
        ensures
            final(self).wf(),
            final(self)@ == state::op_cls(old(self)@),
    {
        self.display = false_cells(SCREEN_WIDTH * SCREEN_HEIGHT);
        self.draw_flag = true;
    }

    fn skip_next_instruction(&mut self)
        requires
            old(self).wf(),
            old(self)@.pc + OPCODE_SIZE <= u16::MAX,
        ensures
            final(self).wf(),
            final(self)@ == (CpuView { pc: (old(self)@.pc + OPCODE_SIZE) as u16, ..old(self)@ }),
    {
        self.pc = self.pc + OPCODE_SIZE;
    }

    // RET
    fn op_00ee(&mut self) -> (r: Result<(), Fault>)
        requires
            old(self).wf(),
        ensures
            final(self).wf(),
            state::outcome_matches(state::op_ret(old(self)@), r, final(self)@, old(self)@),
    {
        match self.stack_pop() {
            Ok(addr) => {
                self.pc = addr;
                Ok(())
            },
            Err(f) => Err(f),
        }
    }

    // JP addr
    fn op_1nnn(&mut self, addr: u16)
        requires
            old(self).wf(),
        ensures
            final(self).wf(),
            final(self)@ == state::op_jump(old(self)@, addr),
    {
        self.pc = addr;
    }

    // CALL addr
    fn op_2nnn(&mut self, addr: u16) -> (r: Result<(), Fault>)
        requires
            old(self).wf(),
        ensures
            final(self).wf(),
            state::outcome_matches(state::op_call(old(self)@, addr), r, final(self)@, old(self)@),
    {
        let pc = self.pc;
        match self.stack_push(pc) {
            Ok(_) => {
                self.pc = addr;
                Ok(())
            },
            Err(f) => Err(f),
        }
    }

    // SE Vx, byte
    fn op_3xnn(&mut self, x: usize, byte: u8)
        requires
            old(self).wf(),
            x < 16,
            old(self)@.pc + OPCODE_SIZE <= u16::MAX,
        ensures
            final(self).wf(),
            final(self)@ == state::op_skip_eq_imm(old(self)@, x as int, byte),
    {
        if self.v_reg[x] == byte {
            self.skip_next_instruction();
        }
    }

    // SNE Vx, byte
    fn op_4xnn(&mut self, x: usize, byte: u8)
        requires
            old(self).wf(),
            x < 16,
            old(self)@.pc + OPCODE_SIZE <= u16::MAX,
        ensures
            final(self).wf(),
            final(self)@ == state::op_skip_ne_imm(old(self)@, x as int, byte),
    {
        if self.v_reg[x] != byte {
            self.skip_next_instruction();
        }
    }

    // SE Vx, Vy
    fn op_5xy0(&mut self, x: usize, y: usize)
        requires
            old(self).wf(),
            x < 16,
            y < 16,
            old(self)@.pc + OPCODE_SIZE <= u16::MAX,
        ensures
            final(self).wf(),
            final(self)@ == state::op_skip_eq_reg(old(self)@, x as int, y as int),
    {
        if self.v_reg[x] == self.v_reg[y] {
            self.skip_next_instruction();
        }
    }

    // LD Vx, byte
    fn op_6xnn(&mut self, x: usize, byte: u8)
        requires
            old(self).wf(),
            x < 16,
        ensures
            final(self).wf(),
            final(self)@ == state::op_load_imm(old(self)@, x as int, byte),
    {
        self.v_reg.set(x, byte);
    }

    // ADD Vx, byte
    fn op_7xnn(&mut self, x: usize, byte: u8)
        requires
            old(self).wf(),
            x < 16,
        ensures
            final(self).wf(),
            final(self)@ == state::op_add_imm(old(self)@, x as int, byte),
    {
        let total = self.v_reg[x] as u16 + byte as u16;
        self.v_reg.set(x, (total % 256) as u8);
    }

    // LD Vx, Vy
    fn op_8xy0(&mut self, x: usize, y: usize)
        requires
            old(self).wf(),
            x < 16,
            y < 16,
        ensures
            final(self).wf(),
            final(self)@ == state::op_copy_reg(old(self)@, x as int, y as int),
    {
        let value = self.v_reg[y];
        self.v_reg.set(x, value);
    }

    // OR Vx, Vy
    fn op_8xy1(&mut self, x: usize, y: usize)
        requires
            old(self).wf(),
            x < 16,
            y < 16,
        ensures
            final(self).wf(),
            final(self)@ == state::op_or_reg(old(self)@, x as int, y as int),
    {
        let value = self.v_reg[x] | self.v_reg[y];
        self.v_reg.set(x, value);
    }

    // AND Vx, Vy
    fn op_8xy2(&mut self, x: usize, y: usize)
        requires
            old(self).wf(),
            x < 16,
            y < 16,
        ensures
            final(self).wf(),
            final(self)@ == state::op_and_reg(old(self)@, x as int, y as int),
    {
        let value = self.v_reg[x] & self.v_reg[y];
        self.v_reg.set(x, value);
    }

    // XOR Vx, Vy
    fn op_8xy3(&mut self, x: usize, y: usize)
        requires
            old(self).wf(),
            x < 16,
            y < 16,
        ensures
            final(self).wf(),
            final(self)@ == state::op_xor_reg(old(self)@, x as int, y as int),
    {
        let value = self.v_reg[x] ^ self.v_reg[y];
        self.v_reg.set(x, value);
    }

    // ADD Vx, Vy
    fn op_8xy4(&mut self, x: usize, y: usize)
        requires
            old(self).wf(),
            x < 16,
            y < 16,
        ensures
            final(self).wf(),
            final(self)@ == state::op_add_carry(old(self)@, x as int, y as int),
    {
        let total = self.v_reg[x] as u16 + self.v_reg[y] as u16;
        self.v_reg.set(x, (total % 256) as u8);
        self.v_reg.set(15, if total > 255 { 1 } else { 0 });
    }

    // SUB Vx, Vy
    fn op_8xy5(&mut self, x: usize, y: usize)
        requires
            old(self).wf(),
            x < 16,
            y < 16,
        ensures
            final(self).wf(),
            final(self)@ == state::op_sub_borrow(old(self)@, x as int, y as int),
    {
        let flag: u8 = if self.v_reg[x] >= self.v_reg[y] { 1 } else { 0 };
        self.v_reg.set(15, flag);
        let diff = (self.v_reg[x] as u16 + 256 - self.v_reg[y] as u16) % 256;
        self.v_reg.set(x, diff as u8);
    }

    // SHR Vx, _Vy
    fn op_8xy6(&mut self, x: usize, _y: usize)
        requires
            old(self).wf(),
            x < 16,
        ensures
            final(self).wf(),
            final(self)@ == state::op_shr(old(self)@, x as int),
    {
        let flag: u8 = self.v_reg[x] & 1;
        self.v_reg.set(15, flag);
        let value = self.v_reg[x] >> 1u8;
        self.v_reg.set(x, value);
    }

    // SUBN Vx, Vy
    fn op_8xy7(&mut self, x: usize, y: usize)
        requires
            old(self).wf(),
            x < 16,
            y < 16,
        ensures
            final(self).wf(),
            final(self)@ == state::op_subn_borrow(old(self)@, x as int, y as int),
    {
        let flag: u8 = if self.v_reg[y] >= self.v_reg[x] { 1 } else { 0 };
        self.v_reg.set(15, flag);
        let diff = (self.v_reg[y] as u16 + 256 - self.v_reg[x] as u16) % 256;
        self.v_reg.set(x, diff as u8);
    }

    // SHL Vx, _Vy
    fn op_8xye(&mut self, x: usize, _y: usize)
        requires
            old(self).wf(),
            x < 16,
        ensures
            final(self).wf(),
            final(self)@ == state::op_shl(old(self)@, x as int),
    {
        let flag: u8 = (self.v_reg[x] & 0x80) >> 7u8;
        self.v_reg.set(15, flag);
        let value = self.v_reg[x] << 1u8;
        self.v_reg.set(x, value);
    }

    // SNE Vx, Vy
    fn op_9xy0(&mut self, x: usize, y: usize)
        requires
            old(self).wf(),
            x < 16,
            y < 16,
            old(self)@.pc + OPCODE_SIZE <= u16::MAX,
        ensures
            final(self).wf(),
            final(self)@ == state::op_skip_ne_reg(old(self)@, x as int, y as int),
    {
        if self.v_reg[x] != self.v_reg[y] {
            self.skip_next_instruction();
        }
    }

    // LD I, addr
    fn op_annn(&mut self, addr: u16)
        requires
            old(self).wf(),
        ensures
            final(self).wf(),
            final(self)@ == state::op_set_i(old(self)@, addr),
    {
        self.i_reg = addr;
    }

    // JP V0, addr
    fn op_bnnn(&mut self, addr: u16)
        requires
            old(self).wf(),
            addr < 0x1000,
        ensures
            final(self).wf(),
            final(self)@ == state::op_jump_v0(old(self)@, addr),
    {
        self.pc = addr + self.v_reg[0] as u16;
    }

    // RND Vx, byte
    fn op_cxnn(&mut self, x: usize, byte: u8, rnd: u8)
        requires
            old(self).wf(),
            x < 16,
        ensures
            final(self).wf(),
            final(self)@ == state::op_random(old(self)@, x as int, byte, rnd),
    {
        self.v_reg.set(x, rnd & byte);
    }

    // SKP Vx
    fn op_ex9e(&mut self, x: usize) -> (r: Result<(), Fault>)
        requires
            old(self).wf(),
            x < 16,
            old(self)@.pc + OPCODE_SIZE <= u16::MAX,
        ensures
            final(self).wf(),
            state::outcome_matches(state::op_skip_key(old(self)@, x as int), r, final(self)@, old(self)@),
    {
        let key = self.v_reg[x];
        if key >= 16 {
            return Err(Fault::OutOfBounds);
        }
        if self.keypad[key as usize] {
            self.skip_next_instruction();
        }
        Ok(())
    }

    // SKNP Vx
    fn op_exa1(&mut self, x: usize) -> (r: Result<(), Fault>)
        requires
            old(self).wf(),
            x < 16,
            old(self)@.pc + OPCODE_SIZE <= u16::MAX,
        ensures
            final(self).wf(),
            state::outcome_matches(state::op_skip_nokey(old(self)@, x as int), r, final(self)@, old(self)@),
    {
        let key = self.v_reg[x];
        if key >= 16 {
            return Err(Fault::OutOfBounds);
        }
        if !self.keypad[key as usize] {
            self.skip_next_instruction();
        }
        Ok(())
    }

    // LD Vx, DT
    fn op_fx07(&mut self, x: usize)
        requires
            old(self).wf(),
            x < 16,
        ensures
            final(self).wf(),
            final(self)@ == state::op_read_delay(old(self)@, x as int),
    {
        let value = self.delay_timer;
        self.v_reg.set(x, value);
    }

    // LD Vx, K
    fn op_fx0a(&mut self, x: usize)
        requires
            old(self).wf(),
            x < 16,
            old(self)@.pc >= OPCODE_SIZE,
        ensures
            final(self).wf(),
            final(self)@ == state::op_wait_key(old(self)@, x as int),
    {
        let mut k: usize = 0;
        while k < 16 && !self.keypad[k]
            invariant
                self.wf(),
                k <= 16,
                forall|j: int| 0 <= j < k ==> !self.keypad@[j],
            decreases 16 - k,
        {
            k += 1;
        }
        proof {
            state::lemma_first_pressed_prefix(self@.keypad, k as int);
        }
        if k < 16 {
            self.v_reg.set(x, k as u8);
        } else {
            self.pc = self.pc - OPCODE_SIZE;
        }
    }

    // LD DT, Vx
    fn op_fx15(&mut self, x: usize)
        requires
            old(self).wf(),
            x < 16,
        ensures
            final(self).wf(),
            final(self)@ == state::op_set_delay(old(self)@, x as int),
    {
        self.delay_timer = self.v_reg[x];
    }

    // LD ST, Vx
    fn op_fx18(&mut self, x: usize)
        requires
            old(self).wf(),
            x < 16,
        ensures
            final(self).wf(),
            final(self)@ == state::op_set_sound(old(self)@, x as int),
    {
        self.sound_timer = self.v_reg[x];
    }

    // ADD I, Vx
    fn op_fx1e(&mut self, x: usize)
        requires
            old(self).wf(),
            x < 16,
        ensures
            final(self).wf(),
            final(self)@ == state::op_add_i(old(self)@, x as int),
    {
        let total = (self.i_reg as u32 + self.v_reg[x] as u32) % 0x10000;
        self.i_reg = total as u16;
    }

    // LD F, Vx
    fn op_fx29(&mut self, x: usize)
        requires
            old(self).wf(),
            x < 16,
        ensures
            final(self).wf(),
            final(self)@ == state::op_font_addr(old(self)@, x as int),
    {
        let glyph = self.v_reg[x] & 0xF;
        proof {
            let g0 = self.v_reg@[x as int];
            assert(g0 & 0xF < 16) by (bit_vector);
        }
        self.i_reg = crate::font::FONT_ADDRESS + (glyph as u16) * 5;
    }

    // LD B, Vx
    fn op_fx33(&mut self, x: usize) -> (r: Result<(), Fault>)
        requires
            old(self).wf(),
            x < 16,
        ensures
            final(self).wf(),
            state::outcome_matches(state::op_bcd(old(self)@, x as int), r, final(self)@, old(self)@),
    {
        let num = self.v_reg[x];
        let mut digits: Vec<u8> = Vec::new();
        digits.push(num / 100);
        digits.push((num / 10) % 10);
        digits.push(num % 10);
        proof {
            assert(digits@ =~= seq![
                (old(self)@.v_reg[x as int] / 100) as u8,
                ((old(self)@.v_reg[x as int] / 10) % 10) as u8,
                (old(self)@.v_reg[x as int] % 10) as u8,
            ]);
        }
        let i_reg = self.i_reg;
        match self.ram.write(i_reg, digits.as_slice()) {
            Ok(_) => Ok(()),
            Err(f) => Err(f),
        }
    }

    // LD [I], Vx
    fn op_fx55(&mut self, x: usize) -> (r: Result<(), Fault>)
        requires
            old(self).wf(),
            x < 16,
        ensures
            final(self).wf(),
            state::outcome_matches(
                state::op_store_regs(old(self)@, x as int),
                r,
                final(self)@,
                old(self)@,
            ),
    {
        let mut buf: Vec<u8> = Vec::new();
        let mut k: usize = 0;
        while k <= x
            invariant
                self.wf(),
                x < 16,
                k <= x + 1,
                buf@.len() == k,
                forall|j: int| 0 <= j < k ==> buf@[j] == self.v_reg@[j],
            decreases x + 1 - k,
        {
            buf.push(self.v_reg[k]);
            k += 1;
        }
        proof {
            assert(buf@ =~= old(self)@.v_reg.subrange(0, x + 1));
        }
        let i_reg = self.i_reg;
        match self.ram.write(i_reg, buf.as_slice()) {
            Ok(_) => Ok(()),
            Err(f) => Err(f),
        }
    }

    // LD Vx, [I]
    fn op_fx65(&mut self, x: usize) -> (r: Result<(), Fault>)
        requires
            old(self).wf(),
            x < 16,
        ensures
            final(self).wf(),
            state::outcome_matches(
                state::op_load_regs(old(self)@, x as int),
                r,
                final(self)@,
                old(self)@,
            ),
    {
        let data = match self.ram.read(self.i_reg, x + 1) {
            Ok(data) => data,
            Err(f) => {
                return Err(f);
            },
        };
        let mut k: usize = 0;
        while k <= x
            invariant
                x < 16,
                k <= x + 1,
                data@.len() == x + 1,
                self@ == (CpuView { v_reg: self@.v_reg, ..old(self)@ }),
                self@.v_reg.len() == 16,
                forall|j: int|
                    0 <= j < 16 ==> self@.v_reg[j] == (if 0 <= j < k {
                        data@[j]
                    } else {
                        old(self)@.v_reg[j]
                    }),
            decreases x + 1 - k,
        {
            self.v_reg.set(k, data[k]);
            k += 1;
        }
        proof {
            let target = state::op_load_regs(old(self)@, x as int)->Ok_0;
            assert(self@.v_reg =~= target.v_reg);
        }
        Ok(())
    }

    // DRW Vx, Vy, nibble
    fn op_dxyn(&mut self, x: usize, y: usize, n: usize) -> (r: Result<(), Fault>)
        requires
            old(self).wf(),
            x < 16,
            y < 16,
            n < 16,
        ensures
            final(self).wf(),
            state::outcome_matches(
                state::op_draw(old(self)@, x as int, y as int, n as int),
                r,
                final(self)@,
                old(self)@,
            ),
    {
        let ox = (self.v_reg[x] as usize) % SCREEN_WIDTH;
        let oy = (self.v_reg[y] as usize) % SCREEN_HEIGHT;
        let i_reg = self.i_reg;
        let sprite = match self.ram.read(i_reg, n) {
            Ok(sprite) => sprite,
            Err(f) => {
                return Err(f);
            },
        };
        let ghost s0 = self@;
        let mut collision = false;
        let mut row_i: usize = 0;
        proof {
            state::lemma_draw_start(s0, ox as int, oy as int, n as int);
        }
        while row_i < n && oy + row_i < SCREEN_HEIGHT
            invariant
                x < 16,
                y < 16,
                n < 16,
                s0.wf(),
                ox == s0.v_reg[x as int] % (SCREEN_WIDTH as u8),
                oy == s0.v_reg[y as int] % (SCREEN_HEIGHT as u8),
                ox < SCREEN_WIDTH,
                oy < SCREEN_HEIGHT,
                s0.i_reg + n <= MEM_SIZE,
                sprite@.len() == n,
                forall|j: int| 0 <= j < n ==> sprite@[j] == s0.ram[s0.i_reg + j],
                row_i <= n,
                oy + row_i <= SCREEN_HEIGHT,
                self@ == (CpuView { display: self@.display, ..s0 }),
                self@.display.len() == state::display_len(),
                self@.display =~= state::draw_display_partial(
                    s0,
                    ox as int,
                    oy as int,
                    n as int,
                    row_i as int,
                    0,
                ),
                collision == state::draw_collision_partial(
                    s0,
                    ox as int,
                    oy as int,
                    n as int,
                    row_i as int,
                    0,
                ),
            decreases n - row_i,
        {
            let row = sprite[row_i];
            let mut c: usize = 0;
            while c < 8 && ox + c < SCREEN_WIDTH
                invariant
                    x < 16,
                    y < 16,
                    n < 16,
                    s0.wf(),
                    ox < SCREEN_WIDTH,
                    oy < SCREEN_HEIGHT,
                    s0.i_reg + n <= MEM_SIZE,
                    row_i < n,
                    oy + row_i < SCREEN_HEIGHT,
                    row == s0.ram[s0.i_reg + row_i],
                    c <= 8,
                    ox + c <= SCREEN_WIDTH,
                    self@ == (CpuView { display: self@.display, ..s0 }),
                    self@.display.len() == state::display_len(),
                    self@.display =~= state::draw_display_partial(
                        s0,
                        ox as int,
                        oy as int,
                        n as int,
                        row_i as int,
                        c as int,
                    ),
                    collision == state::draw_collision_partial(
                        s0,
                        ox as int,
                        oy as int,
                        n as int,
                        row_i as int,
                        c as int,
                    ),
                decreases 8 - c,
            {
                proof {
                    state::lemma_draw_step(
                        s0,
                        ox as int,
                        oy as int,
                        n as int,
                        row_i as int,
                        c as int,
                    );
                }
                let pixel = (row & (0x80u8 >> (c as u8))) != 0;
                let pos = (oy + row_i) * SCREEN_WIDTH + (ox + c);
                let cur = self.display[pos];
                if cur && pixel {
                    collision = true;
                }
                self.display.set(pos, cur ^ pixel);
                c += 1;
            }
            proof {
                state::lemma_draw_row_done(
                    s0,
                    ox as int,
                    oy as int,
                    n as int,
                    row_i as int,
                    c as int,
                );
            }
            row_i += 1;
        }
        proof {
            state::lemma_draw_done(s0, ox as int, oy as int, n as int, row_i as int);
        }
        self.v_reg.set(15, if collision { 1 } else { 0 });
        self.draw_flag = true;
        proof {
            let target = state::op_draw(old(self)@, x as int, y as int, n as int)->Ok_0;
            assert(self@ =~= target);
        }
        Ok(())
    }

    /// Routes a fetched instruction word to the one matching operation;
    /// unrecognized words are documented no-ops. The program counter has
    /// already been advanced past the word.
    fn process(&mut self, opcode: u16) -> (r: Result<(), Fault>)
        requires
            old(self).wf(),
            OPCODE_SIZE <= old(self)@.pc,
            old(self)@.pc <= MEM_SIZE,
        ensures
            final(self).wf(),
            exists|rnd: u8|
                #[trigger] state::process_outcome(old(self)@, opcode, rnd, r, final(self)@),
            state::nib1(opcode) != 0xC ==> state::process_outcome(
                old(self)@,
                opcode,
                0u8,
                r,
                final(self)@,
            ),
    {
        let ghost pre = self@;
        let nibbles = extract_nibbles(opcode);
        let x = nibbles.1 as usize;
        let y = nibbles.2 as usize;
        let n = nibbles.3 as usize;
        let nn = (opcode & 0xFF) as u8;
        let nnn = opcode & 0xFFF;
        proof {
            state::lemma_nibbles(opcode);
        }
        let r: Result<(), Fault> = match (nibbles.0, nibbles.1, nibbles.2, nibbles.3) {
            (0x0, 0x0, 0xE, 0x0) => {
                self.op_00e0();
                Ok(())
            },
            (0x0, 0x0, 0xE, 0xE) => self.op_00ee(),
            (0x1, _, _, _) => {
                self.op_1nnn(nnn);
                Ok(())
            },
            (0x2, _, _, _) => self.op_2nnn(nnn),
            (0x3, _, _, _) => {
                self.op_3xnn(x, nn);
                Ok(())
            },
            (0x4, _, _, _) => {
                self.op_4xnn(x, nn);
                Ok(())
            },
            (0x5, _, _, 0x0) => {
                self.op_5xy0(x, y);
                Ok(())
            },
            (0x6, _, _, _) => {
                self.op_6xnn(x, nn);
                Ok(())
            },
            (0x7, _, _, _) => {
                self.op_7xnn(x, nn);
                Ok(())
            },
            (0x8, _, _, 0x0) => {
                self.op_8xy0(x, y);
                Ok(())
            },
            (0x8, _, _, 0x1) => {
                self.op_8xy1(x, y);
                Ok(())
            },
            (0x8, _, _, 0x2) => {
                self.op_8xy2(x, y);
                Ok(())
            },
            (0x8, _, _, 0x3) => {
                self.op_8xy3(x, y);
                Ok(())
            },
            (0x8, _, _, 0x4) => {
                self.op_8xy4(x, y);
                Ok(())
            },
            (0x8, _, _, 0x5) => {
                self.op_8xy5(x, y);
                Ok(())
            },
            (0x8, _, _, 0x6) => {
                self.op_8xy6(x, y);
                Ok(())
            },
            (0x8, _, _, 0x7) => {
                self.op_8xy7(x, y);
                Ok(())
            },
            (0x8, _, _, 0xE) => {
                self.op_8xye(x, y);
                Ok(())
            },
            (0x9, _, _, 0x0) => {
                self.op_9xy0(x, y);
                Ok(())
            },
            (0xA, _, _, _) => {
                self.op_annn(nnn);
                Ok(())
            },
            (0xB, _, _, _) => {
                self.op_bnnn(nnn);
                Ok(())
            },
            (0xC, _, _, _) => {
                let rb = random_byte();
                self.op_cxnn(x, nn, rb);
                proof {
                    assert(state::process_outcome(pre, opcode, rb, Ok::<(), Fault>(()), self@));
                }
                Ok(())
            },
            (0xD, _, _, _) => self.op_dxyn(x, y, n),
            (0xE, _, 0x9, 0xE) => self.op_ex9e(x),
            (0xE, _, 0xA, 0x1) => self.op_exa1(x),
            (0xF, _, 0x0, 0x7) => {
                self.op_fx07(x);
                Ok(())
            },
            (0xF, _, 0x0, 0xA) => {
                self.op_fx0a(x);
                Ok(())
            },
            (0xF, _, 0x1, 0x5) => {
                self.op_fx15(x);
                Ok(())
            },
            (0xF, _, 0x1, 0x8) => {
                self.op_fx18(x);
                Ok(())
            },
            (0xF, _, 0x1, 0xE) => {
                self.op_fx1e(x);
                Ok(())
            },
            (0xF, _, 0x2, 0x9) => {
                self.op_fx29(x);
                Ok(())
            },
            (0xF, _, 0x3, 0x3) => self.op_fx33(x),
            (0xF, _, 0x5, 0x5) => self.op_fx55(x),
            (0xF, _, 0x6, 0x5) => self.op_fx65(x),
            _ => Ok(()),
        };
        proof {
            if state::nib1(opcode) != 0xC {
                assert(state::process_outcome(pre, opcode, 0u8, r, self@));
            }
        }
        r
    }

    /// Reads the instruction word at the program counter and advances the
    /// counter past it.
    fn fetch(&mut self) -> (r: Result<u16, Fault>)
        requires
            old(self).wf(),
        ensures
            final(self).wf(),
            old(self)@.pc + 2 <= MEM_SIZE ==> ({
                &&& r == Ok::<u16, Fault>(be_word(old(self)@.ram, old(self)@.pc as int))
                &&& final(self)@ == state::fetched(old(self)@)
            }),
            old(self)@.pc + 2 > MEM_SIZE ==> r == Err::<u16, Fault>(Fault::OutOfBounds)
                && final(self)@ == old(self)@,
    {
        let op = match self.ram.read_opcode(self.pc) {
            Ok(op) => op,
            Err(f) => {
                return Err(f);
            },
        };
        self.pc = self.pc + OPCODE_SIZE;
        Ok(op)
    }

    /// One fetch-decode-execute cycle: exactly one instruction, as
    /// `state::step_outcome` describes. Only the random operation depends on
    /// the host's generator; every other instruction steps deterministically.
    pub fn tick(&mut self) -> (r: Result<(), Fault>)
        requires
            old(self).wf(),
        ensures
            final(self).wf(),
            exists|rnd: u8| #[trigger] state::step_outcome(old(self)@, rnd, r, final(self)@),
            !state::is_random_op(old(self)@) ==> state::step_outcome(
                old(self)@,
                0u8,
                r,
                final(self)@,
            ),
    {
        let ghost pre = self@;
        let op = match self.fetch() {
            Ok(op) => op,
            Err(f) => {
                proof {
                    assert(state::step_outcome(pre, 0u8, Err::<(), Fault>(f), self@));
                }
                return Err(f);
            },
        };
        let r = self.process(op);
        proof {
            if state::nib1(op) != 0xC {
                assert(state::step_outcome(pre, 0u8, r, self@));
            } else {
                let rnd = choose|rnd: u8|
                    #[trigger] state::process_outcome(state::fetched(pre), op, rnd, r, self@);
                assert(state::step_outcome(pre, rnd, r, self@));
            }
        }
        r
    }
}

/// Relies on rand::random: one byte from the host's random generator.
/// Nothing is assumed of the value; the contracts hold whatever comes back.
#[verifier::external_body]
fn random_byte() -> u8 {
    rand::random::<u8>()
}

/// The four 4-bit fields of an instruction word, high to low.
fn extract_nibbles(word: u16) -> (r: (u8, u8, u8, u8))
    ensures
        r.0 as u16 == state::nib1(word),
        r.1 as u16 == state::nib2(word),
        r.2 as u16 == state::nib3(word),
        r.3 as u16 == state::nib4(word),
{
    let nibble_1 = ((word & 0xF000) >> 12u16) as u8;
    let nibble_2 = ((word & 0xF00) >> 8u16) as u8;
    let nibble_3 = ((word & 0xF0) >> 4u16) as u8;
    let nibble_4 = (word & 0xF) as u8;
    proof {
        assert(((word & 0xF000) >> 12u16) as u8 as u16 == word >> 12u16) by (bit_vector);
        assert(((word & 0xF00) >> 8u16) as u8 as u16 == (word >> 8u16) & 0xF) by (bit_vector);
        assert(((word & 0xF0) >> 4u16) as u8 as u16 == (word >> 4u16) & 0xF) by (bit_vector);
        assert((word & 0xF) as u8 as u16 == word & 0xF) by (bit_vector);
    }
    (nibble_1, nibble_2, nibble_3, nibble_4)
}

} // verus!
