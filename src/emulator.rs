//! The machine itself: owned state and the operations a host drives it with.

use vstd::prelude::*;
use crate::machine::{
    MachineState, Fault, glyphs, initial_ram, initial_state, load_state, key_state, timers_state,
    word_at, nib1, nib2, nib3, nib4, low_byte, low12, outcome, step_state, execute_state,
    alu_state, misc_state, draw_state, draw_collides, sprite_hits, sprite_col, sprite_row,
    row_bit, wait_key_state, is_first_pressed, store_regs_state, load_regs_state, SCREEN_WIDTH, SCREEN_HEIGHT,
    RAM_SIZE, SCREEN_SIZE, NUM_REGS, STACK_SIZE, NUM_KEYS, START_ADDR, FONTSET_SIZE,
};

verus! {

/// A single machine instance. All state is owned; instances are independent.
pub struct Emulator {
    pc: u16,
    ram: Vec<u8>,
    screen: Vec<bool>,
    v_reg: Vec<u8>,
    i_reg: u16,
    sp: u16,
    stack: Vec<u16>,
    keys: Vec<bool>,
    delay_t: u8,
    sound_t: u8,
}

impl View for Emulator {
    type V = MachineState;

    closed spec fn view(&self) -> MachineState {
        MachineState {
            pc: self.pc,
            ram: self.ram@,
            screen: self.screen@,
            v: self.v_reg@,
            i: self.i_reg,
            sp: self.sp,
            stack: self.stack@,
            keys: self.keys@,
            delay: self.delay_t,
            sound: self.sound_t,
        }
    }
}

/// A vector of `n` copies of `val`.
fn filled<T: Copy>(val: T, n: usize) -> (r: Vec<T>)
    ensures
        r@ == Seq::new(n as nat, |_k: int| val),
{
    let mut r: Vec<T> = Vec::new();
    let mut k: usize = 0;
    while k < n
        invariant
            k <= n,
            r@ == Seq::new(k as nat, |_k: int| val),
        decreases n - k,
    {
        r.push(val);
        k = k + 1;
        assert(r@ =~= Seq::new(k as nat, |_k: int| val));
    }
    r
}

/// The glyph table as bytes.
fn glyph_table() -> (r: Vec<u8>)
    ensures
        r@ == glyphs(),
{
    let r: Vec<u8> = vec![
        0xF0, 0x90, 0x90, 0x90, 0xF0,
        0x20, 0x60, 0x20, 0x20, 0x70,
        0xF0, 0x10, 0xF0, 0x80, 0xF0,
        0xF0, 0x10, 0xF0, 0x10, 0xF0,
        0x90, 0x90, 0xF0, 0x10, 0x10,
        0xF0, 0x80, 0xF0, 0x10, 0xF0,
        0xF0, 0x80, 0xF0, 0x90, 0xF0,
        0xF0, 0x10, 0x20, 0x40, 0x40,
        0xF0, 0x90, 0xF0, 0x90, 0xF0,
        0xF0, 0x90, 0xF0, 0x10, 0xF0,
        0xF0, 0x90, 0xF0, 0x90, 0x90,
        0xE0, 0x90, 0xE0, 0x90, 0xE0,
        0xF0, 0x80, 0x80, 0x80, 0xF0,
        0xE0, 0x90, 0x90, 0x90, 0xE0,
        0xF0, 0x80, 0xF0, 0x80, 0xF0,
        0xF0, 0x80, 0xF0, 0x80, 0x80,
    ];
    assert(r@ =~= glyphs());
    r
}

/// Memory as it is at power-on.
fn initial_memory() -> (r: Vec<u8>)
    ensures
        r@ == initial_ram(),
{
    let font = glyph_table();
    let mut ram = filled(0u8, RAM_SIZE);
    let mut a: usize = 0;
    while a < FONTSET_SIZE
        invariant
            a <= FONTSET_SIZE,
            font@ == glyphs(),
            ram@.len() == RAM_SIZE,
            forall|b: int| 0 <= b < RAM_SIZE ==> #[trigger] ram@[b] == if b < a { glyphs()[b] } else { 0u8 },
        decreases FONTSET_SIZE - a,
    {
        ram.set(a, font[a]);
        a = a + 1;
    }
    assert(ram@ =~= initial_ram());
    ram
}

impl Emulator {
    /// A machine with all state zeroed, the glyph table in memory and the
    /// program counter at the program start.
    pub fn new() -> (r: Self)
        ensures
            r@ == initial_state(),
            r@.wf(),
    {
        let r = Emulator {
            pc: START_ADDR,
            ram: initial_memory(),
            screen: filled(false, SCREEN_SIZE),
            v_reg: filled(0u8, NUM_REGS),
            i_reg: 0,
            sp: 0,
            stack: filled(0u16, STACK_SIZE),
            keys: filled(false, NUM_KEYS),
            delay_t: 0,
            sound_t: 0,
        };
        assert(r@.screen =~= initial_state().screen);
        r
    }

    /// The framebuffer, row-major: pixel (x, y) is at `x + 64 * y`.
    pub fn get_display(&self) -> (r: &[bool])
        ensures
            r@ == self@.screen,
    {
        self.screen.as_slice()
    }

    /// Records key `idx` as pressed or released.
    pub fn keypress(&mut self, idx: usize, pressed: bool)
        requires
            old(self)@.wf(),
            idx < NUM_KEYS,
        ensures
            final(self)@ == key_state(old(self)@, idx as int, pressed),
            final(self)@.wf(),
    {
        self.keys.set(idx, pressed);
    }

    /// Copies `data` into memory from the program start on.
    pub fn load(&mut self, data: &[u8])
        requires
            old(self)@.wf(),
            data@.len() <= RAM_SIZE - START_ADDR,
        ensures
            final(self)@ == load_state(old(self)@, data@),
            final(self)@.wf(),
    {
        let start = START_ADDR as usize;
        let mut k: usize = 0;
        while k < data.len()
            invariant
                k <= data@.len(),
                data@.len() <= RAM_SIZE - START_ADDR,
                start == START_ADDR,
                old(self)@.wf(),
                self@ == (MachineState { ram: self@.ram, ..old(self)@ }),
                self.ram@.len() == RAM_SIZE,
                forall|a: int|
                    0 <= a < RAM_SIZE ==> #[trigger] self.ram@[a] == if start <= a < start + k {
                        data@[a - start]
                    } else {
                        old(self)@.ram[a]
                    },
            decreases data@.len() - k,
        {
            self.ram.set(start + k, data[k]);
            k = k + 1;
        }
        assert(self@.ram =~= load_state(old(self)@, data@).ram);
    }

    /// Restores the state that `new` gives, discarding any loaded program.
    pub fn reset(&mut self)
        ensures
            final(self)@ == initial_state(),
            final(self)@.wf(),
    {
        *self = Emulator::new();
    }

    /// Decrements each timer by one, stopping at zero.
    pub fn tick_timers(&mut self)
        ensures
            final(self)@ == timers_state(old(self)@),
    {
        if self.delay_t > 0 {
            self.delay_t = self.delay_t - 1;
        }
        if self.sound_t > 0 {
            self.sound_t = self.sound_t - 1;
        }
    }

    /// The program counter.
    pub fn pc(&self) -> (r: u16)
        ensures
            r == self@.pc,
    {
        self.pc
    }

    /// General register `x`.
    pub fn register(&self, x: usize) -> (r: u8)
        requires
            self@.wf(),
            x < NUM_REGS,
        ensures
            r == self@.v[x as int],
    {
        self.v_reg[x]
    }

    /// The index register.
    pub fn index(&self) -> (r: u16)
        ensures
            r == self@.i,
    {
        self.i_reg
    }

    /// The byte at address `addr`.
    pub fn memory(&self, addr: usize) -> (r: u8)
        requires
            self@.wf(),
            addr < RAM_SIZE,
        ensures
            r == self@.ram[addr as int],
    {
        self.ram[addr]
    }

    /// The number of return addresses on the call stack.
    pub fn stack_depth(&self) -> (r: u16)
        ensures
            r == self@.sp,
    {
        self.sp
    }

    /// The delay timer.
    pub fn delay_timer(&self) -> (r: u8)
        ensures
            r == self@.delay,
    {
        self.delay_t
    }

    /// The sound timer.
    pub fn sound_timer(&self) -> (r: u8)
        ensures
            r == self@.sound,
    {
        self.sound_t
    }
}

/// Relies on rand::random::<u8>: one byte from the thread-local generator.
/// Nothing is promised of its value.
#[verifier::external_body]
fn random_byte() -> (r: u8) {
    rand::random::<u8>()
}

/// The fields of an instruction word, as the decoder extracts them with masks
/// and shifts.
proof fn lemma_fields(op: u16)
    ensures
        (op & 0xF000) >> 12u16 == nib1(op),
        (op & 0x0F00) >> 8u16 == nib2(op),
        (op & 0x00F0) >> 4u16 == nib3(op),
        op & 0x000F == nib4(op),
        (op & 0x00FF) == low_byte(op),
        op & 0x0FFF == low12(op),
{
    assert((op & 0xF000) >> 12u16 == op / 0x1000) by (bit_vector);
    assert((op & 0x0F00) >> 8u16 == (op / 0x100) % 0x10) by (bit_vector);
    assert((op & 0x00F0) >> 4u16 == (op / 0x10) % 0x10) by (bit_vector);
    assert(op & 0x000F == op % 0x10) by (bit_vector);
    assert(op & 0x00FF == op % 0x100) by (bit_vector);
    assert(op & 0x0FFF == op % 0x1000) by (bit_vector);
}

/// Whether the pixel at `p` comes before sprite cell (`row`, `col`) in
/// drawing order.
spec fn drawn_before(x: u8, y: u8, p: int, row: int, col: int) -> bool {
    sprite_row(y, p) < row || (sprite_row(y, p) == row && sprite_col(x, p) < col)
}

/// Whether drawing has toggled `p` by the time it reaches cell (`row`, `col`).
spec fn toggled_before(s: MachineState, x: u8, y: u8, n: int, p: int, row: int, col: int) -> bool {
    sprite_hits(s, x, y, n, p) && drawn_before(x, y, p, row, col)
}

spec fn collided_before(s: MachineState, x: u8, y: u8, n: int, row: int, col: int) -> bool {
    exists|p: int|
        0 <= p < SCREEN_SIZE && s.screen[p] && #[trigger] toggled_before(s, x, y, n, p, row, col)
}

/// Sprite cell (`row`, `col`) lands on exactly one screen position, and that
/// position is the one the drawing loop computes.
proof fn lemma_cell_position(x: u8, y: u8, row: int, col: int, p: int)
    requires
        0 <= row < SCREEN_HEIGHT,
        0 <= col < 8,
        0 <= p < SCREEN_SIZE,
    ensures
        0 <= (x + col) % 64 + 64 * ((y + row) % 32) < SCREEN_SIZE,
        (p == (x + col) % 64 + 64 * ((y + row) % 32)) <==> (sprite_col(x, p) == col
            && sprite_row(y, p) == row),
{
    let a = p % 64;
    let b = p / 64;
    assert(p == a + 64 * b);
    assert(0 <= b < 32);
    let px = (x + col) % 64;
    let py = (y + row) % 32;
    assert(sprite_col(x, px + 64 * py) == col) by {
        assert((px + 64 * py) % 64 == px);
    }
    assert(sprite_row(y, px + 64 * py) == row) by {
        assert((px + 64 * py) / 64 == py);
    }
    if sprite_col(x, p) == col && sprite_row(y, p) == row {
        assert(a == px);
        assert(b == py);
    }
}

impl Emulator {
    /// Reads the instruction word at the program counter and moves past it.
    fn fetch(&mut self) -> (r: Result<u16, Fault>)
        requires
            old(self)@.wf(),
        ensures
            final(self)@.wf(),
            match r {
                Ok(op) => {
                    &&& old(self)@.pc + 1 < RAM_SIZE
                    &&& op == word_at(old(self)@.ram, old(self)@.pc as int)
                    &&& final(self)@ == (MachineState { pc: (old(self)@.pc + 2) as u16, ..old(self)@ })
                },
                Err(e) => old(self)@.pc + 1 >= RAM_SIZE && e == Fault::AddressOutOfRange
                    && final(self)@ == old(self)@,
            },
    {
        if self.pc as usize + 1 >= RAM_SIZE {
            return Err(Fault::AddressOutOfRange);
        }
        let upper_byte = self.ram[self.pc as usize] as u16;
        let lower_byte = self.ram[self.pc as usize + 1] as u16;
        let op = (upper_byte << 8u16) | lower_byte;
        assert(op == upper_byte * 256 + lower_byte) by (bit_vector)
            requires
                upper_byte < 256,
                lower_byte < 256,
                op == (upper_byte << 8u16) | lower_byte,
        ;
        self.pc = self.pc + 2;
        Ok(op)
    }

    fn push(&mut self, val: u16)
        requires
            old(self)@.wf(),
            old(self)@.sp < STACK_SIZE,
        ensures
            final(self)@ == (MachineState {
                stack: old(self)@.stack.update(old(self)@.sp as int, val),
                sp: (old(self)@.sp + 1) as u16,
                ..old(self)@
            }),
    {
        self.stack.set(self.sp as usize, val);
        self.sp = self.sp + 1;
    }

    fn pop(&mut self) -> (r: u16)
        requires
            old(self)@.wf(),
            old(self)@.sp > 0,
        ensures
            r == old(self)@.stack[old(self)@.sp - 1],
            final(self)@ == (MachineState { sp: (old(self)@.sp - 1) as u16, ..old(self)@ }),
    {
        self.sp = self.sp - 1;
        self.stack[self.sp as usize]
    }

    /// XORs the `n`-row sprite at the index register onto the screen at
    /// (`x`, `y`), wrapping at the edges, and sets the flag register to
    /// whether any pixel was turned off.
    fn draw(&mut self, x: u8, y: u8, n: u16)
        requires
            old(self)@.wf(),
            n < 16,
            n == 0 || old(self)@.i + n <= RAM_SIZE,
        ensures
            final(self)@ == draw_state(old(self)@, x, y, n as int),
            final(self)@.wf(),
    {
        let ghost s0 = self@;
        let ghost ni = n as int;
        let mut flipped = false;
        let mut y_line: u16 = 0;
        while y_line < n
            invariant
                s0.wf(),
                n < 16,
                n == 0 || s0.i + n <= RAM_SIZE,
                ni == n as int,
                y_line <= n,
                self@ == (MachineState { screen: self@.screen, ..s0 }),
                self.screen@.len() == SCREEN_SIZE,
                forall|p: int|
                    0 <= p < SCREEN_SIZE ==> #[trigger] self.screen@[p] == (s0.screen[p]
                        != toggled_before(s0, x, y, ni, p, y_line as int, 0)),
                flipped == collided_before(s0, x, y, ni, y_line as int, 0),
            decreases n - y_line,
        {
            let addr = self.i_reg + y_line;
            let pixels = self.ram[addr as usize];
            let mut x_line: u8 = 0;
            while x_line < 8
                invariant
                    s0.wf(),
                    n < 16,
                    ni == n as int,
                    y_line < n,
                    x_line <= 8,
                    pixels == s0.ram[s0.i + y_line],
                    self@ == (MachineState { screen: self@.screen, ..s0 }),
                    self.screen@.len() == SCREEN_SIZE,
                    forall|p: int|
                        0 <= p < SCREEN_SIZE ==> #[trigger] self.screen@[p] == (s0.screen[p]
                            != toggled_before(s0, x, y, ni, p, y_line as int, x_line as int)),
                    flipped == collided_before(s0, x, y, ni, y_line as int, x_line as int),
                decreases 8 - x_line,
            {
                let ghost row = y_line as int;
                let ghost col = x_line as int;
                let ghost bit = row_bit(pixels, col);
                assert(bit == (pixels & (0x80u8 >> x_line) != 0));
                let px = (x as usize + x_line as usize) % SCREEN_WIDTH;
                let py = (y as usize + y_line as usize) % SCREEN_HEIGHT;
                let idx = px + SCREEN_WIDTH * py;
                proof {
                    lemma_cell_position(x, y, row, col, idx as int);
                    assert forall|p: int| 0 <= p < SCREEN_SIZE implies
                        #[trigger] toggled_before(s0, x, y, ni, p, row, col + 1)
                            == (toggled_before(s0, x, y, ni, p, row, col) || (p == idx && bit)) by {
                        lemma_cell_position(x, y, row, col, p);
                    }
                }
                if pixels & (0x80u8 >> x_line) != 0 {
                    let cur = self.screen[idx];
                    flipped = flipped || cur;
                    self.screen.set(idx, !cur);
                    proof {
                        assert(!toggled_before(s0, x, y, ni, idx as int, row, col));
                    }
                }
                x_line = x_line + 1;
                proof {
                    if flipped {
                        if collided_before(s0, x, y, ni, row, col) {
                            let q = choose|q: int|
                                0 <= q < SCREEN_SIZE && s0.screen[q] && #[trigger] toggled_before(
                                    s0, x, y, ni, q, row, col);
                            assert(toggled_before(s0, x, y, ni, q, row, col + 1));
                        } else {
                            assert(toggled_before(s0, x, y, ni, idx as int, row, col + 1));
                        }
                    }
                    if collided_before(s0, x, y, ni, row, col + 1) {
                        let q = choose|q: int|
                            0 <= q < SCREEN_SIZE && s0.screen[q] && #[trigger] toggled_before(
                                s0, x, y, ni, q, row, col + 1);
                        if q != idx {
                            assert(toggled_before(s0, x, y, ni, q, row, col));
                        }
                    }
                    assert forall|p: int| 0 <= p < SCREEN_SIZE implies #[trigger] self.screen@[p]
                        == (s0.screen[p] != toggled_before(s0, x, y, ni, p, row, col + 1)) by {
                        assert(toggled_before(s0, x, y, ni, p, row, col + 1)
                            == (toggled_before(s0, x, y, ni, p, row, col) || (p == idx && bit)));
                    }
                }
            }
            proof {
                assert forall|p: int| 0 <= p < SCREEN_SIZE implies #[trigger] toggled_before(
                    s0, x, y, ni, p, y_line as int, 8)
                    == toggled_before(s0, x, y, ni, p, y_line + 1, 0) by {}
                if flipped {
                    let q = choose|q: int|
                        0 <= q < SCREEN_SIZE && s0.screen[q] && #[trigger] toggled_before(
                            s0, x, y, ni, q, y_line as int, 8);
                    assert(toggled_before(s0, x, y, ni, q, y_line + 1, 0));
                }
                if collided_before(s0, x, y, ni, y_line + 1, 0) {
                    let q = choose|q: int|
                        0 <= q < SCREEN_SIZE && s0.screen[q] && #[trigger] toggled_before(
                            s0, x, y, ni, q, y_line + 1, 0);
                    assert(toggled_before(s0, x, y, ni, q, y_line as int, 8));
                }
            }
            y_line = y_line + 1;
        }
        proof {
            assert forall|p: int| 0 <= p < SCREEN_SIZE implies #[trigger] toggled_before(
                s0, x, y, ni, p, ni, 0) == sprite_hits(s0, x, y, ni, p) by {}
            if flipped {
                let q = choose|q: int|
                    0 <= q < SCREEN_SIZE && s0.screen[q] && #[trigger] toggled_before(
                        s0, x, y, ni, q, ni, 0);
                assert(sprite_hits(s0, x, y, ni, q));
            }
            if draw_collides(s0, x, y, ni) {
                let q = choose|q: int|
                    0 <= q < SCREEN_SIZE && #[trigger] sprite_hits(s0, x, y, ni, q) && s0.screen[q];
                assert(toggled_before(s0, x, y, ni, q, ni, 0));
            }
            assert(self.screen@ =~= draw_state(s0, x, y, ni).screen);
        }
        if flipped {
            self.v_reg.set(0xF, 1);
        } else {
            self.v_reg.set(0xF, 0);
        }
    }

    /// Stores the lowest-numbered pressed key in register `x`; with no key
    /// pressed, steps back so that the same instruction runs again.
    fn wait_key(&mut self, x: usize)
        requires
            old(self)@.wf(),
            x < NUM_REGS,
            old(self)@.pc >= 2,
        ensures
            final(self)@ == wait_key_state(old(self)@, x as int),
            final(self)@.wf(),
    {
        let mut k: usize = 0;
        while k < NUM_KEYS
            invariant
                self@ == old(self)@,
                self@.wf(),
                x < NUM_REGS,
                k <= NUM_KEYS,
                forall|j: int| 0 <= j < k ==> !self.keys@[j],
            decreases NUM_KEYS - k,
        {
            if self.keys[k] {
                proof {
                    assert(is_first_pressed(self.keys@, k as int));
                    let c = choose|c: int| is_first_pressed(self.keys@, c);
                    assert(c == k);
                }
                self.v_reg.set(x, k as u8);
                return;
            }
            k = k + 1;
        }
        self.pc = self.pc - 2;
    }

    /// The arithmetic and logic family `8,X,Y,N`.
    fn execute_alu(&mut self, op: u16, x: usize, y: usize, n: u16) -> (r: Result<(), Fault>)
        requires
            old(self)@.wf(),
            nib1(op) == 8,
            x == nib2(op),
            y == nib3(op),
            n == nib4(op),
        ensures
            outcome(old(self)@, final(self)@, r, alu_state(old(self)@, op)),
            final(self)@.wf(),
    {
        let vx = self.v_reg[x];
        let vy = self.v_reg[y];
        if n == 0 {
            self.v_reg.set(x, vy);
        } else if n == 1 {
            self.v_reg.set(x, vx | vy);
        } else if n == 2 {
            self.v_reg.set(x, vx & vy);
        } else if n == 3 {
            self.v_reg.set(x, vx ^ vy);
        } else if n == 4 {
            let sum: u16 = vx as u16 + vy as u16;
            self.v_reg.set(x, (sum % 256) as u8);
            self.v_reg.set(0xF, if sum > 255 { 1 } else { 0 });
        } else if n == 5 {
            self.v_reg.set(x, vx.wrapping_sub(vy));
            self.v_reg.set(0xF, if vx >= vy { 1 } else { 0 });
        } else if n == 6 {
            self.v_reg.set(x, vx >> 1u8);
            self.v_reg.set(0xF, vx & 1);
        } else if n == 7 {
            self.v_reg.set(x, vy.wrapping_sub(vx));
            self.v_reg.set(0xF, if vy >= vx { 1 } else { 0 });
        } else if n == 0xE {
            self.v_reg.set(x, vx << 1u8);
            self.v_reg.set(0xF, vx >> 7u8);
        } else {
            return Err(Fault::UnknownInstruction(op));
        }
        Ok(())
    }

    /// The timer, key-wait and memory family `F,X,_,_`.
    fn execute_misc(&mut self, op: u16, x: usize) -> (r: Result<(), Fault>)
        requires
            old(self)@.wf(),
            old(self)@.pc >= 2,
            nib1(op) == 0xF,
            x == nib2(op),
        ensures
            outcome(old(self)@, final(self)@, r, misc_state(old(self)@, op)),
            final(self)@.wf(),
    {
        let lo = (op & 0x00FF) as u8;
        proof {
            lemma_fields(op);
        }
        let vx = self.v_reg[x];
        if lo == 0x07 {
            self.v_reg.set(x, self.delay_t);
        } else if lo == 0x0A {
            self.wait_key(x);
        } else if lo == 0x15 {
            self.delay_t = vx;
        } else if lo == 0x18 {
            self.sound_t = vx;
        } else if lo == 0x1E {
            self.i_reg = self.i_reg.wrapping_add(vx as u16);
        } else if lo == 0x29 {
            self.i_reg = (vx as u16) * 5;
        } else if lo == 0x33 {
            let i = self.i_reg as usize;
            if i + 2 >= RAM_SIZE {
                return Err(Fault::AddressOutOfRange);
            }
            self.ram.set(i, vx / 100);
            self.ram.set(i + 1, (vx / 10) % 10);
            self.ram.set(i + 2, vx % 10);
        } else if lo == 0x55 {
            let i = self.i_reg as usize;
            if i + x >= RAM_SIZE {
                return Err(Fault::AddressOutOfRange);
            }
            let ghost s0 = self@;
            let mut idx: usize = 0;
            while idx <= x
                invariant
                    s0.wf(),
                    x < NUM_REGS,
                    i == s0.i,
                    i + x < RAM_SIZE,
                    idx <= x + 1,
                    self@ == (MachineState { ram: self@.ram, ..s0 }),
                    self.ram@.len() == RAM_SIZE,
                    forall|a: int|
                        0 <= a < RAM_SIZE ==> #[trigger] self.ram@[a] == if i <= a < i + idx {
                            s0.v[a - i]
                        } else {
                            s0.ram[a]
                        },
                decreases x + 1 - idx,
            {
                self.ram.set(i + idx, self.v_reg[idx]);
                idx = idx + 1;
            }
            assert(self.ram@ =~= store_regs_state(s0, x as int).ram);
        } else if lo == 0x65 {
            let i = self.i_reg as usize;
            if i + x >= RAM_SIZE {
                return Err(Fault::AddressOutOfRange);
            }
            let ghost s0 = self@;
            let mut idx: usize = 0;
            while idx <= x
                invariant
                    s0.wf(),
                    x < NUM_REGS,
                    i == s0.i,
                    i + x < RAM_SIZE,
                    idx <= x + 1,
                    self@ == (MachineState { v: self@.v, ..s0 }),
                    self.v_reg@.len() == NUM_REGS,
                    forall|r: int|
                        0 <= r < NUM_REGS ==> #[trigger] self.v_reg@[r] == if r < idx {
                            s0.ram[i + r]
                        } else {
                            s0.v[r]
                        },
                decreases x + 1 - idx,
            {
                let b = self.ram[i + idx];
                self.v_reg.set(idx, b);
                idx = idx + 1;
            }
            assert(self.v_reg@ =~= load_regs_state(s0, x as int).v);
        } else {
            return Err(Fault::UnknownInstruction(op));
        }
        Ok(())
    }

    /// Executes `op`; the program counter already points past it. `rnd` is
    /// the byte that `C,X,N,N` masks.
    fn execute(&mut self, op: u16, rnd: u8) -> (r: Result<(), Fault>)
        requires
            old(self)@.wf(),
            2 <= old(self)@.pc <= RAM_SIZE,
        ensures
            outcome(old(self)@, final(self)@, r, execute_state(old(self)@, op, rnd)),
            final(self)@.wf(),
    {
        let hex_1 = (op & 0xF000) >> 12u16;
        let hex_2 = (op & 0x0F00) >> 8u16;
        let hex_3 = (op & 0x00F0) >> 4u16;
        let hex_4 = op & 0x000F;
        let nn = (op & 0x00FF) as u8;
        let nnn = op & 0x0FFF;
        proof {
            lemma_fields(op);
        }
        let x = hex_2 as usize;
        let y = hex_3 as usize;
        if op == 0x0000 {
        } else if op == 0x00E0 {
            self.screen = filled(false, SCREEN_SIZE);
            assert(self.screen@ =~= Seq::new(SCREEN_SIZE as nat, |p: int| false));
        } else if op == 0x00EE {
            if self.sp == 0 {
                return Err(Fault::StackUnderflow);
            }
            let ret_addr = self.pop();
            self.pc = ret_addr;
        } else if hex_1 == 1 {
            self.pc = nnn;
        } else if hex_1 == 2 {
            if self.sp as usize >= STACK_SIZE {
                return Err(Fault::StackOverflow);
            }
            let here = self.pc;
            self.push(here);
            self.pc = nnn;
        } else if hex_1 == 3 {
            if self.v_reg[x] == nn {
                self.pc = self.pc + 2;
            }
        } else if hex_1 == 4 {
            if self.v_reg[x] != nn {
                self.pc = self.pc + 2;
            }
        } else if hex_1 == 5 && hex_4 == 0 {
            if self.v_reg[x] == self.v_reg[y] {
                self.pc = self.pc + 2;
            }
        } else if hex_1 == 6 {
            self.v_reg.set(x, nn);
        } else if hex_1 == 7 {
            let vx = self.v_reg[x];
            self.v_reg.set(x, vx.wrapping_add(nn));
        } else if hex_1 == 8 {
            return self.execute_alu(op, x, y, hex_4);
        } else if hex_1 == 9 && hex_4 == 0 {
            if self.v_reg[x] != self.v_reg[y] {
                self.pc = self.pc + 2;
            }
        } else if hex_1 == 0xA {
            self.i_reg = nnn;
        } else if hex_1 == 0xB {
            self.pc = self.v_reg[0] as u16 + nnn;
        } else if hex_1 == 0xC {
            self.v_reg.set(x, rnd & nn);
        } else if hex_1 == 0xD {
            if hex_4 > 0 && self.i_reg as usize + hex_4 as usize > RAM_SIZE {
                return Err(Fault::AddressOutOfRange);
            }
            let x_coord = self.v_reg[x];
            let y_coord = self.v_reg[y];
            self.draw(x_coord, y_coord, hex_4);
        } else if hex_1 == 0xE && (nn == 0x9E || nn == 0xA1) {
            let vx = self.v_reg[x];
            if vx as usize >= NUM_KEYS {
                return Err(Fault::KeyOutOfRange(vx));
            }
            let key = self.keys[vx as usize];
            if (nn == 0x9E && key) || (nn == 0xA1 && !key) {
                self.pc = self.pc + 2;
            }
        } else if hex_1 == 0xF {
            return self.execute_misc(op, x);
        } else {
            return Err(Fault::UnknownInstruction(op));
        }
        Ok(())
    }

    /// One fetch/decode/execute cycle in which `C,X,N,N` uses `rnd` as its
    /// random byte. On a fault the machine is left as it was.
    pub fn tick_with(&mut self, rnd: u8) -> (r: Result<(), Fault>)
        requires
            old(self)@.wf(),
        ensures
            outcome(old(self)@, final(self)@, r, step_state(old(self)@, rnd)),
            final(self)@.wf(),
    {
        let old_pc = self.pc;
        let op = match self.fetch() {
            Ok(op) => op,
            Err(e) => return Err(e),
        };
        match self.execute(op, rnd) {
            Ok(()) => Ok(()),
            Err(e) => {
                self.pc = old_pc;
                Err(e)
            },
        }
    }

    /// One fetch/decode/execute cycle, with `C,X,N,N` drawing a fresh random
    /// byte. The result is the modelled step for some random byte; on a
    /// fault the machine is left as it was.
    pub fn tick(&mut self) -> (r: Result<(), Fault>)
        requires
            old(self)@.wf(),
        ensures
            exists|rnd: u8|
                outcome(old(self)@, final(self)@, r, #[trigger] step_state(old(self)@, rnd)),
            final(self)@.wf(),
    {
        let rnd = random_byte();
        self.tick_with(rnd)
    }
}

} // verus!
