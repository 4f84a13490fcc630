//! The mathematical model of the machine: its state as sequences and
//! integers, and the effect of every operation on it.

use vstd::prelude::*;

verus! {

pub const SCREEN_WIDTH: usize = 64;

pub const SCREEN_HEIGHT: usize = 32;

pub const SCREEN_SIZE: usize = 2048;

pub const RAM_SIZE: usize = 4096;

pub const NUM_REGS: usize = 16;

pub const STACK_SIZE: usize = 16;

pub const NUM_KEYS: usize = 16;

pub const START_ADDR: u16 = 0x200;

pub const FONTSET_SIZE: usize = 80;

/// A fatal condition met while executing an instruction. The machine is left
/// as it was before the step that raised it.
#[derive(Debug, Clone, Copy, PartialEq, Eq, Structural)]
pub enum Fault {
    /// The fetched word matches no instruction form; it carries the word.
    UnknownInstruction(u16),
    /// A fetch or a memory access would reach past the address space.
    AddressOutOfRange,
    /// A call with all stack slots in use.
    StackOverflow,
    /// A return with an empty call stack.
    StackUnderflow,
    /// A key test on a register whose value names no key; it carries the value.
    KeyOutOfRange(u8),
}

/// The whole observable state of a machine.
pub struct MachineState {
    pub pc: u16,
    pub ram: Seq<u8>,
    pub screen: Seq<bool>,
    pub v: Seq<u8>,
    pub i: u16,
    pub sp: u16,
    pub stack: Seq<u16>,
    pub keys: Seq<bool>,
    pub delay: u8,
    pub sound: u8,
}

impl MachineState {
    /// Every array has its fixed size and the stack pointer is within the stack.
    pub open spec fn wf(self) -> bool {
        &&& self.ram.len() == RAM_SIZE
        &&& self.screen.len() == SCREEN_SIZE
        &&& self.v.len() == NUM_REGS
        &&& self.stack.len() == STACK_SIZE
        &&& self.keys.len() == NUM_KEYS
        &&& self.sp <= STACK_SIZE
    }
}

/// The built-in sprites of the hexadecimal digits, five rows each.
pub open spec fn glyphs() -> Seq<u8> {
    seq![
        0xF0u8, 0x90, 0x90, 0x90, 0xF0,
        0x20, 0x60, 0x20, 0x20, 0x70,
        0xF0, 0x10, 0xF0, 0x80, 0xF0,
        0xF0, 0x10, 0xF0, 0x10, 0xF0,
        0x90, 0x90, 0xF0, 0x10, 0x10,
        0xF0, 0x80, 0xF0, 0x10, 0xF0,
        0xF0, 0x80, 0xF0, 0x90, 0xF0,
        0xF0, 0x10, 0x20, 0x40, 0x40,
        0xF0, 0x90, 0xF0, 0x90, 0xF0,
        0xF0, 0x90, 0xF0, 0x10, 0xF0,
        0xF0, 0x90, 0xF0, 0x90, 0x90,
        0xE0, 0x90, 0xE0, 0x90, 0xE0,
        0xF0, 0x80, 0x80, 0x80, 0xF0,
        0xE0, 0x90, 0x90, 0x90, 0xE0,
        0xF0, 0x80, 0xF0, 0x80, 0xF0,
        0xF0, 0x80, 0xF0, 0x80, 0x80,
    ]
}

/// Memory at power-on: the glyph table at address 0, zeros elsewhere.
pub open spec fn initial_ram() -> Seq<u8> {
    Seq::new(RAM_SIZE as nat, |a: int| if a < FONTSET_SIZE { glyphs()[a] } else { 0u8 })
}

/// The state after construction or reset.
pub open spec fn initial_state() -> MachineState {
    MachineState {
        pc: START_ADDR,
        ram: initial_ram(),
        screen: Seq::new(SCREEN_SIZE as nat, |p: int| false),
        v: Seq::new(NUM_REGS as nat, |r: int| 0u8),
        i: 0,
        sp: 0,
        stack: Seq::new(STACK_SIZE as nat, |k: int| 0u16),
        keys: Seq::new(NUM_KEYS as nat, |k: int| false),
        delay: 0,
        sound: 0,
    }
}

/// The state after copying `bytes` into memory from the program start on.
pub open spec fn load_state(s: MachineState, bytes: Seq<u8>) -> MachineState {
    MachineState {
        ram: Seq::new(
            s.ram.len(),
            |a: int|
                if START_ADDR <= a < START_ADDR + bytes.len() {
                    bytes[a - START_ADDR]
                } else {
                    s.ram[a]
                },
        ),
        ..s
    }
}

/// The state after the host reports key `k` as pressed or released.
pub open spec fn key_state(s: MachineState, k: int, pressed: bool) -> MachineState {
    MachineState { keys: s.keys.update(k, pressed), ..s }
}

/// One timer step: each timer drops by one unless it is already zero.
pub open spec fn timers_state(s: MachineState) -> MachineState {
    MachineState {
        delay: if s.delay > 0 { (s.delay - 1) as u8 } else { 0 },
        sound: if s.sound > 0 { (s.sound - 1) as u8 } else { 0 },
        ..s
    }
}

/// The instruction word at `pc`: two bytes, the first one high.
pub open spec fn word_at(ram: Seq<u8>, pc: int) -> u16 {
    (ram[pc] as int * 256 + ram[pc + 1] as int) as u16
}

pub open spec fn nib1(op: u16) -> int {
    op as int / 0x1000
}

pub open spec fn nib2(op: u16) -> int {
    (op as int / 0x100) % 0x10
}

pub open spec fn nib3(op: u16) -> int {
    (op as int / 0x10) % 0x10
}

pub open spec fn nib4(op: u16) -> int {
    op as int % 0x10
}

pub open spec fn low_byte(op: u16) -> u8 {
    (op as int % 0x100) as u8
}

pub open spec fn low12(op: u16) -> u16 {
    (op as int % 0x1000) as u16
}

/// Moves past the next instruction when `cond` holds.
pub open spec fn skip_if(s: MachineState, cond: bool) -> MachineState {
    if cond {
        MachineState { pc: (s.pc + 2) as u16, ..s }
    } else {
        s
    }
}

pub open spec fn set_reg(s: MachineState, x: int, val: u8) -> MachineState {
    MachineState { v: s.v.update(x, val), ..s }
}

/// Register `x` set to `val`, then the flag register set to `flag`.
pub open spec fn set_reg_flag(s: MachineState, x: int, val: u8, flag: u8) -> MachineState {
    MachineState { v: s.v.update(x, val).update(0xF, flag), ..s }
}

/// Column of screen position `p` within a sprite whose left edge is at `x`.
pub open spec fn sprite_col(x: u8, p: int) -> int {
    (p % SCREEN_WIDTH as int - x) % SCREEN_WIDTH as int
}

/// Row of screen position `p` within a sprite whose top edge is at `y`.
pub open spec fn sprite_row(y: u8, p: int) -> int {
    (p / SCREEN_WIDTH as int - y) % SCREEN_HEIGHT as int
}

/// Whether bit `col` of a sprite row, counted from the most significant, is set.
pub open spec fn row_bit(b: u8, col: int) -> bool {
    b & (0x80u8 >> (col as u8)) != 0
}

/// Whether drawing the `n`-row sprite at `s.i` with top-left corner
/// (`x`, `y`) toggles screen position `p`. Coordinates wrap around the screen.
pub open spec fn sprite_hits(s: MachineState, x: u8, y: u8, n: int, p: int) -> bool {
    let col = sprite_col(x, p);
    let row = sprite_row(y, p);
    &&& row < n
    &&& col < 8
    &&& row_bit(s.ram[s.i + row], col)
}

/// Whether the sprite turns off a pixel that was on.
pub open spec fn draw_collides(s: MachineState, x: u8, y: u8, n: int) -> bool {
    exists|p: int| 0 <= p < SCREEN_SIZE && #[trigger] sprite_hits(s, x, y, n, p) && s.screen[p]
}

pub open spec fn draw_state(s: MachineState, x: u8, y: u8, n: int) -> MachineState {
    MachineState {
        screen: Seq::new(SCREEN_SIZE as nat, |p: int| s.screen[p] != sprite_hits(s, x, y, n, p)),
        v: s.v.update(0xF, if draw_collides(s, x, y, n) { 1u8 } else { 0u8 }),
        ..s
    }
}

/// Key `k` is the lowest-numbered key that is pressed.
pub open spec fn is_first_pressed(keys: Seq<bool>, k: int) -> bool {
    &&& 0 <= k < NUM_KEYS
    &&& keys[k]
    &&& forall|j: int| 0 <= j < k ==> !keys[j]
}

pub open spec fn any_pressed(keys: Seq<bool>) -> bool {
    exists|k: int| 0 <= k < NUM_KEYS && keys[k]
}

/// The effect of the key-wait instruction: the first pressed key goes to
/// register `x`; with no key pressed the instruction is fetched again.
pub open spec fn wait_key_state(s: MachineState, x: int) -> MachineState {
    if any_pressed(s.keys) {
        let k = choose|k: int| is_first_pressed(s.keys, k);
        set_reg(s, x, k as u8)
    } else {
        MachineState { pc: (s.pc - 2) as u16, ..s }
    }
}

/// Registers 0 to `x` written to memory from the index register on.
pub open spec fn store_regs_state(s: MachineState, x: int) -> MachineState {
    MachineState {
        ram: Seq::new(
            s.ram.len(),
            |a: int| if s.i <= a <= s.i + x { s.v[a - s.i] } else { s.ram[a] },
        ),
        ..s
    }
}

/// Registers 0 to `x` read from memory from the index register on.
pub open spec fn load_regs_state(s: MachineState, x: int) -> MachineState {
    MachineState {
        v: Seq::new(s.v.len(), |r: int| if r <= x { s.ram[s.i + r] } else { s.v[r] }),
        ..s
    }
}

/// The decimal digits of `val` stored at the index register and the two
/// addresses after it, hundreds first.
pub open spec fn bcd_state(s: MachineState, val: u8) -> MachineState {
    MachineState {
        ram: s.ram.update(s.i as int, (val / 100) as u8).update(
            s.i + 1,
            ((val / 10) % 10) as u8,
        ).update(s.i + 2, (val % 10) as u8),
        ..s
    }
}

/// The arithmetic and logic family `8,X,Y,N`.
pub open spec fn alu_state(s: MachineState, op: u16) -> Result<MachineState, Fault> {
    let x = nib2(op);
    let y = nib3(op);
    let vx = s.v[x];
    let vy = s.v[y];
    let n = nib4(op);
    if n == 0 {
        Ok(set_reg(s, x, vy))
    } else if n == 1 {
        Ok(set_reg(s, x, vx | vy))
    } else if n == 2 {
        Ok(set_reg(s, x, vx & vy))
    } else if n == 3 {
        Ok(set_reg(s, x, vx ^ vy))
    } else if n == 4 {
        let sum = vx + vy;
        Ok(set_reg_flag(s, x, (sum % 256) as u8, if sum > 255 { 1 } else { 0 }))
    } else if n == 5 {
        Ok(set_reg_flag(s, x, ((vx - vy) % 256) as u8, if vx >= vy { 1 } else { 0 }))
    } else if n == 6 {
        Ok(set_reg_flag(s, x, vx >> 1u8, vx & 1))
    } else if n == 7 {
        Ok(set_reg_flag(s, x, ((vy - vx) % 256) as u8, if vy >= vx { 1 } else { 0 }))
    } else if n == 0xE {
        Ok(set_reg_flag(s, x, vx << 1u8, vx >> 7u8))
    } else {
        Err(Fault::UnknownInstruction(op))
    }
}

/// The timer, key-wait and memory family `F,X,_,_`.
pub open spec fn misc_state(s: MachineState, op: u16) -> Result<MachineState, Fault> {
    let x = nib2(op);
    let vx = s.v[x];
    let lo = low_byte(op);
    if lo == 0x07 {
        Ok(set_reg(s, x, s.delay))
    } else if lo == 0x0A {
        Ok(wait_key_state(s, x))
    } else if lo == 0x15 {
        Ok(MachineState { delay: vx, ..s })
    } else if lo == 0x18 {
        Ok(MachineState { sound: vx, ..s })
    } else if lo == 0x1E {
        Ok(MachineState { i: ((s.i + vx) % 0x10000) as u16, ..s })
    } else if lo == 0x29 {
        Ok(MachineState { i: (5 * vx) as u16, ..s })
    } else if lo == 0x33 {
        if s.i + 2 < RAM_SIZE {
            Ok(bcd_state(s, vx))
        } else {
            Err(Fault::AddressOutOfRange)
        }
    } else if lo == 0x55 {
        if s.i + x < RAM_SIZE {
            Ok(store_regs_state(s, x))
        } else {
            Err(Fault::AddressOutOfRange)
        }
    } else if lo == 0x65 {
        if s.i + x < RAM_SIZE {
            Ok(load_regs_state(s, x))
        } else {
            Err(Fault::AddressOutOfRange)
        }
    } else {
        Err(Fault::UnknownInstruction(op))
    }
}

/// The effect of executing `op` on `s`, whose program counter already points
/// past it; `rnd` is the random byte that `C,X,N,N` consumes.
pub open spec fn execute_state(s: MachineState, op: u16, rnd: u8) -> Result<MachineState, Fault> {
    let x = nib2(op);
    let y = nib3(op);
    let nn = low_byte(op);
    let nnn = low12(op);
    let f = nib1(op);
    if op == 0x0000 {
        Ok(s)
    } else if op == 0x00E0 {
        Ok(MachineState { screen: Seq::new(SCREEN_SIZE as nat, |p: int| false), ..s })
    } else if op == 0x00EE {
        if s.sp == 0 {
            Err(Fault::StackUnderflow)
        } else {
            Ok(MachineState { sp: (s.sp - 1) as u16, pc: s.stack[s.sp - 1], ..s })
        }
    } else if f == 1 {
        Ok(MachineState { pc: nnn, ..s })
    } else if f == 2 {
        if s.sp >= STACK_SIZE {
            Err(Fault::StackOverflow)
        } else {
            Ok(
                MachineState {
                    stack: s.stack.update(s.sp as int, s.pc),
                    sp: (s.sp + 1) as u16,
                    pc: nnn,
                    ..s
                },
            )
        }
    } else if f == 3 {
        Ok(skip_if(s, s.v[x] == nn))
    } else if f == 4 {
        Ok(skip_if(s, s.v[x] != nn))
    } else if f == 5 && nib4(op) == 0 {
        Ok(skip_if(s, s.v[x] == s.v[y]))
    } else if f == 6 {
        Ok(set_reg(s, x, nn))
    } else if f == 7 {
        Ok(set_reg(s, x, ((s.v[x] + nn) % 256) as u8))
    } else if f == 8 {
        alu_state(s, op)
    } else if f == 9 && nib4(op) == 0 {
        Ok(skip_if(s, s.v[x] != s.v[y]))
    } else if f == 0xA {
        Ok(MachineState { i: nnn, ..s })
    } else if f == 0xB {
        Ok(MachineState { pc: (s.v[0] + nnn) as u16, ..s })
    } else if f == 0xC {
        Ok(set_reg(s, x, rnd & nn))
    } else if f == 0xD {
        if nib4(op) > 0 && s.i + nib4(op) > RAM_SIZE {
            Err(Fault::AddressOutOfRange)
        } else {
            Ok(draw_state(s, s.v[x], s.v[y], nib4(op)))
        }
    } else if f == 0xE && (nn == 0x9E || nn == 0xA1) {
        if s.v[x] >= NUM_KEYS {
            Err(Fault::KeyOutOfRange(s.v[x]))
        } else if nn == 0x9E {
            Ok(skip_if(s, s.keys[s.v[x] as int]))
        } else {
            Ok(skip_if(s, !s.keys[s.v[x] as int]))
        }
    } else if f == 0xF {
        misc_state(s, op)
    } else {
        Err(Fault::UnknownInstruction(op))
    }
}

/// One full instruction step: fetch the word at the program counter, move
/// past it, execute it. A fault leaves the state as it was.
pub open spec fn step_state(s: MachineState, rnd: u8) -> Result<MachineState, Fault> {
    if s.pc + 1 >= RAM_SIZE {
        Err(Fault::AddressOutOfRange)
    } else {
        execute_state(
            MachineState { pc: (s.pc + 2) as u16, ..s },
            word_at(s.ram, s.pc as int),
            rnd,
        )
    }
}

/// An input that the host hands the machine.
pub enum HostEvent {
    /// One instruction step, with the byte that `C,X,N,N` would draw.
    Step(u8),
    /// A key reported as pressed (`true`) or released.
    Key(u8, bool),
    /// One timer tick.
    Timers,
}

pub open spec fn event_valid(e: HostEvent) -> bool {
    match e {
        HostEvent::Key(k, _) => k < NUM_KEYS,
        _ => true,
    }
}

pub open spec fn apply_event(s: MachineState, e: HostEvent) -> Result<MachineState, Fault> {
    match e {
        HostEvent::Step(rnd) => step_state(s, rnd),
        HostEvent::Key(k, pressed) => Ok(key_state(s, k as int, pressed)),
        HostEvent::Timers => Ok(timers_state(s)),
    }
}

/// The state after the host hands over `events` in order, or the first fault.
pub open spec fn run(s: MachineState, events: Seq<HostEvent>) -> Result<MachineState, Fault>
    decreases events.len(),
{
    if events.len() == 0 {
        Ok(s)
    } else {
        match apply_event(s, events[0]) {
            Ok(t) => run(t, events.skip(1)),
            Err(e) => Err(e),
        }
    }
}

/// `r` and the state `after` agree with the modelled outcome `expected` of
/// an operation started in `before`; a fault leaves the state as it was.
pub open spec fn outcome(
    before: MachineState,
    after: MachineState,
    r: Result<(), Fault>,
    expected: Result<MachineState, Fault>,
) -> bool {
    match r {
        Ok(_) => expected == Ok::<MachineState, Fault>(after),
        Err(e) => expected == Err::<MachineState, Fault>(e) && after == before,
    }
}

} // verus!
