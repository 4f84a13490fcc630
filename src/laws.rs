//! Properties of the machine model that hold across operations.

use vstd::prelude::*;
use crate::machine::{
    MachineState, HostEvent, event_valid, apply_event, run, initial_state, load_state,
    step_state, word_at, nib1, nib2, low_byte, low12, timers_state, draw_state,
    draw_collides, sprite_hits, any_pressed, is_first_pressed, RAM_SIZE, STACK_SIZE,
    NUM_KEYS, SCREEN_SIZE, START_ADDR,
};

verus! {

/// An instruction step maps a well-formed state to a well-formed state.
pub proof fn law_step_preserves_wf(s: MachineState, rnd: u8)
    requires
        s.wf(),
    ensures
        step_state(s, rnd) is Ok ==> step_state(s, rnd)->Ok_0.wf(),
{
}

/// Every state that host events reach from a well-formed state is
/// well-formed.
pub proof fn law_run_preserves_wf(s: MachineState, events: Seq<HostEvent>)
    requires
        s.wf(),
        forall|k: int| 0 <= k < events.len() ==> event_valid(#[trigger] events[k]),
    ensures
        run(s, events) is Ok ==> run(s, events)->Ok_0.wf(),
    decreases events.len(),
{
    if events.len() > 0 {
        assert(event_valid(events[0]));
        law_step_preserves_wf(s, 0);
        match events[0] {
            HostEvent::Step(rnd) => law_step_preserves_wf(s, rnd),
            _ => {},
        }
        match apply_event(s, events[0]) {
            Ok(t) => {
                assert forall|k: int| 0 <= k < events.skip(1).len() implies event_valid(
                    #[trigger] events.skip(1)[k],
                ) by {
                    assert(events.skip(1)[k] == events[k + 1]);
                }
                law_run_preserves_wf(t, events.skip(1));
            },
            Err(_) => {},
        }
    }
}

/// Replay: two machines, whatever they held before, that are reset, given
/// the same program and then the same host events (the random bytes of
/// `C,X,N,N` included) end in the same outcome, and every state on the way
/// is well-formed. Each operation's contract fixes its result from the
/// state before it, and `reset` gives `initial_state()` from any state.
pub proof fn law_replay_from_reset(
    a: MachineState,
    b: MachineState,
    bytes: Seq<u8>,
    events: Seq<HostEvent>,
)
    requires
        a.wf(),
        b.wf(),
        bytes.len() <= RAM_SIZE - START_ADDR,
        forall|k: int| 0 <= k < events.len() ==> event_valid(#[trigger] events[k]),
    ensures
        ({
            let ra = run(load_state(initial_state(), bytes), events);
            let rb = run(load_state(initial_state(), bytes), events);
            &&& ra == rb
            &&& ra is Ok ==> ra->Ok_0.wf()
        }),
{
    let s = load_state(initial_state(), bytes);
    assert(s.wf());
    law_run_preserves_wf(s, events);
}

/// `C,X,N,N` always succeeds and leaves in register X the random byte masked
/// by NN: no bit outside NN is ever set.
pub proof fn law_random_is_masked(s: MachineState, rnd: u8)
    requires
        s.wf(),
        s.pc + 1 < RAM_SIZE,
        nib1(word_at(s.ram, s.pc as int)) == 0xC,
    ensures
        ({
            let op = word_at(s.ram, s.pc as int);
            let r = step_state(s, rnd);
            &&& r is Ok
            &&& r->Ok_0.v[nib2(op)] == rnd & low_byte(op)
            &&& r->Ok_0.v[nib2(op)] & !low_byte(op) == 0
        }),
{
    let op = word_at(s.ram, s.pc as int);
    let nn = low_byte(op);
    assert((rnd & nn) & !nn == 0) by (bit_vector);
}

/// Drawing the same sprite twice at the same place restores the screen, and
/// the second draw reports a collision exactly when the sprite covers at
/// least one pixel that was off before the first draw (on a clear screen:
/// when the sprite has any bit set).
pub proof fn law_draw_twice_restores(s: MachineState, x: u8, y: u8, n: int)
    requires
        s.wf(),
        0 <= n < 16,
        n == 0 || s.i + n <= RAM_SIZE,
    ensures
        ({
            let once = draw_state(s, x, y, n);
            let twice = draw_state(once, x, y, n);
            &&& twice.screen == s.screen
            &&& draw_collides(once, x, y, n) <==> exists|p: int|
                0 <= p < SCREEN_SIZE && #[trigger] sprite_hits(s, x, y, n, p) && !s.screen[p]
        }),
{
    let once = draw_state(s, x, y, n);
    let twice = draw_state(once, x, y, n);
    assert forall|p: int| 0 <= p < SCREEN_SIZE implies #[trigger] sprite_hits(once, x, y, n, p)
        == sprite_hits(s, x, y, n, p) by {}
    assert(twice.screen =~= s.screen);
    if exists|p: int| 0 <= p < SCREEN_SIZE && #[trigger] sprite_hits(s, x, y, n, p) && !s.screen[p] {
        let p = choose|p: int|
            0 <= p < SCREEN_SIZE && #[trigger] sprite_hits(s, x, y, n, p) && !s.screen[p];
        assert(sprite_hits(once, x, y, n, p) && once.screen[p]);
    }
    if draw_collides(once, x, y, n) {
        let p = choose|p: int|
            0 <= p < SCREEN_SIZE && #[trigger] sprite_hits(once, x, y, n, p) && once.screen[p];
        assert(sprite_hits(s, x, y, n, p));
    }
}

/// With no key pressed, a step on `F,X,0,A` changes nothing at all: the
/// program counter stays on the instruction and register X is untouched.
pub proof fn law_key_wait_retries(s: MachineState, rnd: u8)
    requires
        s.wf(),
        s.pc + 1 < RAM_SIZE,
        nib1(word_at(s.ram, s.pc as int)) == 0xF,
        low_byte(word_at(s.ram, s.pc as int)) == 0x0A,
        forall|k: int| 0 <= k < NUM_KEYS ==> !s.keys[k],
    ensures
        step_state(s, rnd) == Ok::<MachineState, crate::machine::Fault>(s),
{
    assert(!any_pressed(s.keys));
}

/// With a key pressed, a step on `F,X,0,A` completes: register X receives the
/// lowest pressed key and the program counter moves past the instruction.
pub proof fn law_key_wait_completes(s: MachineState, rnd: u8, k: int)
    requires
        s.wf(),
        s.pc + 1 < RAM_SIZE,
        nib1(word_at(s.ram, s.pc as int)) == 0xF,
        low_byte(word_at(s.ram, s.pc as int)) == 0x0A,
        is_first_pressed(s.keys, k),
    ensures
        ({
            let x = nib2(word_at(s.ram, s.pc as int));
            let r = step_state(s, rnd);
            &&& r is Ok
            &&& r->Ok_0.pc == s.pc + 2
            &&& r->Ok_0.v == s.v.update(x, k as u8)
        }),
{
    assert(any_pressed(s.keys));
    let c = choose|c: int| is_first_pressed(s.keys, c);
    assert(c == k);
}

/// Timers stop at zero: a timer tick never takes a zero timer to 255.
pub proof fn law_timer_floor(s: MachineState)
    ensures
        s.delay == 0 ==> timers_state(s).delay == 0,
        s.sound == 0 ==> timers_state(s).sound == 0,
        s.delay > 0 ==> timers_state(s).delay == s.delay - 1,
        s.sound > 0 ==> timers_state(s).sound == s.sound - 1,
{
}

/// A call to a subroutine that returns at once brings the program counter
/// back to the instruction after the call, with the stack depth as before
/// and everything else but the freed stack slot unchanged.
pub proof fn law_call_return(s: MachineState, r1: u8, r2: u8)
    requires
        s.wf(),
        s.pc + 1 < RAM_SIZE,
        nib1(word_at(s.ram, s.pc as int)) == 2,
        low12(word_at(s.ram, s.pc as int)) + 1 < RAM_SIZE,
        word_at(s.ram, low12(word_at(s.ram, s.pc as int)) as int) == 0x00EE,
        s.sp < STACK_SIZE,
    ensures
        ({
            let first = step_state(s, r1);
            &&& first is Ok
            &&& first->Ok_0.pc == low12(word_at(s.ram, s.pc as int))
            &&& first->Ok_0.sp == s.sp + 1
            &&& step_state(first->Ok_0, r2) == Ok::<MachineState, crate::machine::Fault>(
                MachineState { pc: (s.pc + 2) as u16, stack: s.stack.update(s.sp as int, (s.pc + 2) as u16), ..s },
            )
        }),
{
}

/// Calls nest: whatever a subroutine does in between, including calls of its
/// own, a return reached at the depth the call left, with that stack slot as
/// the call wrote it, goes back to the instruction after the call and to the
/// depth before it.
pub proof fn law_return_after_call(s: MachineState, t: MachineState, r1: u8, r2: u8)
    requires
        s.wf(),
        s.pc + 1 < RAM_SIZE,
        nib1(word_at(s.ram, s.pc as int)) == 2,
        s.sp < STACK_SIZE,
        t.wf(),
        t.pc + 1 < RAM_SIZE,
        word_at(t.ram, t.pc as int) == 0x00EE,
        t.sp == step_state(s, r1)->Ok_0.sp,
        t.stack[t.sp - 1] == step_state(s, r1)->Ok_0.stack[t.sp - 1],
    ensures
        step_state(s, r1) is Ok,
        step_state(s, r1)->Ok_0.sp == s.sp + 1,
        step_state(t, r2) is Ok,
        step_state(t, r2)->Ok_0.pc == s.pc + 2,
        step_state(t, r2)->Ok_0.sp == s.sp,
{
}

} // verus!
