//! Input of the live session: which events go to the remote host.
//!
//! Positions and scroll distances are fractions and stay outside; here stands what is sent, and in
//! which order.

use vstd::prelude::*;

verus! {

/// The pointer during a frame.
#[derive(Debug, Clone, Copy, PartialEq, Eq, Structural)]
pub struct PointerFrame {
    /// The pointer is over the picture and has a position.
    pub over: bool,
    pub primary_pressed: bool,
    pub primary_released: bool,
    pub secondary_pressed: bool,
    pub secondary_released: bool,
    /// The wheel was turned.
    pub scrolled: bool,
}

/// An event for the remote host. It carries the position of the pointer.
#[derive(Debug, Clone, Copy, PartialEq, Eq, Structural)]
pub enum PointerEvent {
    Move,
    Left { pressed: bool },
    Right { pressed: bool },
    Wheel,
}

/// One event where it happened, else none.
pub open spec fn when(happened: bool, event: PointerEvent) -> Seq<PointerEvent> {
    if happened {
        seq![event]
    } else {
        Seq::empty()
    }
}

/// What is sent for a frame: nothing unless the pointer is over the picture; else a move, then the
/// buttons, each pressed before it is released, then the wheel.
pub open spec fn sent_for(f: PointerFrame) -> Seq<PointerEvent> {
    if !f.over {
        Seq::empty()
    } else {
        seq![PointerEvent::Move] + when(f.primary_pressed, PointerEvent::Left { pressed: true })
            + when(f.primary_released, PointerEvent::Left { pressed: false }) + when(
            f.secondary_pressed,
            PointerEvent::Right { pressed: true },
        ) + when(f.secondary_released, PointerEvent::Right { pressed: false }) + when(
            f.scrolled,
            PointerEvent::Wheel,
        )
    }
}

fn push_when(out: &mut Vec<PointerEvent>, happened: bool, event: PointerEvent)
    ensures
        final(out)@ == old(out)@ + when(happened, event),
{
    if happened {
        out.push(event);
    }
    assert(out@ =~= old(out)@ + when(happened, event));
}

/// The pointer events of a frame, in the order in which they are sent.
pub fn pointer_events(f: PointerFrame) -> (r: Vec<PointerEvent>)
    ensures
        r@ == sent_for(f),
{
    let mut out: Vec<PointerEvent> = Vec::new();
    if !f.over {
        assert(out@ =~= sent_for(f));
        return out;
    }
    out.push(PointerEvent::Move);
    assert(out@ =~= seq![PointerEvent::Move]);
    push_when(&mut out, f.primary_pressed, PointerEvent::Left { pressed: true });
    push_when(&mut out, f.primary_released, PointerEvent::Left { pressed: false });
    push_when(&mut out, f.secondary_pressed, PointerEvent::Right { pressed: true });
    push_when(&mut out, f.secondary_released, PointerEvent::Right { pressed: false });
    push_when(&mut out, f.scrolled, PointerEvent::Wheel);
    out
}

/// Whether keys go to the remote host.
pub fn forwards_keys(focused: bool, hovered: bool) -> (r: bool)
    ensures
        r == (focused || hovered),
{
    focused || hovered
}

/// The modifier keys that are held.
#[derive(Debug, Clone, Copy, PartialEq, Eq, Structural)]
pub struct HeldModifiers {
    pub ctrl: bool,
    pub alt: bool,
    pub shift: bool,
    pub command: bool,
}

/// The bits that stand for the modifier keys on the wire.
#[derive(Debug, Clone, Copy, PartialEq, Eq, Structural)]
pub struct ModifierBits {
    pub ctrl: u32,
    pub alt: u32,
    pub shift: u32,
    pub meta: u32,
}

/// A bit pattern where a key is held, else no bit.
pub open spec fn held(key: bool, bits: u32) -> u32 {
    if key {
        bits
    } else {
        0
    }
}

/// The modifier keys that are held, as bits.
pub fn modifier_mask(keys: HeldModifiers, bits: ModifierBits) -> (r: u32)
    ensures
        r == held(keys.ctrl, bits.ctrl) | held(keys.alt, bits.alt) | held(keys.shift, bits.shift)
            | held(keys.command, bits.meta),
{
    let ctrl: u32 = if keys.ctrl {
        bits.ctrl
    } else {
        0
    };
    let alt: u32 = if keys.alt {
        bits.alt
    } else {
        0
    };
    let shift: u32 = if keys.shift {
        bits.shift
    } else {
        0
    };
    let meta: u32 = if keys.command {
        bits.meta
    } else {
        0
    };
    ctrl | alt | shift | meta
}

/// Nothing leaves the picture; over it the pointer moves first, and each thing that happened is sent
/// once and nothing else is.
pub proof fn law_frame_sends_what_happened(f: PointerFrame)
    ensures
        ({
            let sent = sent_for(f);
            &&& !f.over ==> sent.len() == 0
            &&& f.over ==> sent.len() > 0 && sent[0] == PointerEvent::Move
            &&& sent.no_duplicates()
            &&& sent.contains(PointerEvent::Left { pressed: true }) <==> f.over && f.primary_pressed
            &&& sent.contains(PointerEvent::Left { pressed: false }) <==> f.over
                && f.primary_released
            &&& sent.contains(PointerEvent::Right { pressed: true }) <==> f.over
                && f.secondary_pressed
            &&& sent.contains(PointerEvent::Right { pressed: false }) <==> f.over
                && f.secondary_released
            &&& sent.contains(PointerEvent::Wheel) <==> f.over && f.scrolled
        }),
{
    let move_on = seq![PointerEvent::Move];
    let a = when(f.primary_pressed, PointerEvent::Left { pressed: true });
    let b = when(f.primary_released, PointerEvent::Left { pressed: false });
    let c = when(f.secondary_pressed, PointerEvent::Right { pressed: true });
    let d = when(f.secondary_released, PointerEvent::Right { pressed: false });
    let e = when(f.scrolled, PointerEvent::Wheel);
    let sent = move_on + a + b + c + d + e;
    if f.over {
        assert(sent_for(f) == sent);
        if f.primary_pressed {
            assert(sent[1] == PointerEvent::Left { pressed: true });
        }
        if f.primary_released {
            assert(sent[1 + a.len() as int] == PointerEvent::Left { pressed: false });
        }
        if f.secondary_pressed {
            assert(sent[1 + a.len() + b.len() as int] == PointerEvent::Right { pressed: true });
        }
        if f.secondary_released {
            assert(sent[1 + a.len() + b.len() + c.len() as int] == PointerEvent::Right {
                pressed: false,
            });
        }
        if f.scrolled {
            assert(sent[1 + a.len() + b.len() + c.len() + d.len() as int] == PointerEvent::Wheel);
        }
    }
}

/// A button is released after it was pressed, and the wheel comes last.
pub proof fn law_press_comes_before_release(f: PointerFrame, i: int, j: int)
    requires
        0 <= i < sent_for(f).len(),
        0 <= j < sent_for(f).len(),
    ensures
        sent_for(f)[i] == (PointerEvent::Left { pressed: true }) && sent_for(f)[j] == (
        PointerEvent::Left { pressed: false }) ==> i < j,
        sent_for(f)[i] == (PointerEvent::Right { pressed: true }) && sent_for(f)[j] == (
        PointerEvent::Right { pressed: false }) ==> i < j,
        sent_for(f)[j] == PointerEvent::Wheel ==> j == sent_for(f).len() - 1,
{
}

/// A key that is held sets its bits, and one that is not sets none.
pub proof fn law_only_held_keys_set_bits(key: bool, bits: u32)
    ensures
        held(true, bits) == bits,
        held(false, bits) == 0,
        held(key, bits) | 0 == held(key, bits),
{
    let h = held(key, bits);
    assert(h | 0 == h) by (bit_vector);
}

} // verus!
