//! Tracked state related to the mouse: which buttons are down, and where each was pressed.
use vstd::prelude::*;

verus! {

/// The max total number of buttons on a mouse.
pub const NUM_BUTTONS: usize = 9;

/// A mouse button.
#[derive(Copy, Clone, Debug, PartialEq, Eq, Hash, Structural)]
pub enum Button {
    Left,
    Right,
    Middle,
    Other(u8),
}

/// Whether the button is up or down.
#[derive(Copy, Clone, Debug, PartialEq)]
pub enum ButtonPosition<P> {
    /// The button is up (i.e. pressed).
    Up,
    /// The button is down and was pressed down at the given position.
    Down(P),
}

/// Stores the state of all mouse buttons.
///
/// If the mouse button is down, it stores the position of the mouse when the button was pressed.
#[derive(Copy, Clone, Debug, PartialEq)]
pub struct ButtonMap<P> {
    buttons: [ButtonPosition<P>; 9],
}

/// An iterator yielding all pressed buttons.
pub struct PressedButtons<P> {
    buttons: [ButtonPosition<P>; 9],
    next: usize,
}

/// The slot of the button map that holds the given button.
pub open spec fn spec_button_to_idx(button: Button) -> int {
    match button {
        Button::Other(n) => n as int,
        Button::Left => 6,
        Button::Right => 7,
        Button::Middle => 8,
    }
}

/// The button held in the given slot of the button map.
pub open spec fn spec_idx_to_button(i: int) -> Button {
    if 0 <= i <= 5 {
        Button::Other(i as u8)
    } else if i == 6 {
        Button::Left
    } else if i == 7 {
        Button::Right
    } else if i == 8 {
        Button::Middle
    } else {
        Button::Other(u8::MAX)
    }
}

/// Whether the button has a slot in the button map.
pub open spec fn has_slot(button: Button) -> bool {
    spec_button_to_idx(button) < NUM_BUTTONS
}

fn idx_to_button(i: usize) -> (r: Button)
    ensures
        r == spec_idx_to_button(i as int),
{
    if i <= 5 {
        Button::Other(i as u8)
    } else if i == 6 {
        Button::Left
    } else if i == 7 {
        Button::Right
    } else if i == 8 {
        Button::Middle
    } else {
        Button::Other(u8::MAX)
    }
}

fn button_to_idx(button: Button) -> (r: usize)
    ensures
        r == spec_button_to_idx(button),
{
    match button {
        Button::Other(n) => n as usize,
        Button::Left => 6,
        Button::Right => 7,
        Button::Middle => 8,
    }
}

/// Every slot of the button map holds the button that is stored in it.
pub proof fn lemma_slots_round_trip(i: int)
    requires
        0 <= i < NUM_BUTTONS,
    ensures
        spec_button_to_idx(spec_idx_to_button(i)) == i,
        has_slot(spec_idx_to_button(i)),
{
}

/// Whether the button is one of the mouse's own: the left, right and middle buttons and
/// `Other(0)` to `Other(5)`. (`Other(6)` to `Other(8)` name the slots of the left, right and
/// middle buttons.)
pub open spec fn is_mouse_button(b: Button) -> bool {
    match b {
        Button::Other(n) => n <= 5,
        _ => true,
    }
}

/// Distinct mouse buttons have distinct slots, and the slot of a mouse button holds that very
/// button: pressing or releasing one button never touches another's slot.
pub proof fn lemma_slots_distinct(b1: Button, b2: Button)
    requires
        is_mouse_button(b1),
        is_mouse_button(b2),
    ensures
        has_slot(b1),
        spec_button_to_idx(b1) == spec_button_to_idx(b2) <==> b1 == b2,
        spec_idx_to_button(spec_button_to_idx(b1)) == b1,
{
    match b1 {
        Button::Other(n) => {
            assert((n as int) as u8 == n);
        },
        _ => {},
    }
}

impl<P> ButtonPosition<P> {
    /// Is the `ButtonPosition` down.
    pub fn is_down(&self) -> (r: bool)
        ensures
            r == (*self is Down),
    {
        match *self {
            ButtonPosition::Down(_) => true,
            _ => false,
        }
    }

    /// Is the `ButtonPosition` up.
    pub fn is_up(&self) -> (r: bool)
        ensures
            r == (*self is Up),
    {
        match *self {
            ButtonPosition::Up => true,
            _ => false,
        }
    }
}

impl<P: Copy> ButtonPosition<P> {
    /// Returns the position at which the button was pressed.
    pub fn if_down(&self) -> (r: Option<P>)
        ensures
            match *self {
                ButtonPosition::Down(xy) => r == Some(xy),
                ButtonPosition::Up => r is None,
            },
    {
        match *self {
            ButtonPosition::Down(xy) => Some(xy),
            _ => None,
        }
    }
}

impl<P> ButtonMap<P> {
    /// The state of each slot of the map, in slot order.
    pub closed spec fn slots(self) -> Seq<ButtonPosition<P>> {
        self.buttons@
    }

    /// The state of the given button.
    pub open spec fn spec_position(self, button: Button) -> ButtonPosition<P> {
        self.slots()[spec_button_to_idx(button)]
    }
}

impl<P: Copy> ButtonMap<P> {
    /// Returns a new button map with all states set to `Up`.
    pub fn new() -> (r: Self)
        ensures
            r.slots().len() == NUM_BUTTONS,
            forall|i: int| 0 <= i < NUM_BUTTONS ==> #[trigger] r.slots()[i] is Up,
    {
        let up = ButtonPosition::Up;
        ButtonMap { buttons: [up, up, up, up, up, up, up, up, up] }
    }

    /// The state of the given button.
    pub fn get(&self, button: Button) -> (r: ButtonPosition<P>)
        requires
            has_slot(button),
        ensures
            r == self.spec_position(button),
    {
        self.buttons[button_to_idx(button)]
    }

    /// The state of the left mouse button.
    pub fn left(&self) -> (r: ButtonPosition<P>)
        ensures
            r == self.spec_position(Button::Left),
    {
        self.get(Button::Left)
    }

    /// The state of the middle mouse button.
    pub fn middle(&self) -> (r: ButtonPosition<P>)
        ensures
            r == self.spec_position(Button::Middle),
    {
        self.get(Button::Middle)
    }

    /// The state of the right mouse button.
    pub fn right(&self) -> (r: ButtonPosition<P>)
        ensures
            r == self.spec_position(Button::Right),
    {
        self.get(Button::Right)
    }

    /// Sets the `Button` in the `Down` position.
    pub fn press(&mut self, button: Button, xy: P)
        requires
            has_slot(button),
        ensures
            final(self).slots() == old(self).slots().update(
                spec_button_to_idx(button),
                ButtonPosition::Down(xy),
            ),
            final(self).spec_position(button) == ButtonPosition::Down(xy),
            forall|other: Button|
                #![trigger final(self).spec_position(other)]
                is_mouse_button(button) && is_mouse_button(other) && other != button
                    ==> final(self).spec_position(other) == old(self).spec_position(other),
    {
        let i = button_to_idx(button);
        self.buttons.set(i, ButtonPosition::Down(xy));
    }

    /// Set's the `Button` in the `Up` position.
    pub fn release(&mut self, button: Button)
        requires
            has_slot(button),
        ensures
            final(self).slots() == old(self).slots().update(
                spec_button_to_idx(button),
                ButtonPosition::Up,
            ),
            final(self).spec_position(button) is Up,
            forall|other: Button|
                #![trigger final(self).spec_position(other)]
                is_mouse_button(button) && is_mouse_button(other) && other != button
                    ==> final(self).spec_position(other) == old(self).spec_position(other),
    {
        let i = button_to_idx(button);
        self.buttons.set(i, ButtonPosition::Up);
    }

    /// An iterator yielding all pressed mouse buttons along with the location at which they
    /// were pressed.
    pub fn pressed(&self) -> (r: PressedButtons<P>)
        ensures
            r.remaining() == pressed_from(self.slots(), 0),
    {
        PressedButtons { buttons: self.buttons, next: 0 }
    }
}

/// The pressed buttons, with the positions at which they were pressed, among the slots from
/// `start` on, in slot order.
pub open spec fn pressed_from<P>(slots: Seq<ButtonPosition<P>>, start: int) -> Seq<(Button, P)>
    decreases slots.len() - start,
{
    if start >= slots.len() || start < 0 {
        Seq::empty()
    } else {
        match slots[start] {
            ButtonPosition::Down(xy) => seq![(spec_idx_to_button(start), xy)] + pressed_from(
                slots,
                start + 1,
            ),
            ButtonPosition::Up => pressed_from(slots, start + 1),
        }
    }
}

proof fn lemma_pressed_from_contains<P>(slots: Seq<ButtonPosition<P>>, start: int, b: Button, p: P)
    requires
        0 <= start,
        slots.len() == NUM_BUTTONS,
        is_mouse_button(b),
    ensures
        pressed_from(slots, start).contains((b, p)) <==> (start <= spec_button_to_idx(b)
            && slots[spec_button_to_idx(b)] == ButtonPosition::Down(p)),
    decreases slots.len() - start,
{
    lemma_slots_distinct(b, b);
    if start < slots.len() {
        lemma_pressed_from_contains(slots, start + 1, b, p);
        let rest = pressed_from(slots, start + 1);
        let here = spec_idx_to_button(start);
        assert(here == b <==> start == spec_button_to_idx(b)) by {
            if here == b {
                lemma_slots_round_trip(start);
            }
        }
        match slots[start] {
            ButtonPosition::Down(xy) => {
                let all = seq![(here, xy)] + rest;
                assert(pressed_from(slots, start) == all);
                if all.contains((b, p)) {
                    let k = choose|k: int| 0 <= k < all.len() && all[k] == (b, p);
                    if k > 0 {
                        assert(rest[k - 1] == (b, p));
                    }
                }
                if rest.contains((b, p)) {
                    let k = choose|k: int| 0 <= k < rest.len() && rest[k] == (b, p);
                    assert(all[k + 1] == (b, p));
                }
                if here == b && xy == p {
                    assert(all[0] == (b, p));
                }
            },
            ButtonPosition::Up => {},
        }
    }
}

/// The pressed buttons are exactly the mouse buttons that are down, each with the position at
/// which it was pressed.
pub proof fn lemma_pressed_are_the_down_buttons<P>(m: ButtonMap<P>, b: Button, p: P)
    requires
        m.slots().len() == NUM_BUTTONS,
        is_mouse_button(b),
    ensures
        pressed_from(m.slots(), 0).contains((b, p)) <==> m.spec_position(b) == ButtonPosition::Down(p),
{
    lemma_pressed_from_contains(m.slots(), 0, b, p);
    lemma_slots_distinct(b, b);
}

impl<P: Clone> Clone for PressedButtons<P> {
    fn clone(&self) -> (r: Self) {
        proof {
            use_type_invariant(self);
        }
        PressedButtons { buttons: self.buttons.clone(), next: self.next }
    }
}

impl<P> PressedButtons<P> {
    /// The position of the next slot lies within the map.
    #[verifier::type_invariant]
    pub closed spec fn wf(self) -> bool {
        self.next <= NUM_BUTTONS
    }

    /// The pressed buttons not yet yielded.
    pub closed spec fn remaining(self) -> Seq<(Button, P)> {
        pressed_from(self.buttons@, self.next as int)
    }
}

impl<P: Copy> PressedButtons<P> {
    /// Yield the next pressed button and the position at which it was pressed.
    pub fn next(&mut self) -> (r: Option<(Button, P)>)
        ensures
            old(self).remaining().len() == 0 ==> r is None && final(self).remaining().len() == 0,
            old(self).remaining().len() > 0 ==> r == Some(old(self).remaining()[0])
                && final(self).remaining() == old(self).remaining().drop_first(),
    {
        proof {
            use_type_invariant(&*self);
        }
        while self.next < NUM_BUTTONS
            invariant
                self.next <= NUM_BUTTONS,
                self.buttons == old(self).buttons,
                pressed_from(self.buttons@, self.next as int) == old(self).remaining(),
            decreases NUM_BUTTONS - self.next,
        {
            let idx = self.next;
            self.next = idx + 1;
            if let ButtonPosition::Down(xy) = self.buttons[idx] {
                let b = idx_to_button(idx);
                return Some((b, xy));
            }
        }
        None
    }
}

} // verus!
