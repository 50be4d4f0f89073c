//! The input surface of the detail preview: which pointer events it passes on,
//! and when a drag ends.

use vstd::prelude::*;

verus! {

/// A pointer event as the preview gets it.
#[derive(Clone, Copy, Debug, PartialEq, Eq, Structural)]
pub enum PointerEvent {
    /// The cursor or a finger moved.
    Moved,
    /// The cursor left the window, or a finger was lost.
    Left,
    /// The left button or a finger was pressed.
    Pressed,
    /// The left button was released, or a finger lifted.
    Released,
    /// The wheel turned.
    Scrolled,
    Other,
}

/// What the preview passes on.
#[derive(Clone, Copy, Debug, PartialEq, Eq, Structural)]
pub enum AreaSignal {
    Move,
    Press,
    Release,
    Scroll,
}

/// Which signals the preview's owner asked for.
#[derive(Clone, Copy, Debug, PartialEq, Eq, Structural)]
pub struct DetailArea {
    pub press: bool,
    pub release: bool,
    pub moves: bool,
    pub scroll: bool,
}

/// What the preview remembers between events.
#[derive(Clone, Copy, Debug, PartialEq, Eq, Structural)]
pub struct AreaState {
    pub was_over: bool,
    pub pressed: bool,
}

impl Default for AreaState {
    fn default() -> (r: Self)
        ensures
            r == (AreaState { was_over: false, pressed: false }),
    {
        AreaState { was_over: false, pressed: false }
    }
}

/// What comes of an event: the signal to pass on, and whether the event is
/// kept from what lies behind.
#[derive(Clone, Copy, Debug, PartialEq, Eq, Structural)]
pub struct AreaResponse {
    pub signal: Option<AreaSignal>,
    pub captured: bool,
}

/// A signal, where it was asked for.
pub open spec fn wanted(asked: bool, signal: AreaSignal) -> Option<AreaSignal> {
    if asked {
        Some(signal)
    } else {
        None
    }
}

impl DetailArea {
    /// An area that passes nothing on.
    pub fn new() -> (r: Self)
        ensures
            r == (DetailArea { press: false, release: false, moves: false, scroll: false }),
    {
        DetailArea { press: false, release: false, moves: false, scroll: false }
    }

    /// Asks for presses.
    pub fn on_press(self) -> (r: Self)
        ensures
            r == (DetailArea { press: true, ..self }),
    {
        DetailArea { press: true, ..self }
    }

    /// Asks for releases, which also come when the cursor leaves while the
    /// button is held.
    pub fn on_release(self) -> (r: Self)
        ensures
            r == (DetailArea { release: true, ..self }),
    {
        DetailArea { release: true, ..self }
    }

    /// Asks for cursor positions.
    pub fn on_move(self) -> (r: Self)
        ensures
            r == (DetailArea { moves: true, ..self }),
    {
        DetailArea { moves: true, ..self }
    }

    /// Asks for wheel turns.
    pub fn on_scroll(self) -> (r: Self)
        ensures
            r == (DetailArea { scroll: true, ..self }),
    {
        DetailArea { scroll: true, ..self }
    }

    /// What is remembered after an event, with the cursor over the area or not.
    pub open spec fn next_state(self, state: AreaState, event: PointerEvent, over: bool) -> AreaState {
        match event {
            PointerEvent::Moved => AreaState {
                was_over: over,
                pressed: state.pressed && (over || !state.was_over),
            },
            PointerEvent::Left => AreaState { was_over: false, pressed: false },
            PointerEvent::Pressed => AreaState { pressed: state.pressed || over, ..state },
            PointerEvent::Released => AreaState { pressed: false, ..state },
            PointerEvent::Scrolled => state,
            PointerEvent::Other => state,
        }
    }

    /// What comes of an event.
    pub open spec fn response(self, state: AreaState, event: PointerEvent, over: bool) -> AreaResponse {
        match event {
            PointerEvent::Moved => AreaResponse {
                signal: if over {
                    wanted(self.moves, AreaSignal::Move)
                } else if state.was_over && state.pressed {
                    wanted(self.release, AreaSignal::Release)
                } else {
                    None
                },
                captured: false,
            },
            PointerEvent::Left => AreaResponse {
                signal: wanted(self.release && state.pressed, AreaSignal::Release),
                captured: false,
            },
            PointerEvent::Pressed => AreaResponse {
                signal: wanted(self.press && over, AreaSignal::Press),
                captured: over,
            },
            PointerEvent::Released => AreaResponse {
                signal: wanted(self.release && state.pressed, AreaSignal::Release),
                captured: state.pressed,
            },
            PointerEvent::Scrolled => AreaResponse {
                signal: wanted(self.scroll, AreaSignal::Scroll),
                captured: self.scroll,
            },
            PointerEvent::Other => AreaResponse { signal: None, captured: false },
        }
    }

    /// Acts on an event that nothing inside the area has captured.
    pub fn update(self, state: &mut AreaState, event: PointerEvent, over: bool) -> (r: AreaResponse)
        ensures
            *final(state) == self.next_state(*old(state), event, over),
            r == self.response(*old(state), event, over),
    {
        let mut signal: Option<AreaSignal> = None;
        let mut captured: bool = false;
        match event {
            PointerEvent::Moved => {
                if over {
                    if self.moves {
                        signal = Some(AreaSignal::Move);
                    }
                } else if state.was_over && state.pressed {
                    state.pressed = false;
                    if self.release {
                        signal = Some(AreaSignal::Release);
                    }
                }
                state.was_over = over;
            },
            PointerEvent::Left => {
                if state.pressed {
                    state.pressed = false;
                    if self.release {
                        signal = Some(AreaSignal::Release);
                    }
                }
                state.was_over = false;
            },
            PointerEvent::Pressed => {
                if over {
                    state.pressed = true;
                    if self.press {
                        signal = Some(AreaSignal::Press);
                    }
                    captured = true;
                }
            },
            PointerEvent::Released => {
                if state.pressed {
                    state.pressed = false;
                    if self.release {
                        signal = Some(AreaSignal::Release);
                    }
                    captured = true;
                }
            },
            PointerEvent::Scrolled => {
                if self.scroll {
                    signal = Some(AreaSignal::Scroll);
                    captured = true;
                }
            },
            PointerEvent::Other => {},
        }
        AreaResponse { signal, captured }
    }
}

/// A drag never sticks: whatever ends the press, be it a release, the cursor
/// leaving the area or the window, the release is passed on.
pub proof fn every_drag_ends_with_a_release(
    area: DetailArea,
    state: AreaState,
    event: PointerEvent,
    over: bool,
)
    requires
        area.release,
        state.pressed,
        !area.next_state(state, event, over).pressed,
    ensures
        area.response(state, event, over).signal == Some(AreaSignal::Release),
{
}

} // verus!
