//! The port through which button events reach the menu as menu keys.

use vstd::prelude::*;

use crate::input::{ButtonEvent, Edge, EventQueue, KeypadKey, TryRecvError};

verus! {

/// The keys that the menu understands.
#[derive(Debug, Clone, Copy, PartialEq, Eq, Structural)]
pub enum MenuKey {
    /// Confirm the selection.
    Enter,
    /// Leave the menu.
    Esc,
    Up,
    Down,
    /// Any other key; the menu ignores it.
    Other,
}

/// The menu key that a button event stands for. Only presses count: `A` and
/// `Start` confirm, `B` and `Select` cancel, `Up` and `Down` move.
pub open spec fn menu_key_of(event: ButtonEvent) -> Option<MenuKey> {
    if event.edge != Edge::Pressed {
        None
    } else {
        match event.key {
            KeypadKey::A | KeypadKey::Start => Some(MenuKey::Enter),
            KeypadKey::B | KeypadKey::Select => Some(MenuKey::Esc),
            KeypadKey::Up => Some(MenuKey::Up),
            KeypadKey::Down => Some(MenuKey::Down),
            _ => None,
        }
    }
}

/// The menu key that a button event stands for, if any.
pub fn menu_key(event: ButtonEvent) -> (key: Option<MenuKey>)
    ensures
        key == menu_key_of(event),
{
    if event.edge != Edge::Pressed {
        return None;
    }
    match event.key {
        KeypadKey::A | KeypadKey::Start => Some(MenuKey::Enter),
        KeypadKey::B | KeypadKey::Select => Some(MenuKey::Esc),
        KeypadKey::Up => Some(MenuKey::Up),
        KeypadKey::Down => Some(MenuKey::Down),
        _ => None,
    }
}

/// Why a port will give no more keys.
#[derive(Debug, Clone, Copy, PartialEq, Eq, Structural)]
pub enum PortError {
    /// Nothing is pending and the producer of the events is gone.
    Disconnected,
}

/// What a poll gives on a port with the events `pending`, oldest first,
/// whose producer is `connected` or gone.
pub open spec fn poll_result(pending: Seq<ButtonEvent>, connected: bool) -> Result<
    Option<MenuKey>,
    PortError,
> {
    if pending.len() > 0 {
        Ok(menu_key_of(pending[0]))
    } else if connected {
        Ok(None)
    } else {
        Err(PortError::Disconnected)
    }
}

/// The receiving end of the event queue, seen as a source of menu keys.
pub struct GpioPort {
    event_receiver: EventQueue,
}

impl GpioPort {
    /// The events that are still to be polled, oldest first.
    pub closed spec fn pending(&self) -> Seq<ButtonEvent> {
        self.event_receiver@
    }

    /// Whether the producer of the events is still there.
    pub closed spec fn is_connected(&self) -> bool {
        self.event_receiver.is_connected()
    }

    /// A port that polls `event_receiver`.
    pub fn new(event_receiver: EventQueue) -> (port: Self)
        ensures
            port.pending() == event_receiver@,
            port.is_connected() == event_receiver.is_connected(),
    {
        Self { event_receiver }
    }

    /// Hands an event to the port, as the producer does. Returns `false`
    /// where the producer is marked as gone and the event was not taken.
    pub fn push(&mut self, event: ButtonEvent) -> (sent: bool)
        ensures
            sent == old(self).is_connected(),
            final(self).is_connected() == old(self).is_connected(),
            final(self).pending() == if sent {
                old(self).pending().push(event)
            } else {
                old(self).pending()
            },
    {
        self.event_receiver.send(event)
    }

    /// Whether the producer of the events is still there.
    pub fn connected(&self) -> (c: bool)
        ensures
            c == self.is_connected(),
    {
        self.event_receiver.connected()
    }

    /// Marks the producer of the events as gone. What is pending is still
    /// polled.
    pub fn disconnect(&mut self)
        ensures
            !final(self).is_connected(),
            final(self).pending() == old(self).pending(),
    {
        self.event_receiver.disconnect();
    }

    /// Takes the oldest pending event, if there is one, and returns the menu
    /// key it stands for, or `None` where it stands for none; the event is
    /// consumed either way. With nothing pending, an idle producer gives
    /// `Ok(None)` and a producer that is gone gives the error, so that the
    /// menu can be left.
    pub fn poll(&mut self) -> (polled: Result<Option<MenuKey>, PortError>)
        ensures
            final(self).is_connected() == old(self).is_connected(),
            polled == poll_result(old(self).pending(), old(self).is_connected()),
            final(self).pending() == if old(self).pending().len() > 0 {
                old(self).pending().subrange(1, old(self).pending().len() as int)
            } else {
                old(self).pending()
            },
    {
        match self.event_receiver.try_recv() {
            Ok(event) => Ok(menu_key(event)),
            Err(TryRecvError::Empty) => Ok(None),
            Err(TryRecvError::Disconnected) => Err(PortError::Disconnected),
        }
    }
}

} // verus!
