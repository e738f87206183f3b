//! Buttons: the GPIO layer below, and above it the translator that turns
//! polled values into press and release events, and the queue that carries
//! the events to the menu.

use std::collections::VecDeque;
use vstd::prelude::*;

pub mod gpio;

use self::gpio::{Gpio, GpioError, GpioValue};

verus! {

/// The keys of the console.
#[derive(Debug, Clone, Copy, PartialEq, Eq, Structural)]
pub enum KeypadKey {
    Right,
    Left,
    Up,
    Down,
    A,
    B,
    Select,
    Start,
}

/// Direction of a change of a button.
#[derive(Debug, Clone, Copy, PartialEq, Eq, Structural)]
pub enum Edge {
    Pressed,
    Released,
}

/// One observed change of one button.
#[derive(Debug, Clone, Copy, PartialEq, Eq, Structural)]
pub struct ButtonEvent {
    pub key: KeypadKey,
    pub edge: Edge,
}

/// Why a queue handed out no event.
#[derive(Debug, Clone, Copy, PartialEq, Eq, Structural)]
pub enum TryRecvError {
    /// Nothing is pending; the producer is still there.
    Empty,
    /// Nothing is pending and the producer is gone.
    Disconnected,
}

/// The ordered channel between the translator and the menu. Events leave in
/// the order in which they entered.
#[derive(Debug)]
pub struct EventQueue {
    pending: VecDeque<ButtonEvent>,
    connected: bool,
}

impl EventQueue {
    /// The pending events, oldest first.
    pub closed spec fn view(&self) -> Seq<ButtonEvent> {
        self.pending@
    }

    /// Whether the producer is still there.
    pub closed spec fn is_connected(&self) -> bool {
        self.connected
    }

    /// An empty queue with its producer attached.
    pub fn new() -> (queue: Self)
        ensures
            queue@ == Seq::<ButtonEvent>::empty(),
            queue.is_connected(),
    {
        EventQueue { pending: VecDeque::new(), connected: true }
    }

    /// Number of pending events.
    pub fn len(&self) -> (n: usize)
        ensures
            n == self@.len(),
    {
        self.pending.len()
    }

    /// Whether the producer is still there.
    pub fn connected(&self) -> (c: bool)
        ensures
            c == self.is_connected(),
    {
        self.connected
    }

    /// Appends an event. A queue whose producer is gone takes no more, and
    /// says so by returning `false`.
    pub fn send(&mut self, event: ButtonEvent) -> (sent: bool)
        ensures
            sent == old(self).is_connected(),
            final(self).is_connected() == old(self).is_connected(),
            final(self)@ == if sent {
                old(self)@.push(event)
            } else {
                old(self)@
            },
    {
        if !self.connected {
            return false;
        }
        self.pending.push_back(event);
        true
    }

    /// Marks the producer as gone. What is pending stays receivable.
    pub fn disconnect(&mut self)
        ensures
            !final(self).is_connected(),
            final(self)@ == old(self)@,
    {
        self.connected = false;
    }

    /// Takes the oldest pending event without waiting. With nothing pending,
    /// tells an idle producer from one that is gone.
    pub fn try_recv(&mut self) -> (received: Result<ButtonEvent, TryRecvError>)
        ensures
            final(self).is_connected() == old(self).is_connected(),
            match received {
                Ok(event) => {
                    &&& old(self)@.len() > 0
                    &&& event == old(self)@[0]
                    &&& final(self)@ == old(self)@.subrange(1, old(self)@.len() as int)
                },
                Err(e) => {
                    &&& old(self)@.len() == 0
                    &&& final(self)@ == old(self)@
                    &&& e == if old(self).is_connected() {
                        TryRecvError::Empty
                    } else {
                        TryRecvError::Disconnected
                    }
                },
            },
    {
        match self.pending.pop_front() {
            Some(event) => Ok(event),
            None => {
                if self.connected {
                    Err(TryRecvError::Empty)
                } else {
                    Err(TryRecvError::Disconnected)
                }
            },
        }
    }
}

/// The event that a button gives when it was seen at `previous` and is now
/// seen at `current`: none without a change.
pub open spec fn transition(key: KeypadKey, previous: GpioValue, current: GpioValue) -> Option<
    ButtonEvent,
> {
    if current == previous {
        None
    } else if current == GpioValue::Enabled {
        Some(ButtonEvent { key, edge: Edge::Pressed })
    } else {
        Some(ButtonEvent { key, edge: Edge::Released })
    }
}

/// The value that a button counts as being at after a read: a failed read
/// leaves it where it was.
pub open spec fn settled(previous: GpioValue, reading: Result<GpioValue, GpioError>) -> GpioValue {
    match reading {
        Ok(current) => current,
        Err(_) => previous,
    }
}

/// The events of one poll cycle over the first `n` buttons, in the order of
/// the buttons.
pub open spec fn cycle_events(
    keys: Seq<KeypadKey>,
    previous: Seq<GpioValue>,
    readings: Seq<Result<GpioValue, GpioError>>,
    n: nat,
) -> Seq<ButtonEvent>
    decreases n,
{
    if n == 0 {
        Seq::empty()
    } else {
        let i = n - 1;
        let earlier = cycle_events(keys, previous, readings, i as nat);
        match transition(keys[i], previous[i], settled(previous[i], readings[i])) {
            Some(event) => earlier.push(event),
            None => earlier,
        }
    }
}

/// Edge detection over a fixed set of buttons: remembers the value at which
/// each button was last seen.
#[derive(Debug)]
pub struct InputTranslator {
    keys: Vec<KeypadKey>,
    previous: Vec<GpioValue>,
}

impl InputTranslator {
    /// The key of each button, in the order of configuration.
    pub closed spec fn keys(&self) -> Seq<KeypadKey> {
        self.keys@
    }

    /// The value at which each button was last seen.
    pub closed spec fn observed(&self) -> Seq<GpioValue> {
        self.previous@
    }

    /// One remembered value per button.
    pub open spec fn wf(&self) -> bool {
        self.observed().len() == self.keys().len()
    }

    /// A translator for the given buttons, none of them engaged so far.
    pub fn new(keys: Vec<KeypadKey>) -> (translator: Self)
        ensures
            translator.wf(),
            translator.keys() == keys@,
            forall|i: int|
                0 <= i < keys@.len() ==> #[trigger] translator.observed()[i]
                    == GpioValue::Disabled,
    {
        let mut previous: Vec<GpioValue> = Vec::new();
        let mut i: usize = 0;
        while i < keys.len()
            invariant
                i <= keys.len(),
                previous@.len() == i,
                forall|j: int| 0 <= j < i ==> #[trigger] previous@[j] == GpioValue::Disabled,
            decreases keys.len() - i,
        {
            previous.push(GpioValue::Disabled);
            i += 1;
        }
        InputTranslator { keys, previous }
    }

    /// Number of buttons.
    pub fn len(&self) -> (n: usize)
        ensures
            n == self.keys().len(),
    {
        self.keys.len()
    }

    /// Takes in what one read of one button gave. A value that differs from
    /// the remembered one is remembered and gives an event; a failed read
    /// counts as no change.
    pub fn observe(&mut self, button: usize, reading: &Result<GpioValue, GpioError>) -> (event:
        Option<ButtonEvent>)
        requires
            old(self).wf(),
            button < old(self).keys().len(),
        ensures
            final(self).wf(),
            final(self).keys() == old(self).keys(),
            final(self).observed() == old(self).observed().update(
                button as int,
                settled(old(self).observed()[button as int], *reading),
            ),
            event == transition(
                old(self).keys()[button as int],
                old(self).observed()[button as int],
                settled(old(self).observed()[button as int], *reading),
            ),
    {
        let previous: GpioValue = self.previous[button];
        match reading {
            Ok(current) => {
                let current: GpioValue = *current;
                self.previous.set(button, current);
                if current == previous {
                    None
                } else if current == GpioValue::Enabled {
                    Some(ButtonEvent { key: self.keys[button], edge: Edge::Pressed })
                } else {
                    Some(ButtonEvent { key: self.keys[button], edge: Edge::Released })
                }
            },
            Err(_) => {
                assert(self.previous@ =~= old(self).previous@.update(button as int, previous));
                None
            },
        }
    }

    /// Reads one button from its source and takes the result in. Whatever
    /// the source gave, it was handled as `observe` handles it.
    pub fn poll_button<G: Gpio>(&mut self, button: usize, source: &mut G) -> (event: Option<
        ButtonEvent,
    >)
        requires
            old(self).wf(),
            button < old(self).keys().len(),
        ensures
            final(self).wf(),
            final(self).keys() == old(self).keys(),
            exists|reading: Result<GpioValue, GpioError>|
                {
                    &&& final(self).observed() == old(self).observed().update(
                        button as int,
                        #[trigger] settled(old(self).observed()[button as int], reading),
                    )
                    &&& event == transition(
                        old(self).keys()[button as int],
                        old(self).observed()[button as int],
                        settled(old(self).observed()[button as int], reading),
                    )
                },
    {
        let reading: Result<GpioValue, GpioError> = source.read();
        self.observe(button, &reading)
    }

    /// One poll cycle: `readings` holds what the read of each button gave, in
    /// the order of the buttons. Returns the events of the cycle in that
    /// order, at most one per button.
    pub fn poll_cycle(&mut self, readings: &Vec<Result<GpioValue, GpioError>>) -> (events: Vec<
        ButtonEvent,
    >)
        requires
            old(self).wf(),
            readings@.len() == old(self).keys().len(),
        ensures
            final(self).wf(),
            final(self).keys() == old(self).keys(),
            final(self).observed().len() == old(self).observed().len(),
            forall|i: int|
                0 <= i < readings@.len() ==> #[trigger] final(self).observed()[i] == settled(
                    old(self).observed()[i],
                    readings@[i],
                ),
            events@ == cycle_events(
                old(self).keys(),
                old(self).observed(),
                readings@,
                readings@.len(),
            ),
    {
        let mut events: Vec<ButtonEvent> = Vec::new();
        let mut i: usize = 0;
        while i < readings.len()
            invariant
                i <= readings@.len(),
                self.wf(),
                readings@.len() == self.keys().len(),
                self.keys() == old(self).keys(),
                self.observed().len() == old(self).observed().len(),
                forall|j: int|
                    0 <= j < i ==> #[trigger] self.observed()[j] == settled(
                        old(self).observed()[j],
                        readings@[j],
                    ),
                forall|j: int|
                    i <= j < readings@.len() ==> #[trigger] self.observed()[j] == old(
                        self,
                    ).observed()[j],
                events@ == cycle_events(old(self).keys(), old(self).observed(), readings@, i as nat),
            decreases readings@.len() - i,
        {
            match self.observe(i, &readings[i]) {
                Some(event) => {
                    events.push(event);
                },
                None => {},
            }
            i += 1;
        }
        events
    }
}

} // verus!
