//! The monitor: compares each counter reading with the last one observed and
//! decides which signal, if any, goes to the device.

use vstd::prelude::*;

verus! {

/// Byte written to the device when the counter has risen (ASCII `+`).
pub const INCREASE_BYTE: u8 = 43;

/// Byte written to the device when the counter has fallen (ASCII `-`).
pub const DECREASE_BYTE: u8 = 45;

/// Seconds to wait between two polls of the counter.
pub const POLL_INTERVAL_SECS: u64 = 10;

/// What one poll asks of the device.
#[derive(Clone, Copy, Debug, PartialEq, Eq, Structural)]
pub enum Signal {
    /// Nothing is written.
    Silent,
    /// The counter rose.
    Increase,
    /// The counter fell.
    Decrease,
}

/// The signal owed when a reading `new` follows the observed state `old`.
pub open spec fn signal_for(old: Option<u32>, new: u32) -> Signal {
    match old {
        None => Signal::Silent,
        Some(o) => if o < new {
            Signal::Increase
        } else if o > new {
            Signal::Decrease
        } else {
            Signal::Silent
        },
    }
}

impl Signal {
    /// The byte to write for this signal, or `None` where nothing is written.
    pub open spec fn spec_byte(self) -> Option<u8> {
        match self {
            Signal::Silent => None,
            Signal::Increase => Some(INCREASE_BYTE),
            Signal::Decrease => Some(DECREASE_BYTE),
        }
    }

    /// The byte to write for this signal, or `None` where nothing is written.
    pub fn byte(self) -> (b: Option<u8>)
        ensures
            b == self.spec_byte(),
    {
        match self {
            Signal::Silent => None,
            Signal::Increase => Some(INCREASE_BYTE),
            Signal::Decrease => Some(DECREASE_BYTE),
        }
    }
}

/// What one poll came to: the device signal it owes and what is told to the
/// operator.
#[derive(Debug, PartialEq, Eq)]
pub enum Tick {
    /// The fetch failed; the message is reported and nothing else happens.
    Failed(String),
    /// The first reading ever: adopted without comparison.
    Adopted(u32),
    /// The reading equals the observed value.
    Unchanged,
    /// The reading is above the observed value; it is the new total.
    Rose(u32),
    /// The reading is below the observed value; it is the new total.
    Fell(u32),
}

impl Tick {
    /// The signal that this tick sends to the device.
    pub open spec fn spec_signal(self) -> Signal {
        match self {
            Tick::Rose(_) => Signal::Increase,
            Tick::Fell(_) => Signal::Decrease,
            _ => Signal::Silent,
        }
    }

    /// The signal that this tick sends to the device.
    pub fn signal(&self) -> (s: Signal)
        ensures
            s == self.spec_signal(),
    {
        match self {
            Tick::Rose(_) => Signal::Increase,
            Tick::Fell(_) => Signal::Decrease,
            _ => Signal::Silent,
        }
    }
}

/// The tick owed when the fetch result `fetch` arrives in observed state `old`.
pub open spec fn tick_for(old: Option<u32>, fetch: Result<u32, String>) -> Tick {
    match fetch {
        Err(message) => Tick::Failed(message),
        Ok(new) => match old {
            None => Tick::Adopted(new),
            Some(o) => if o < new {
                Tick::Rose(new)
            } else if o > new {
                Tick::Fell(new)
            } else {
                Tick::Unchanged
            },
        },
    }
}

/// The observed state after the fetch result `fetch` arrives in state `old`.
pub open spec fn observed_after(old: Option<u32>, fetch: Result<u32, String>) -> Option<u32> {
    match fetch {
        Err(_) => old,
        Ok(new) => Some(new),
    }
}

/// A failed fetch leaves no trace: it owes no signal, keeps the observed
/// value, and the next reading is judged as if the failure had not happened.
pub proof fn law_failure_leaves_no_trace(observed: Option<u32>, message: String, next: u32)
    ensures
        tick_for(observed, Err(message)).spec_signal() == Signal::Silent,
        observed_after(observed, Err(message)) == observed,
        tick_for(observed_after(observed, Err(message)), Ok(next)) == tick_for(observed, Ok(next)),
{
}

/// A signal is owed exactly when a reading arrives that differs from an
/// earlier observed value; it tells the direction of the change, and the
/// reading is the observed value from then on.
pub proof fn law_signal_iff_change(observed: Option<u32>, fetch: Result<u32, String>)
    ensures
        tick_for(observed, fetch).spec_signal() != Signal::Silent <==> (fetch is Ok
            && observed is Some && observed->Some_0 != fetch->Ok_0),
        tick_for(observed, fetch).spec_signal() == Signal::Increase <==> (fetch is Ok
            && observed is Some && observed->Some_0 < fetch->Ok_0),
        tick_for(observed, fetch).spec_signal() == Signal::Decrease <==> (fetch is Ok
            && observed is Some && observed->Some_0 > fetch->Ok_0),
        fetch is Ok ==> observed_after(observed, fetch) == Some(fetch->Ok_0),
{
}

/// The last counter value that a fetch delivered, if any did yet.
pub struct Monitor {
    observed: Option<u32>,
}

impl View for Monitor {
    type V = Option<u32>;

    closed spec fn view(&self) -> Option<u32> {
        self.observed
    }
}

impl Monitor {
    /// A monitor that has observed nothing yet.
    pub fn new() -> (m: Monitor)
        ensures
            m@ == None::<u32>,
    {
        Monitor { observed: None }
    }

    /// The last observed counter value.
    pub fn observed(&self) -> (v: Option<u32>)
        ensures
            v == self@,
    {
        self.observed
    }

    /// Takes in the result of one fetch. A failure leaves the observed value
    /// as it is; a success replaces it, and owes a signal exactly when an
    /// earlier value existed and differs.
    pub fn observe(&mut self, fetch: Result<u32, String>) -> (tick: Tick)
        ensures
            tick == tick_for(old(self)@, fetch),
            final(self)@ == observed_after(old(self)@, fetch),
            tick.spec_signal() == match fetch {
                Ok(new) => signal_for(old(self)@, new),
                Err(_) => Signal::Silent,
            },
    {
        match fetch {
            Err(message) => Tick::Failed(message),
            Ok(new) => {
                let tick = match self.observed {
                    None => Tick::Adopted(new),
                    Some(o) => if o < new {
                        Tick::Rose(new)
                    } else if o > new {
                        Tick::Fell(new)
                    } else {
                        Tick::Unchanged
                    },
                };
                self.observed = Some(new);
                tick
            },
        }
    }
}

} // verus!
