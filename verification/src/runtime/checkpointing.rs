//! The checkpoint worker: how the events of one terminal are gathered into one write.

use vstd::prelude::*;

use crate::runtime::registry::CheckpointEvent;

verus! {

/// How many milliseconds events are gathered after the first.
pub const GATHER_MS: u64 = 250;

/// What comes to a worker that gathers.
#[derive(Debug, Clone, Copy, PartialEq, Eq, Structural)]
pub enum Arrival {
    Event(CheckpointEvent),
    /// Nothing came in the time it waited.
    TimedOut,
    /// Nothing will come: there is nobody left to tell it.
    Disconnected,
}

/// What a worker does next.
#[derive(Debug, Clone, Copy, PartialEq, Eq, Structural)]
pub enum Work {
    /// It waits for another event, this many milliseconds at most.
    Gather(u64),
    /// It writes a checkpoint at this position, and ends with the last one.
    Write { generation: u64, sequence: u64, last: bool },
    /// It ends without writing.
    End,
}

/// The work that writes what an event is about.
pub open spec fn written(event: CheckpointEvent) -> Work {
    match event {
        CheckpointEvent::Dirty { generation, sequence } => Work::Write {
            generation,
            sequence,
            last: false,
        },
        CheckpointEvent::Final { generation, sequence } => Work::Write {
            generation,
            sequence,
            last: true,
        },
    }
}

/// What follows `elapsed_ms` after the first event where `latest` came last: the end of a terminal
/// is written at once, output is gathered until the time is up.
pub open spec fn work_after(latest: CheckpointEvent, elapsed_ms: u64) -> Work {
    if latest is Final || elapsed_ms >= GATHER_MS {
        written(latest)
    } else {
        Work::Gather((GATHER_MS - elapsed_ms) as u64)
    }
}

/// The events that will be written as one.
#[derive(Debug, Clone, Copy, PartialEq, Eq, Structural)]
pub struct Gathered {
    latest: CheckpointEvent,
}

impl Gathered {
    /// The event that counts.
    pub closed spec fn latest(self) -> CheckpointEvent {
        self.latest
    }

    /// Starts with an event.
    pub fn begin(event: CheckpointEvent) -> (gathered: Self)
        ensures
            gathered.latest() == event,
    {
        Gathered { latest: event }
    }

    fn write(&self) -> (work: Work)
        ensures
            work == written(self.latest()),
    {
        match self.latest {
            CheckpointEvent::Dirty { generation, sequence } => Work::Write {
                generation,
                sequence,
                last: false,
            },
            CheckpointEvent::Final { generation, sequence } => Work::Write {
                generation,
                sequence,
                last: true,
            },
        }
    }

    /// What to do `elapsed_ms` after the first event.
    pub fn next(&self, elapsed_ms: u64) -> (work: Work)
        ensures
            work == work_after(self.latest(), elapsed_ms),
    {
        match self.latest {
            CheckpointEvent::Final { .. } => self.write(),
            CheckpointEvent::Dirty { .. } => if elapsed_ms >= GATHER_MS {
                self.write()
            } else {
                Work::Gather(GATHER_MS - elapsed_ms)
            },
        }
    }

    /// Takes in what came `elapsed_ms` after the first event. The latest event counts. Without
    /// anybody to follow it, output that was only gathered is not written.
    pub fn receive(&mut self, arrival: Arrival, elapsed_ms: u64) -> (work: Work)
        ensures
            final(self).latest() == match arrival {
                Arrival::Event(event) => event,
                _ => old(self).latest(),
            },
            work == match arrival {
                Arrival::Event(event) => work_after(event, elapsed_ms),
                Arrival::TimedOut => written(old(self).latest()),
                Arrival::Disconnected => Work::End,
            },
    {
        match arrival {
            Arrival::Event(event) => {
                self.latest = event;
                self.next(elapsed_ms)
            },
            Arrival::TimedOut => self.write(),
            Arrival::Disconnected => Work::End,
        }
    }
}

} // verus!
