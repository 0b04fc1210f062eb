use vstd::prelude::*;

use crate::canvas::{Canvas, PIN_COUNT};
use crate::queue::{PrintJob, PrintJobStatus, PrintQueue};
use crate::raster::{encode_spec, rasterise_image};

verus! {

/// The job currently owned by the dispatcher: its metadata, the payload moved
/// out of the queue, and how many copies have already been printed.
pub struct ActiveJob {
    pub id: u32,
    pub timestamp: u64,
    pub quantity: u32,
    pub done: u32,
    pub payload: Canvas,
}

/// What the surrounding loop reports back into a step: a poll wake-up, or the
/// outcome of the transmission the previous step asked for.
#[derive(Clone, Copy, PartialEq, Eq, Structural, Debug)]
pub enum DispatchEvent {
    Tick,
    SendOk,
    SendErr,
}

/// What the surrounding loop must do next: wait for work, transmit the given
/// encoded lines to the printer, step again at once, or reinitialise the
/// printer handle and then step again.
pub enum DispatchAction {
    Sleep,
    Send(Vec<Vec<u8>>),
    Advance,
    Reinit,
}

/// The single consumer of the queue. It owns at most one job at a time and
/// never touches the queue except by popping the head and appending terminal
/// records. Between the pop and the job's terminal record the job is owned
/// here alone and readers of the queue see it in neither partition: the
/// partitions are eventually consistent over that window, and each single
/// queue operation is atomic from a reader's perspective.
pub struct Dispatcher {
    pub active: Option<ActiveJob>,
}

impl Dispatcher {
    /// Dispatcher invariant: any active job still owes copies and carries a
    /// payload of exact head height.
    pub open spec fn wf(self) -> bool {
        self.active matches Some(a) ==> a.payload@.wf() && a.payload@.height == PIN_COUNT
            && a.done < a.quantity && 1 <= a.id
    }

    /// Coupling with the queue: the active job was popped from this queue, so
    /// its id was assigned by it and is no longer visible in it.
    pub open spec fn inv_with(self, q: PrintQueue) -> bool {
        self.active matches Some(a) ==> a.id <= q.counter && !q.has_id(a.id)
    }

    /// An idle dispatcher.
    pub fn new() -> (d: Dispatcher)
        ensures
            d.wf(),
            d.active is None,
    {
        Dispatcher { active: None }
    }

    /// One transition of the dispatch loop.
    ///
    /// On `Tick` (the dispatcher is idle): pop the head job, or ask to sleep
    /// when nothing is pending; a popped job becomes active and its first copy
    /// is encoded and handed out for transmission.
    ///
    /// On `SendOk`: the copy counts; when copies remain the payload is encoded
    /// again and handed out, otherwise one `Complete` record with the job's
    /// full quantity is appended and the dispatcher goes idle.
    ///
    /// On `SendErr`: the job fails as a whole; exactly one `Failed` record is
    /// appended (its quantity reporting the copies that did print), remaining
    /// copies are abandoned, and the loop is asked to reinitialise the printer
    /// before polling for the next job.
    ///
    /// Every encoded transmission equals the encoding of the active payload,
    /// and the id counter never moves.
    pub fn step(&mut self, q: &mut PrintQueue, event: DispatchEvent) -> (action: DispatchAction)
        requires
            old(self).wf(),
            old(q).wf(),
            old(self).inv_with(*old(q)),
            event is Tick ==> old(self).active is None,
            (event is SendOk || event is SendErr) ==> old(self).active is Some,
        ensures
            final(self).wf(),
            final(q).wf(),
            final(self).inv_with(*final(q)),
            final(q).counter == old(q).counter,
            event is SendErr ==> (old(self).active matches Some(a) && {
                &&& final(q).pending() == old(q).pending()
                &&& final(q).terminal() == old(q).terminal().push(
                    PrintJob {
                        id: a.id,
                        timestamp: a.timestamp,
                        quantity: a.done,
                        data: None,
                        status: PrintJobStatus::Failed,
                    },
                )
                &&& final(self).active is None
                &&& action is Reinit
            }),
            event is SendOk ==> (old(self).active matches Some(a) && {
                &&& a.done + 1 < a.quantity ==> {
                    &&& final(q).pending() == old(q).pending()
                    &&& final(q).terminal() == old(q).terminal()
                    &&& final(self).active == Some(
                        ActiveJob {
                            id: a.id,
                            timestamp: a.timestamp,
                            quantity: a.quantity,
                            done: (a.done + 1) as u32,
                            payload: a.payload,
                        },
                    )
                    &&& action matches DispatchAction::Send(lines) && lines.deep_view()
                        == encode_spec(a.payload@)
                }
                &&& a.done + 1 == a.quantity ==> {
                    &&& final(q).pending() == old(q).pending()
                    &&& final(q).terminal() == old(q).terminal().push(
                        PrintJob {
                            id: a.id,
                            timestamp: a.timestamp,
                            quantity: a.quantity,
                            data: None,
                            status: PrintJobStatus::Complete,
                        },
                    )
                    &&& final(self).active is None
                    &&& action is Advance
                }
            }),
            event is Tick && old(q).pending().len() == 0 ==> {
                &&& final(q).pending() == old(q).pending()
                &&& final(q).terminal() == old(q).terminal()
                &&& final(self).active is None
                &&& action is Sleep
            },
            event is Tick && old(q).pending().len() > 0 ==> {
                &&& final(q).pending() == old(q).pending().drop_first()
                &&& final(q).terminal() == old(q).terminal()
                &&& (old(q).pending()[0].data matches Some(p) && {
                    &&& final(self).active == Some(
                        ActiveJob {
                            id: old(q).pending()[0].id,
                            timestamp: old(q).pending()[0].timestamp,
                            quantity: old(q).pending()[0].quantity,
                            done: 0,
                            payload: p,
                        },
                    )
                    &&& action matches DispatchAction::Send(lines) && lines.deep_view()
                        == encode_spec(p@)
                })
            },
    {
        match event {
            DispatchEvent::SendErr => {
                let a = match self.active.take() {
                    Some(a) => a,
                    None => vstd::pervasive::unreached(),
                };
                q.record_terminal(a.id, a.timestamp, a.done, PrintJobStatus::Failed);
                DispatchAction::Reinit
            },
            DispatchEvent::SendOk => {
                let mut a = match self.active.take() {
                    Some(a) => a,
                    None => vstd::pervasive::unreached(),
                };
                a.done = a.done + 1;
                if a.done == a.quantity {
                    q.record_terminal(a.id, a.timestamp, a.quantity, PrintJobStatus::Complete);
                    DispatchAction::Advance
                } else {
                    let lines = encode_payload(&a.payload);
                    self.active = Some(a);
                    DispatchAction::Send(lines)
                }
            },
            DispatchEvent::Tick => {
                match q.dequeue_next() {
                    None => DispatchAction::Sleep,
                    Some(job) => {
                        let payload = match job.data {
                            Some(c) => c,
                            None => vstd::pervasive::unreached(),
                        };
                        let a = ActiveJob {
                            id: job.id,
                            timestamp: job.timestamp,
                            quantity: job.quantity,
                            done: 0,
                            payload,
                        };
                        let lines = encode_payload(&a.payload);
                        self.active = Some(a);
                        DispatchAction::Send(lines)
                    },
                }
            },
        }
    }
}

/// Encode an active payload; its height is exact by the dispatcher invariant,
/// so encoding cannot fail.
fn encode_payload(payload: &Canvas) -> (lines: Vec<Vec<u8>>)
    requires
        payload@.wf(),
        payload@.height == PIN_COUNT,
    ensures
        lines.deep_view() == encode_spec(payload@),
{
    match rasterise_image(payload) {
        Ok(lines) => lines,
        Err(_) => vstd::pervasive::unreached(),
    }
}

} // verus!
