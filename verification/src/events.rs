//! Lifecycle events of the transfer pipeline and the bounded queue that
//! carries them to a pull-based consumer.

use vstd::prelude::*;
use std::collections::VecDeque;
use crate::metrics::DownloadAttemptSnapshot;

verus! {

/// Capacity of the event queue.
pub const EVENT_QUEUE_CAPACITY: usize = 100;

/// Lifecycle events emitted by the transfer pipeline.
#[derive(Debug)]
pub enum FileTransferEvent {
    FileUploaded { file_hash: String, file_name: String },
    FileDownloaded { file_path: String },
    FileNotFound { file_hash: String },
    Error { message: String },
    DownloadAttempt(DownloadAttemptSnapshot),
}

/// Bounded FIFO queue of lifecycle events. Producers never block: a send
/// against a full queue drops the event. The consumer drains without
/// blocking.
#[derive(Debug)]
pub struct EventQueue {
    pub items: VecDeque<FileTransferEvent>,
}

impl EventQueue {
    /// The bounded-capacity invariant.
    pub open spec fn wf(self) -> bool {
        self.items@.len() <= EVENT_QUEUE_CAPACITY
    }

    pub fn new() -> (q: Self)
        ensures
            q.wf(),
            q.items@ == Seq::<FileTransferEvent>::empty(),
    {
        EventQueue { items: VecDeque::new() }
    }

    /// Append an event; a full queue refuses it and stays unchanged, so
    /// the producer's progress is never gated on the consumer.
    pub fn send(&mut self, event: FileTransferEvent) -> (accepted: bool)
        requires
            old(self).wf(),
        ensures
            final(self).wf(),
            accepted == (old(self).items@.len() < EVENT_QUEUE_CAPACITY),
            accepted ==> final(self).items@ == old(self).items@.push(event),
            !accepted ==> final(self).items@ == old(self).items@,
    {
        if self.items.len() < EVENT_QUEUE_CAPACITY {
            self.items.push_back(event);
            true
        } else {
            false
        }
    }

    /// Remove and return up to `max` events from the front, oldest first;
    /// returns fewer (possibly none) without blocking if fewer are queued.
    pub fn drain(&mut self, max: usize) -> (out: Vec<FileTransferEvent>)
        requires
            old(self).wf(),
        ensures
            final(self).wf(),
            out@.len() == if max <= old(self).items@.len() {
                max as int
            } else {
                old(self).items@.len() as int
            },
            out@ == old(self).items@.take(out@.len() as int),
            final(self).items@ == old(self).items@.skip(out@.len() as int),
    {
        let mut out: Vec<FileTransferEvent> = Vec::new();
        let mut taken: usize = 0;
        while taken < max && self.items.len() > 0
            invariant
                taken <= max,
                out@.len() == taken,
                taken <= old(self).items@.len(),
                out@ == old(self).items@.take(taken as int),
                self.items@ == old(self).items@.skip(taken as int),
                taken < max ==> self.items@.len() == old(self).items@.len() - taken,
            decreases max - taken,
        {
            let event = self.items.pop_front();
            match event {
                Some(e) => {
                    out.push(e);
                    taken = taken + 1;
                    proof {
                        assert(out@ =~= old(self).items@.take(taken as int));
                        assert(self.items@ =~= old(self).items@.skip(taken as int));
                    }
                },
                None => {
                    proof {
                        assert(false);
                    }
                },
            }
        }
        out
    }
}

} // verus!
