//! The file transfer service: the shared state behind the upload /
//! download pipeline — content store, download metrics, and the bounded
//! event queue — with the operations the command worker and its callers
//! use.
//!
//! Command submission, the worker loop, timing, and destination I/O are
//! asynchronous plumbing around this state; the service itself is the
//! part that decides and records.

use vstd::prelude::*;
use crate::events::{EventQueue, FileTransferEvent, EVENT_QUEUE_CAPACITY};
use crate::metrics::{
    DownloadAttemptSnapshot, DownloadMetrics, DownloadMetricsSnapshot, spec_counters_after,
    spec_recent_after,
};
use crate::store::{ContentStore, sha256_hex, sha256_hex_of, spec_upserted};

verus! {

/// Request for a file by content hash.
#[derive(Debug)]
pub struct FileRequest {
    pub file_hash: String,
}

/// Response carrying a file's bytes.
#[derive(Debug)]
pub struct FileResponse {
    pub file_data: Vec<u8>,
    pub file_name: String,
    pub file_size: u64,
}

/// Commands accepted by the transfer worker, processed strictly in
/// arrival order.
#[derive(Debug)]
pub enum FileTransferCommand {
    UploadFile { file_path: String, file_name: String },
    DownloadFile { file_hash: String, output_path: String },
    GetStoredFiles,
}

/// Shared state of the transfer pipeline.
#[derive(Debug)]
pub struct FileTransferService {
    pub stored_files: ContentStore,
    pub download_metrics: DownloadMetrics,
    pub events: EventQueue,
}

impl FileTransferService {
    pub open spec fn wf(self) -> bool {
        &&& self.stored_files.wf()
        &&& self.download_metrics.wf()
        &&& self.events.wf()
    }

    pub fn new() -> (s: Self)
        ensures
            s.wf(),
            s.stored_files.files@ == Seq::<crate::store::StoredFile>::empty(),
            s.download_metrics.total_success == 0,
            s.download_metrics.total_failures == 0,
            s.download_metrics.total_retries == 0,
            s.download_metrics.recent_attempts@
                == Seq::<DownloadAttemptSnapshot>::empty(),
            s.events.items@ == Seq::<FileTransferEvent>::empty(),
    {
        FileTransferService {
            stored_files: ContentStore::new(),
            download_metrics: DownloadMetrics::new(),
            events: EventQueue::new(),
        }
    }

    /// The content hash of a byte buffer: its SHA-256 digest as lowercase
    /// hex.
    pub fn calculate_file_hash(data: &[u8]) -> (r: String)
        ensures
            r@ == sha256_hex_of(data@),
            r@.len() == 64,
    {
        sha256_hex(data)
    }

    /// Hash the bytes, store them under the resulting key, and emit a
    /// `FileUploaded` event (dropped silently if the queue is full).
    pub fn upload_bytes(&mut self, file_name: String, file_data: Vec<u8>) -> (hash: String)
        requires
            old(self).wf(),
        ensures
            final(self).wf(),
            hash@ == sha256_hex_of(file_data@),
            final(self).stored_files.spec_contains_hash(hash@),
            spec_upserted(
                old(self).stored_files,
                final(self).stored_files,
                hash@,
                file_name@,
                file_data@,
            ),
            final(self).download_metrics == old(self).download_metrics,
            old(self).events.items@.len() < EVENT_QUEUE_CAPACITY
                ==> final(self).events.items@ == old(self).events.items@.push(
                    FileTransferEvent::FileUploaded { file_hash: hash, file_name },
                ),
            old(self).events.items@.len() >= EVENT_QUEUE_CAPACITY
                ==> final(self).events.items@ == old(self).events.items@,
    {
        let event_name = file_name.clone();
        let hash = self.stored_files.store_bytes(file_name, file_data);
        let event = FileTransferEvent::FileUploaded {
            file_hash: hash.clone(),
            file_name: event_name,
        };
        let _accepted = self.events.send(event);
        hash
    }

    /// Accept externally supplied content only when the claimed hash is
    /// the digest of the bytes; a mismatching claim is refused and leaves
    /// the service untouched.
    pub fn store_file_data(
        &mut self,
        file_hash: String,
        file_name: String,
        file_data: Vec<u8>,
    ) -> (accepted: bool)
        requires
            old(self).wf(),
        ensures
            final(self).wf(),
            accepted == (file_hash@ == sha256_hex_of(file_data@)),
            accepted ==> spec_upserted(
                old(self).stored_files,
                final(self).stored_files,
                file_hash@,
                file_name@,
                file_data@,
            ),
            !accepted ==> *final(self) == *old(self),
            final(self).download_metrics == old(self).download_metrics,
            final(self).events == old(self).events,
    {
        let computed = sha256_hex(file_data.as_slice());
        if computed == file_hash {
            self.stored_files.insert_hashed(file_hash, file_name, file_data);
            true
        } else {
            false
        }
    }

    /// A copy of the named bytes for one content hash; `None` exactly
    /// when the hash is absent from the store.
    pub fn lookup_file(&self, file_hash: &String) -> (r: Option<(String, Vec<u8>)>)
        requires
            self.wf(),
        ensures
            r is Some <==> self.stored_files.spec_contains_hash(file_hash@),
            match r {
                Some(entry) => ({
                    let i = self.stored_files.spec_index_of(file_hash@);
                    &&& entry.0@ == self.stored_files.files@[i].file_name@
                    &&& entry.1@ == self.stored_files.files@[i].data@
                }),
                None => true,
            },
    {
        self.stored_files.get_file(file_hash)
    }

    /// The `(hash, name)` directory of stored files.
    pub fn get_stored_files(&self) -> (r: Vec<(String, String)>)
        ensures
            r@.len() == self.stored_files.files@.len(),
            forall|i: int|
                0 <= i < r@.len()
                    ==> (#[trigger] r@[i]).0@ == self.stored_files.files@[i].file_hash@
                        && r@[i].1@ == self.stored_files.files@[i].file_name@,
    {
        self.stored_files.list_files()
    }

    /// Record one download attempt in the metrics and forward it on the
    /// event queue (dropped silently if the queue is full).
    pub fn record_download_attempt(&mut self, snapshot: DownloadAttemptSnapshot)
        requires
            old(self).wf(),
        ensures
            final(self).wf(),
            final(self).stored_files == old(self).stored_files,
            (
                final(self).download_metrics.total_success,
                final(self).download_metrics.total_failures,
                final(self).download_metrics.total_retries,
            ) == spec_counters_after(
                old(self).download_metrics.total_success,
                old(self).download_metrics.total_failures,
                old(self).download_metrics.total_retries,
                snapshot.status,
            ),
            final(self).download_metrics.recent_attempts@ == spec_recent_after(
                old(self).download_metrics.recent_attempts@,
                snapshot,
            ),
            old(self).events.items@.len() < EVENT_QUEUE_CAPACITY
                ==> final(self).events.items@ == old(self).events.items@.push(
                    FileTransferEvent::DownloadAttempt(snapshot),
                ),
            old(self).events.items@.len() >= EVENT_QUEUE_CAPACITY
                ==> final(self).events.items@ == old(self).events.items@,
    {
        let event_copy = snapshot.clone();
        self.download_metrics.record_attempt(snapshot);
        let _accepted = self.events.send(FileTransferEvent::DownloadAttempt(event_copy));
    }

    /// Remove and return up to `max` pending events, oldest first,
    /// without blocking.
    pub fn drain_events(&mut self, max: usize) -> (out: Vec<FileTransferEvent>)
        requires
            old(self).wf(),
        ensures
            final(self).wf(),
            final(self).stored_files == old(self).stored_files,
            final(self).download_metrics == old(self).download_metrics,
            out@.len() == if max <= old(self).events.items@.len() {
                max as int
            } else {
                old(self).events.items@.len() as int
            },
            out@ == old(self).events.items@.take(out@.len() as int),
            final(self).events.items@ == old(self).events.items@.skip(out@.len() as int),
    {
        self.events.drain(max)
    }

    /// An immutable copy of the download metrics.
    pub fn download_metrics_snapshot(&self) -> (r: DownloadMetricsSnapshot)
        ensures
            r.total_success == self.download_metrics.total_success,
            r.total_failures == self.download_metrics.total_failures,
            r.total_retries == self.download_metrics.total_retries,
            r.recent_attempts@ == self.download_metrics.recent_attempts@,
    {
        self.download_metrics.snapshot()
    }
}

} // verus!
