//! The files of a transfer and the progress made on them.

use vstd::prelude::*;

verus! {

/// Trusted: `serde_json::Value`, the free-form metadata of a file. The
/// library carries such a value along and never looks into it.
#[verifier::external_type_specification]
#[verifier::external_body]
pub struct ExJsonValue(serde_json::Value);

/// Trusted: `Clone::clone` of `serde_json::Value`, which copies the JSON
/// tree. The copy is the same JSON value.
#[verifier::external_body]
pub(crate) fn clone_json(value: &serde_json::Value) -> (copy: serde_json::Value)
    ensures
        copy == *value,
{
    value.clone()
}

/// One file of a transfer. The record is immutable once it is attached to a
/// session.
#[derive(Debug)]
pub struct FileInfo {
    pub id: String,
    pub name: String,
    pub size: u64,
    pub file_type: String,
    pub metadata: Option<serde_json::Value>,
}

impl Clone for FileInfo {
    fn clone(&self) -> (copy: Self)
        ensures
            copy == *self,
    {
        let metadata = match &self.metadata {
            Some(value) => Some(clone_json(value)),
            None => None,
        };
        FileInfo {
            id: self.id.clone(),
            name: self.name.clone(),
            size: self.size,
            file_type: self.file_type.clone(),
            metadata,
        }
    }
}

/// The sum of the sizes of `files`.
pub open spec fn total_size(files: Seq<FileInfo>) -> nat
    decreases files.len(),
{
    if files.len() == 0 {
        0
    } else {
        total_size(files.drop_last()) + files.last().size as nat
    }
}

/// The sum of the sizes of `files`, held at `u64::MAX` where it would
/// exceed it.
pub open spec fn capped_total(files: Seq<FileInfo>) -> u64 {
    if total_size(files) > u64::MAX {
        u64::MAX
    } else {
        total_size(files) as u64
    }
}

/// The total size of `files` in bytes, saturating at `u64::MAX`.
pub fn total_bytes(files: &Vec<FileInfo>) -> (total: u64)
    ensures
        total == capped_total(files@),
{
    let mut total: u64 = 0;
    let mut i: usize = 0;
    proof {
        assert(files@.subrange(0, 0) =~= Seq::<FileInfo>::empty());
    }
    while i < files.len()
        invariant
            i <= files@.len(),
            total == capped_total(files@.subrange(0, i as int)),
        decreases files@.len() - i,
    {
        proof {
            let next = files@.subrange(0, i + 1);
            assert(next.drop_last() =~= files@.subrange(0, i as int));
            assert(next.last() == files@[i as int]);
        }
        total = total.saturating_add(files[i].size);
        i = i + 1;
    }
    proof {
        assert(files@.subrange(0, i as int) =~= files@);
    }
    total
}

/// A copy of `files`.
pub fn clone_files(files: &Vec<FileInfo>) -> (copy: Vec<FileInfo>)
    ensures
        copy@ == files@,
{
    let mut copy: Vec<FileInfo> = Vec::new();
    let mut i: usize = 0;
    while i < files.len()
        invariant
            i <= files@.len(),
            copy@ == files@.subrange(0, i as int),
        decreases files@.len() - i,
    {
        copy.push(files[i].clone());
        proof {
            assert(copy@ =~= files@.subrange(0, i + 1));
        }
        i = i + 1;
    }
    proof {
        assert(copy@ =~= files@);
    }
    copy
}

/// How far a transfer has come.
#[derive(Clone, Copy, Debug, PartialEq, Eq, Structural)]
pub struct TransferProgress {
    pub bytes_transferred: u64,
    pub total_bytes: u64,
    pub speed_bytes_per_sec: u64,
}

impl Default for TransferProgress {
    fn default() -> (progress: Self)
        ensures
            progress == (TransferProgress {
                bytes_transferred: 0,
                total_bytes: 0,
                speed_bytes_per_sec: 0,
            }),
    {
        TransferProgress { bytes_transferred: 0, total_bytes: 0, speed_bytes_per_sec: 0 }
    }
}

/// The share of `total` that `done` makes, in whole percent and rounded
/// down: 0 of an empty total, and 100 where `done` is `total` or more.
pub open spec fn percent_of(done: u64, total: u64) -> int {
    if total == 0 {
        0
    } else if done >= total {
        100
    } else {
        (done as int * 100) / (total as int)
    }
}

impl TransferProgress {
    /// Progress of `bytes_transferred` bytes out of `total_bytes`.
    pub fn new(bytes_transferred: u64, total_bytes: u64) -> (progress: Self)
        ensures
            progress == (TransferProgress {
                bytes_transferred,
                total_bytes,
                speed_bytes_per_sec: 0,
            }),
    {
        TransferProgress { bytes_transferred, total_bytes, speed_bytes_per_sec: 0 }
    }

    /// Whether no more has been transferred than there is in total.
    pub open spec fn well_formed(&self) -> bool {
        self.bytes_transferred <= self.total_bytes
    }

    /// The progress in whole percent, rounded down; 0 when there is nothing
    /// to transfer.
    pub fn progress_percent(&self) -> (percent: u64)
        ensures
            percent == percent_of(self.bytes_transferred, self.total_bytes),
            percent <= 100,
            self.total_bytes > 0 ==> (percent == 100 <==> self.bytes_transferred
                >= self.total_bytes),
    {
        if self.total_bytes == 0 {
            return 0;
        }
        if self.bytes_transferred >= self.total_bytes {
            return 100;
        }
        let done: u128 = self.bytes_transferred as u128;
        let total: u128 = self.total_bytes as u128;
        let percent: u128 = done * 100 / total;
        proof {
            let d = self.bytes_transferred as int;
            let t = self.total_bytes as int;
            assert((d * 100) / t < 100) by (nonlinear_arith)
                requires
                    0 <= d < t,
            ;
            assert((d * 100) / t >= 0) by (nonlinear_arith)
                requires
                    0 <= d < t,
            ;
        }
        percent as u64
    }

    /// Whether everything has been transferred.
    pub fn is_complete(&self) -> (done: bool)
        ensures
            done == (self.bytes_transferred >= self.total_bytes),
    {
        self.bytes_transferred >= self.total_bytes
    }
}

} // verus!
