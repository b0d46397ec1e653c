use vstd::prelude::*;

verus! {

/// The three admission ceilings, fixed at construction and immutable for the
/// whole run.
#[derive(Clone, Copy, Debug, PartialEq, Eq, Structural)]
pub struct Limits {
    /// Maximum count of admitted files.
    pub max_files: usize,
    /// Maximum cumulative byte size across all admitted files.
    pub max_total_size: u64,
    /// Maximum byte size of a single admitted file.
    pub max_file_size: u64,
}

/// Why a file was excluded from the aggregate.
#[derive(Clone, Copy, Debug, PartialEq, Eq, Structural)]
pub enum SkipReason {
    /// The count of admitted files had already reached `max_files`.
    FileCountLimit,
    /// Admitting the file would push the running byte total over
    /// `max_total_size`.
    TotalSizeLimit,
    /// The file alone is larger than `max_file_size`.
    PerFileSizeLimit,
    /// The file's size or content could not be read.
    ReadError,
    /// The leading bytes used for text/binary classification could not be
    /// read.
    ClassificationError,
}

/// The limiter's answer for one candidate file.
#[derive(Clone, Copy, Debug, PartialEq, Eq, Structural)]
pub enum AdmitDecision {
    Admit,
    Reject(SkipReason),
}

/// Stateful gatekeeper: the configured ceilings plus the running totals of
/// what has been admitted so far.
#[derive(Clone, Copy, Debug, PartialEq, Eq, Structural)]
pub struct Limiter {
    pub limits: Limits,
    /// Count of files admitted and committed so far.
    pub files_admitted: usize,
    /// Cumulative measured size of files admitted and committed so far.
    pub bytes_admitted: u64,
}

/// The admission rule. The three checks are evaluated in this fixed order —
/// file count, then cumulative size, then per-file size — and the first match
/// wins, so a candidate that trips several limits is always reported under
/// the earliest one.
pub open spec fn admit_decision(l: Limiter, size: u64) -> AdmitDecision {
    if l.files_admitted >= l.limits.max_files {
        AdmitDecision::Reject(SkipReason::FileCountLimit)
    } else if l.bytes_admitted + size > l.limits.max_total_size {
        AdmitDecision::Reject(SkipReason::TotalSizeLimit)
    } else if size > l.limits.max_file_size {
        AdmitDecision::Reject(SkipReason::PerFileSizeLimit)
    } else {
        AdmitDecision::Admit
    }
}

/// The limiter state after committing one admitted file of the given size.
pub open spec fn commit_step(l: Limiter, size: u64) -> Limiter {
    Limiter {
        files_admitted: (l.files_admitted + 1) as usize,
        bytes_admitted: (l.bytes_admitted + size) as u64,
        ..l
    }
}

impl Limiter {
    /// The running totals never pass their ceilings.
    pub open spec fn wf(self) -> bool {
        &&& self.files_admitted <= self.limits.max_files
        &&& self.bytes_admitted <= self.limits.max_total_size
    }

    pub fn new(limits: Limits) -> (r: Limiter)
        ensures
            r.limits == limits,
            r.files_admitted == 0,
            r.bytes_admitted == 0,
            r.wf(),
    {
        Limiter { limits, files_admitted: 0, bytes_admitted: 0 }
    }

    /// Answer whether a candidate of the given measured size may be admitted.
    /// Read-only: admission and commit are separate so that a later failure
    /// on the same file never inflates the totals.
    pub fn decide(&self, size: u64) -> (r: AdmitDecision)
        requires
            self.wf(),
        ensures
            r == admit_decision(*self, size),
    {
        if self.files_admitted >= self.limits.max_files {
            AdmitDecision::Reject(SkipReason::FileCountLimit)
        } else if size > self.limits.max_total_size - self.bytes_admitted {
            AdmitDecision::Reject(SkipReason::TotalSizeLimit)
        } else if size > self.limits.max_file_size {
            AdmitDecision::Reject(SkipReason::PerFileSizeLimit)
        } else {
            AdmitDecision::Admit
        }
    }

    /// Add one admitted file of the given size to the running totals. Only
    /// legal directly after a positive admission decision on the same state.
    pub fn commit(&mut self, size: u64)
        requires
            old(self).wf(),
            admit_decision(*old(self), size) is Admit,
        ensures
            *final(self) == commit_step(*old(self), size),
            final(self).wf(),
    {
        self.files_admitted = self.files_admitted + 1;
        self.bytes_admitted = self.bytes_admitted + size;
    }
}

} // verus!
