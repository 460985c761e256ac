//! The records kept of installations, and the health of their store.
use vstd::prelude::*;
use crate::text::text_eq;

verus! {

/// How an installation ended.
#[derive(Debug, Clone, Copy, PartialEq, Eq, Structural)]
pub enum InstallStatus {
    Success,
    Failed,
    Removed,
    Updated,
}

/// The word under which a status is stored.
pub open spec fn status_word(s: InstallStatus) -> Seq<char> {
    match s {
        InstallStatus::Success => "success"@,
        InstallStatus::Failed => "failed"@,
        InstallStatus::Removed => "removed"@,
        InstallStatus::Updated => "updated"@,
    }
}

/// The status a stored word stands for; an unknown word reads as a failure.
pub open spec fn status_of_word(w: Seq<char>) -> InstallStatus {
    if w == "success"@ {
        InstallStatus::Success
    } else if w == "failed"@ {
        InstallStatus::Failed
    } else if w == "removed"@ {
        InstallStatus::Removed
    } else if w == "updated"@ {
        InstallStatus::Updated
    } else {
        InstallStatus::Failed
    }
}

impl InstallStatus {
    /// The word under which the status is stored.
    pub fn as_word(&self) -> (r: &'static str)
        ensures
            r@ == status_word(*self),
    {
        match self {
            InstallStatus::Success => "success",
            InstallStatus::Failed => "failed",
            InstallStatus::Removed => "removed",
            InstallStatus::Updated => "updated",
        }
    }

    /// The status a stored word stands for.
    pub fn from_word(w: &str) -> (r: InstallStatus)
        ensures
            r == status_of_word(w@),
    {
        if text_eq(w, "success") {
            InstallStatus::Success
        } else if text_eq(w, "failed") {
            InstallStatus::Failed
        } else if text_eq(w, "removed") {
            InstallStatus::Removed
        } else if text_eq(w, "updated") {
            InstallStatus::Updated
        } else {
            InstallStatus::Failed
        }
    }
}

/// Reading back the word under which a status was stored gives the status.
pub proof fn law_status_word_round_trip(s: InstallStatus)
    ensures
        status_of_word(status_word(s)) == s,
{
    reveal_strlit("success");
    reveal_strlit("failed");
    reveal_strlit("removed");
    reveal_strlit("updated");
    assert("success"@[0] == 's' && "failed"@[0] == 'f' && "removed"@[0] == 'r' && "updated"@[0] == 'u');
    assert("success"@ != "failed"@ && "success"@ != "removed"@ && "success"@ != "updated"@);
    assert("failed"@ != "removed"@ && "failed"@ != "updated"@ && "removed"@ != "updated"@);
}

/// Counts of the package cache.
#[derive(Debug, Clone, Copy, PartialEq, Eq, Structural)]
pub struct CacheStats {
    pub total_entries: usize,
    pub expired_entries: usize,
    pub total_hits: usize,
}

/// The health of the store.
#[derive(Debug, Clone, Copy, PartialEq, Eq, Structural)]
pub struct DatabaseHealth {
    pub total_install_records: usize,
    pub total_snapshots: usize,
    pub cache_stats: CacheStats,
    pub integrity_ok: bool,
}

impl DatabaseHealth {
    /// The health from the counts and the answer of the integrity check,
    /// which is sound only when it answers `ok`.
    pub fn from_counts(
        total_install_records: usize,
        total_snapshots: usize,
        cache_stats: CacheStats,
        integrity_answer: &str,
    ) -> (r: Self)
        ensures
            r.total_install_records == total_install_records,
            r.total_snapshots == total_snapshots,
            r.cache_stats == cache_stats,
            r.integrity_ok == (integrity_answer@ == "ok"@),
    {
        DatabaseHealth {
            total_install_records,
            total_snapshots,
            cache_stats,
            integrity_ok: text_eq(integrity_answer, "ok"),
        }
    }
}

} // verus!
