//! Decisions of the auto-update: what the user is told of an available
//! update, and how often the download progress is reported.

use vstd::prelude::*;

use crate::events::DomainEvent;

verus! {

/// Report the progress at most every ~256 KiB, so as not to flood the
/// channel to the user interface.
pub const PROGRESS_THROTTLE_BYTES: u64 = 256 * 1024;

/// An available update, for the notice shown to the user.
#[derive(Debug, Clone, PartialEq, Eq)]
pub struct UpdateInfo {
    pub version: String,
    pub notes: String,
    pub pub_date: Option<String>,
}

/// The notice of an update: its version, its release notes (empty when
/// there are none) and its publication date, if known.
pub fn update_info(version: String, body: Option<String>, date: Option<String>) -> (u: UpdateInfo)
    ensures
        u.version@ == version@,
        u.notes@ == match body {
            Some(b) => b@,
            None => Seq::<char>::empty(),
        },
        u.pub_date == date,
{
    let notes = match body {
        Some(b) => b,
        None => String::new(),
    };
    UpdateInfo { version, notes, pub_date: date }
}

/// Download progress accounting of one update: the bytes downloaded so
/// far, and the count at the last progress report (never ahead of it).
pub struct ProgressThrottle {
    downloaded: u64,
    last_emitted: u64,
}

/// The accounting as a mathematical value.
pub struct ThrottleView {
    pub downloaded: u64,
    pub last_emitted: u64,
}

impl View for ProgressThrottle {
    type V = ThrottleView;

    closed spec fn view(&self) -> ThrottleView {
        ThrottleView { downloaded: self.downloaded, last_emitted: self.last_emitted }
    }
}

impl ProgressThrottle {
    #[verifier::type_invariant]
    spec fn reported_not_ahead(self) -> bool {
        self.last_emitted <= self.downloaded
    }

    pub fn new() -> (t: Self)
        ensures
            t@.downloaded == 0,
            t@.last_emitted == 0,
    {
        ProgressThrottle { downloaded: 0, last_emitted: 0 }
    }

    /// Bytes downloaded so far.
    pub fn downloaded(&self) -> (d: u64)
        ensures
            d == self@.downloaded,
            self@.last_emitted <= d,
    {
        proof {
            use_type_invariant(self);
        }
        self.downloaded
    }

    /// Accounts a downloaded chunk and returns the progress event to emit,
    /// if any: the first report starts the progress bar, and later ones
    /// come every `PROGRESS_THROTTLE_BYTES` at most.
    pub fn on_chunk(&mut self, chunk: u64, content_length: Option<u64>) -> (ev: Option<DomainEvent>)
        requires
            old(self)@.downloaded + chunk <= u64::MAX,
        ensures
            final(self)@.downloaded == old(self)@.downloaded + chunk,
            final(self)@.last_emitted <= final(self)@.downloaded,
            ({
                let emit = old(self)@.last_emitted == 0 || final(self)@.downloaded
                    - old(self)@.last_emitted >= PROGRESS_THROTTLE_BYTES;
                &&& emit ==> final(self)@.last_emitted == final(self)@.downloaded && ev == Some(
                    DomainEvent::UpdateDownloadProgress {
                        downloaded: final(self)@.downloaded,
                        content_length,
                    },
                )
                &&& !emit ==> final(self)@.last_emitted == old(self)@.last_emitted && ev is None
            }),
    {
        proof {
            use_type_invariant(&*self);
        }
        self.downloaded = self.downloaded + chunk;
        if self.last_emitted == 0 || self.downloaded - self.last_emitted >= PROGRESS_THROTTLE_BYTES {
            self.last_emitted = self.downloaded;
            Some(DomainEvent::UpdateDownloadProgress { downloaded: self.downloaded, content_length })
        } else {
            None
        }
    }
}

/// The event of a failed installation.
pub fn install_failed(detail: String) -> (ev: DomainEvent)
    ensures
        ev matches DomainEvent::UpdateFailed { error_key, detail: d } && error_key@
            == "err.update.install"@ && d@ == detail@,
{
    DomainEvent::UpdateFailed { error_key: String::from_str("err.update.install"), detail }
}

} // verus!
