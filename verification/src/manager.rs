//! The metadata manager: the loading/loaded cell that coalesces concurrent
//! waiters onto one fetch, the per-client correlation counter, and the state
//! machine of one load sequence.
use vstd::prelude::*;

use crate::cluster::{BrokerRef, UsableApiVersions};
use crate::connection::{spec_wrap_inc, wrap_inc};
use crate::errors::ErrorKind;
use crate::metadata::{Metadata, spec_lookup_versions, versions_match};
use crate::metadata_msg::MetadataResponse;

verus! {

/// Where the current snapshot stands: a fetch in flight with callers queued
/// behind it, or a published snapshot.
pub enum MetadataStatus {
    /// A fetch is in flight; this many callers wait for it.
    Loading(u64),
    /// The snapshot every caller receives immediately.
    Loaded(Metadata),
}

/// What one metadata enquiry got.
#[derive(Clone, Copy, Debug, PartialEq, Eq, Structural)]
pub enum MetadataAccess {
    /// The snapshot is published; read it off the state.
    Immediate,
    /// A fetch is in flight; the caller joined its wait list and no second
    /// fetch is started.
    Enqueued,
}

/// The per-client state: the correlation counter and the metadata cell.
pub struct ClientState {
    pub correlation_id: i32,
    pub metadata: MetadataStatus,
}

impl ClientState {
    pub fn new() -> (r: Self)
        ensures
            r.correlation_id == 0,
            r.metadata matches MetadataStatus::Loading(n) && n == 0,
    {
        ClientState { correlation_id: 0, metadata: MetadataStatus::Loading(0) }
    }

    /// Stamps the next request: hands out the current counter value and
    /// advances it, wrapping at the top.
    pub fn next_correlation_id(&mut self) -> (r: i32)
        ensures
            r == old(self).correlation_id,
            final(self).correlation_id == spec_wrap_inc(old(self).correlation_id),
            final(self).metadata == old(self).metadata,
    {
        let id = self.correlation_id;
        self.correlation_id = wrap_inc(id);
        id
    }

    /// One caller asks for the snapshot. While a fetch is in flight the
    /// caller is queued and no second fetch starts: the wait list grows by
    /// one and nothing else changes. A published snapshot is read at once.
    pub fn get_metadata(&mut self) -> (r: MetadataAccess)
        ensures
            final(self).correlation_id == old(self).correlation_id,
            match old(self).metadata {
                MetadataStatus::Loading(n) => {
                    &&& r == MetadataAccess::Enqueued
                    &&& final(self).metadata == MetadataStatus::Loading(
                        if n == u64::MAX {
                            n
                        } else {
                            (n + 1) as u64
                        },
                    )
                },
                MetadataStatus::Loaded(_) => {
                    &&& r == MetadataAccess::Immediate
                    &&& final(self).metadata == old(self).metadata
                },
            },
    {
        match &self.metadata {
            MetadataStatus::Loaded(_) => MetadataAccess::Immediate,
            MetadataStatus::Loading(n) => {
                let waiting = *n;
                self.metadata = MetadataStatus::Loading(
                    if waiting == u64::MAX {
                        waiting
                    } else {
                        waiting + 1
                    },
                );
                MetadataAccess::Enqueued
            },
        }
    }

    /// The published snapshot, if one is up.
    pub fn snapshot(&self) -> (r: Option<&Metadata>)
        ensures
            match self.metadata {
                MetadataStatus::Loaded(m) => r matches Some(s) && *s == m,
                MetadataStatus::Loading(_) => r is None,
            },
    {
        match &self.metadata {
            MetadataStatus::Loaded(m) => Some(m),
            MetadataStatus::Loading(_) => None,
        }
    }

    /// Publishes a snapshot. Every queued waiter is to be woken with it, and
    /// their number is handed back; the snapshot is in place before any of
    /// them can look.
    pub fn set_metadata(&mut self, metadata: Metadata) -> (woken: u64)
        ensures
            final(self).correlation_id == old(self).correlation_id,
            final(self).metadata == MetadataStatus::Loaded(metadata),
            woken == (match old(self).metadata {
                MetadataStatus::Loading(n) => n,
                MetadataStatus::Loaded(_) => 0u64,
            }),
    {
        let woken = match &self.metadata {
            MetadataStatus::Loading(n) => *n,
            MetadataStatus::Loaded(_) => 0,
        };
        self.metadata = MetadataStatus::Loaded(metadata);
        woken
    }

    /// A load failed. Every queued waiter is to observe the error, and the
    /// cell returns to an empty wait list so the next caller may retry.
    pub fn fail_load(&mut self) -> (failed: u64)
        ensures
            final(self).correlation_id == old(self).correlation_id,
            final(self).metadata == MetadataStatus::Loading(0u64),
            failed == (match old(self).metadata {
                MetadataStatus::Loading(n) => n,
                MetadataStatus::Loaded(_) => 0u64,
            }),
    {
        let failed = match &self.metadata {
            MetadataStatus::Loading(n) => *n,
            MetadataStatus::Loaded(_) => 0,
        };
        self.metadata = MetadataStatus::Loading(0);
        failed
    }
}

/// Where one load sequence stands.
pub enum LoadState {
    /// The metadata request is in flight.
    FetchingMetadata,
    /// The snapshot arrived; per-broker api-version requests are in flight.
    FetchingApiVersions(Metadata),
    /// The snapshot is complete and ready to publish.
    Finished(Metadata),
}

/// What the driver of a load sequence must do next.
#[derive(Clone, Copy, Debug, PartialEq, Eq, Structural)]
pub enum LoadAction {
    /// Send an api-versions request to every broker of the snapshot.
    FetchApiVersions,
    /// Publish the finished snapshot and wake the waiters.
    Publish,
}

/// One step of the load sequence, on the arrival of the metadata response.
/// With api-version probing on, the sequence turns to fetching windows from
/// every broker; with probing off, the configured fallback windows are
/// attached and the snapshot is done.
pub fn load_step_metadata(
    resp: &MetadataResponse,
    api_version_request: bool,
    fallback: &UsableApiVersions,
) -> (r: (LoadState, LoadAction))
    ensures
        ({
            let built = r.0;
            if api_version_request {
                &&& r.1 == LoadAction::FetchApiVersions
                &&& built matches LoadState::FetchingApiVersions(m) && snapshot_of_response(
                    m,
                    *resp,
                )
            } else {
                &&& r.1 == LoadAction::Publish
                &&& built matches LoadState::Finished(m) && {
                    &&& m.topics@.len() == resp.topics@.len()
                    &&& m.brokers@.len() == resp.brokers@.len()
                    &&& forall|i: int| 0 <= i < m.brokers@.len() ==> versions_match(
                        (#[trigger] m.brokers@[i]).api_versions,
                        Some(*fallback),
                    )
                }
            }
        }),
{
    let built = Metadata::from_response(resp);
    if api_version_request {
        (LoadState::FetchingApiVersions(built), LoadAction::FetchApiVersions)
    } else {
        let done = built.with_fallback_api_versions(fallback);
        (LoadState::Finished(done), LoadAction::Publish)
    }
}

/// A built snapshot mirrors the metadata response it came from.
pub open spec fn snapshot_of_response(m: Metadata, resp: MetadataResponse) -> bool {
    &&& m.brokers@.len() == resp.brokers@.len()
    &&& m.topics@.len() == resp.topics@.len()
    &&& forall|i: int| 0 <= i < m.topics@.len() ==> (#[trigger] m.topics@[i]).0@ == resp.topics@[
        i
    ].topic_name@
}

/// One step of the load sequence, on the arrival of the per-broker
/// api-version windows: the snapshot carries them and is done.
pub fn load_step_api_versions(state: LoadState, versions: &Vec<(BrokerRef, UsableApiVersions)>) -> (r: Result<
    (LoadState, LoadAction),
    ErrorKind,
>)
    ensures
        match old_state_metadata(state) {
            Option::Some(m) => match r {
                Ok(step) => {
                    &&& step.1 == LoadAction::Publish
                    &&& step.0 matches LoadState::Finished(done) && {
                        &&& done.topics == m.topics
                        &&& done.brokers@.len() == m.brokers@.len()
                        &&& forall|i: int| 0 <= i < done.brokers@.len() ==> versions_match(
                            (#[trigger] done.brokers@[i]).api_versions,
                            spec_lookup_versions(versions@, m.brokers@[i].node_id),
                        )
                    }
                },
                Err(_) => false,
            },
            Option::None => r == Result::<(LoadState, LoadAction), ErrorKind>::Err(
                ErrorKind::Protocol,
            ),
        },
{
    match state {
        LoadState::FetchingApiVersions(m) => {
            let done = m.with_api_versions(versions);
            Ok((LoadState::Finished(done), LoadAction::Publish))
        },
        _ => Err(ErrorKind::Protocol),
    }
}

/// The snapshot a load state carries while api-version probing runs.
pub open spec fn old_state_metadata(state: LoadState) -> Option<Metadata> {
    match state {
        LoadState::FetchingApiVersions(m) => Some(m),
        _ => None,
    }
}

} // verus!
