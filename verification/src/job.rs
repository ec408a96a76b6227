//! The background-job wrapper around a listener: its configuration with
//! defaults, aggregate statistics for operators, and the backfill window
//! used to recover events missed during downtime.

use vstd::prelude::*;

use crate::indexer::{count_status, max_epoch, max_ledger, count_recent, day_cutoff};
use crate::listener::{ContractEventListener, ListenerModel};
use crate::model::VerificationStatus;

verus! {

/// Mathematical view of a job configuration.
#[verifier::ext_equal]
pub ghost struct JobConfigModel {
    pub enabled: bool,
    pub interval_seconds: u64,
    pub contract_id: Seq<char>,
    pub rpc_url: Seq<char>,
    pub start_ledger: Option<u64>,
}

/// Configuration of the contract-event listener job.
pub struct ContractEventListenerConfig {
    /// Whether the job runs at all.
    pub enabled: bool,
    /// Seconds between job runs.
    pub interval_seconds: u64,
    /// Address of the observed contract.
    pub contract_id: String,
    /// JSON-RPC endpoint URL.
    pub rpc_url: String,
    /// Ledger to start from; the chain head is adopted when absent.
    pub start_ledger: Option<u64>,
}

impl View for ContractEventListenerConfig {
    type V = JobConfigModel;

    open spec fn view(&self) -> JobConfigModel {
        JobConfigModel {
            enabled: self.enabled,
            interval_seconds: self.interval_seconds,
            contract_id: self.contract_id@,
            rpc_url: self.rpc_url@,
            start_ledger: self.start_ledger,
        }
    }
}

impl Clone for ContractEventListenerConfig {
    fn clone(&self) -> (r: Self)
        ensures
            r == *self,
    {
        ContractEventListenerConfig {
            enabled: self.enabled,
            interval_seconds: self.interval_seconds,
            contract_id: self.contract_id.clone(),
            rpc_url: self.rpc_url.clone(),
            start_ledger: self.start_ledger,
        }
    }
}

impl Default for ContractEventListenerConfig {
    /// The defaults: enabled, a ten-second interval, the public test
    /// endpoint, and no start ledger. The runtime overrides these from its
    /// environment before starting the job.
    fn default() -> (r: Self)
        ensures
            r@.enabled == true,
            r@.interval_seconds == 10,
            r@.contract_id == "default-contract-id"@,
            r@.rpc_url == "https://soroban-testnet.stellar.org"@,
            r@.start_ledger is None,
    {
        ContractEventListenerConfig {
            enabled: true,
            interval_seconds: 10,
            contract_id: "default-contract-id".to_owned(),
            rpc_url: "https://soroban-testnet.stellar.org".to_owned(),
            start_ledger: None,
        }
    }
}

/// Statistics reported by the listener job.
pub struct ContractEventListenerStats {
    pub enabled: bool,
    pub interval_seconds: u64,
    pub contract_id: String,
    pub rpc_url: String,
    pub total_events: u64,
    pub verified_snapshots: u64,
    pub failed_verifications: u64,
    pub latest_epoch: Option<u64>,
    pub latest_ledger: Option<u64>,
    pub events_last_24h: u64,
}

/// The contract-event listener background job: a listener plus the job
/// configuration the scheduler runs it under.
pub struct ContractEventListenerJob {
    config: ContractEventListenerConfig,
    listener: ContractEventListener,
}

/// Mathematical view of the job.
#[verifier::ext_equal]
pub ghost struct JobModel {
    pub config: JobConfigModel,
    pub listener: ListenerModel,
}

impl View for ContractEventListenerJob {
    type V = JobModel;

    closed spec fn view(&self) -> JobModel {
        JobModel { config: self.config@, listener: self.listener@ }
    }
}

/// The ledger a backfill scan starts from: one past the highest ledger in
/// the store, or the configured start ledger (or zero) for an empty store.
pub open spec fn missed_scan_start(m: JobModel) -> u64 {
    match max_ledger(m.listener.rows) {
        Some(l) => if l == u64::MAX {
            l
        } else {
            (l + 1) as u64
        },
        None => match m.config.start_ledger {
            Some(l) => l,
            None => 0u64,
        },
    }
}

impl ContractEventListenerJob {
    /// Creates the job over the given listener.
    pub fn new(listener: ContractEventListener, config: ContractEventListenerConfig) -> (r: Self)
        ensures
            r@.config == config@,
            r@.listener == listener@,
    {
        ContractEventListenerJob { config, listener }
    }

    /// The listener the job drives.
    pub fn listener(&self) -> (r: &ContractEventListener)
        ensures
            r@ == self@.listener,
    {
        &self.listener
    }

    /// Runs one poll tick on the job's listener; see
    /// [`crate::listener::spec_tick`].
    pub fn run_tick(
        &mut self,
        current_ledger: u64,
        events: Vec<crate::listener::RawEvent>,
        now: u64,
    ) -> (r: crate::listener::TickReport)
        requires
            crate::indexer::unique_ids(old(self)@.listener.rows),
        ensures
            final(self)@ == (JobModel {
                listener: crate::listener::spec_tick(
                    old(self)@.listener,
                    current_ledger,
                    crate::listener::raws_view(events@),
                    now,
                ),
                ..old(self)@
            }),
            crate::indexer::unique_ids(final(self)@.listener.rows),
            final(self)@.listener.last_ledger >= old(self)@.listener.last_ledger,
    {
        let r = self.listener.run_tick(current_ledger, events, now);
        proof {
            assert(final(self)@ =~= (JobModel {
                listener: crate::listener::spec_tick(
                    old(self)@.listener,
                    current_ledger,
                    crate::listener::raws_view(events@),
                    now,
                ),
                ..old(self)@
            }));
        }
        r
    }

    /// Adopts the chain head as the listener's cursor when no start
    /// ledger was configured and no tick has run yet.
    pub fn adopt_head(&mut self, latest_ledger: u64)
        ensures
            final(self)@ == (JobModel {
                listener: (ListenerModel {
                    last_ledger: if old(self)@.listener.last_ledger == 0 {
                        latest_ledger
                    } else {
                        old(self)@.listener.last_ledger
                    },
                    ..old(self)@.listener
                }),
                ..old(self)@
            }),
    {
        self.listener.adopt_head(latest_ledger);
        proof {
            assert(final(self)@ =~= (JobModel {
                listener: (ListenerModel {
                    last_ledger: if old(self)@.listener.last_ledger == 0 {
                        latest_ledger
                    } else {
                        old(self)@.listener.last_ledger
                    },
                    ..old(self)@.listener
                }),
                ..old(self)@
            }));
        }
    }

    /// Hands the listener's recorded alerts to the delivery collaborator.
    pub fn drain_alerts(&mut self) -> (r: Vec<crate::alerts::Alert>)
        ensures
            crate::alerts::alerts_view(r@) == old(self)@.listener.alerts,
            final(self)@ == (JobModel {
                listener: (ListenerModel { alerts: Seq::empty(), ..old(self)@.listener }),
                ..old(self)@
            }),
    {
        let r = self.listener.drain_alerts();
        proof {
            assert(final(self)@ =~= (JobModel {
                listener: (ListenerModel { alerts: Seq::empty(), ..old(self)@.listener }),
                ..old(self)@
            }));
        }
        r
    }

    /// The job's configuration.
    pub fn config(&self) -> (r: &ContractEventListenerConfig)
        ensures
            r@ == self@.config,
    {
        &self.config
    }

    /// Where a scan for events missed during downtime starts: just past
    /// the highest ledger already stored.
    pub fn missed_events_start(&self) -> (r: u64)
        ensures
            r == missed_scan_start(self@),
    {
        match self.listener.indexer().latest_stored_ledger() {
            Some(l) => if l == u64::MAX {
                l
            } else {
                l + 1
            },
            None => match self.config.start_ledger {
                Some(l) => l,
                None => 0,
            },
        }
    }

    /// Job statistics at wall-clock time `now` (unix seconds).
    pub fn get_stats(&self, now: u64) -> (r: ContractEventListenerStats)
        ensures
            r.enabled == self@.config.enabled,
            r.interval_seconds == self@.config.interval_seconds,
            r.contract_id@ == self@.config.contract_id,
            r.rpc_url@ == self@.config.rpc_url,
            r.total_events == self@.listener.rows.len(),
            r.verified_snapshots == count_status(self@.listener.rows, VerificationStatus::Verified),
            r.failed_verifications == count_status(self@.listener.rows, VerificationStatus::Failed),
            r.latest_epoch == max_epoch(self@.listener.rows),
            r.latest_ledger == max_ledger(self@.listener.rows),
            r.events_last_24h == count_recent(self@.listener.rows, day_cutoff(now)),
    {
        let stats = self.listener.indexer().get_event_stats(now);
        ContractEventListenerStats {
            enabled: self.config.enabled,
            interval_seconds: self.config.interval_seconds,
            contract_id: self.config.contract_id.clone(),
            rpc_url: self.config.rpc_url.clone(),
            total_events: stats.total_events,
            verified_snapshots: stats.verified_snapshots,
            failed_verifications: stats.failed_verifications,
            latest_epoch: stats.latest_epoch,
            latest_ledger: stats.latest_ledger,
            events_last_24h: stats.events_last_24h,
        }
    }
}

} // verus!
