//! The alert contract: typed messages describing reconciliation anomalies.
//!
//! The service records each alert it is asked to send; delivery to e-mail,
//! webhooks or pagers is a collaborator's responsibility, drained from here
//! without ever blocking reconciliation.

use vstd::prelude::*;

use crate::text::{dec_chars, u64_to_dec};
use vstd::string::StringExecFns;

verus! {

/// Alert severity levels.
#[derive(Clone, Copy, Debug, PartialEq, Eq, Structural)]
pub enum AlertSeverity {
    Info,
    Warning,
    Error,
    Critical,
}

/// Alert kinds, a closed enumeration with the payload each carries.
#[derive(Debug)]
pub enum AlertType {
    VerificationFailed { epoch: u64, expected_hash: String, actual_hash: String },
    MissingSnapshot { epoch: u64 },
    ListenerFailure { error: String },
    UnauthorizedSubmission { epoch: u64, submitter: String },
}

/// Mathematical view of an alert kind.
#[verifier::ext_equal]
pub ghost enum AlertTypeModel {
    VerificationFailed { epoch: u64, expected_hash: Seq<char>, actual_hash: Seq<char> },
    MissingSnapshot { epoch: u64 },
    ListenerFailure { error: Seq<char> },
    UnauthorizedSubmission { epoch: u64, submitter: Seq<char> },
}

impl View for AlertType {
    type V = AlertTypeModel;

    open spec fn view(&self) -> AlertTypeModel {
        match self {
            AlertType::VerificationFailed { epoch, expected_hash, actual_hash } => {
                AlertTypeModel::VerificationFailed {
                    epoch: *epoch,
                    expected_hash: expected_hash@,
                    actual_hash: actual_hash@,
                }
            },
            AlertType::MissingSnapshot { epoch } => {
                AlertTypeModel::MissingSnapshot { epoch: *epoch }
            },
            AlertType::ListenerFailure { error } => {
                AlertTypeModel::ListenerFailure { error: error@ }
            },
            AlertType::UnauthorizedSubmission { epoch, submitter } => {
                AlertTypeModel::UnauthorizedSubmission { epoch: *epoch, submitter: submitter@ }
            },
        }
    }
}

/// One alert: kind, severity, a human-readable message and the time it was
/// raised.
#[derive(Debug)]
pub struct Alert {
    pub alert_type: AlertType,
    pub severity: AlertSeverity,
    pub message: String,
    pub timestamp: u64,
}

/// Mathematical view of an alert.
#[verifier::ext_equal]
pub ghost struct AlertModel {
    pub alert_type: AlertTypeModel,
    pub severity: AlertSeverity,
    pub message: Seq<char>,
    pub timestamp: u64,
}

impl View for Alert {
    type V = AlertModel;

    open spec fn view(&self) -> AlertModel {
        AlertModel {
            alert_type: self.alert_type@,
            severity: self.severity,
            message: self.message@,
            timestamp: self.timestamp,
        }
    }
}

/// The view of an alert sequence.
pub open spec fn alerts_view(s: Seq<Alert>) -> Seq<AlertModel> {
    s.map_values(|a: Alert| a@)
}

/// The message of a verification-failure alert.
pub open spec fn verification_failed_message(
    epoch: u64,
    expected: Seq<char>,
    actual: Seq<char>,
) -> Seq<char> {
    "Snapshot verification failed for epoch "@ + dec_chars(epoch as nat)
        + ". Expected hash: "@ + expected + ", Actual hash: "@ + actual
}

/// The verification-failure alert raised at time `now`.
pub open spec fn verification_failed_alert(
    epoch: u64,
    expected: Seq<char>,
    actual: Seq<char>,
    now: u64,
) -> AlertModel {
    AlertModel {
        alert_type: AlertTypeModel::VerificationFailed {
            epoch,
            expected_hash: expected,
            actual_hash: actual,
        },
        severity: AlertSeverity::Critical,
        message: verification_failed_message(epoch, expected, actual),
        timestamp: now,
    }
}

/// The message of a missing-snapshot alert.
pub open spec fn missing_snapshot_message(epoch: u64) -> Seq<char> {
    "No snapshot found in database for epoch "@ + dec_chars(epoch as nat)
}

/// The missing-snapshot alert raised at time `now`.
pub open spec fn missing_snapshot_alert(epoch: u64, now: u64) -> AlertModel {
    AlertModel {
        alert_type: AlertTypeModel::MissingSnapshot { epoch },
        severity: AlertSeverity::Warning,
        message: missing_snapshot_message(epoch),
        timestamp: now,
    }
}

/// The message of a listener-failure alert.
pub open spec fn listener_failure_message(error: Seq<char>) -> Seq<char> {
    "Contract event listener failed: "@ + error
}

/// The listener-failure alert raised at time `now`.
pub open spec fn listener_failure_alert(error: Seq<char>, now: u64) -> AlertModel {
    AlertModel {
        alert_type: AlertTypeModel::ListenerFailure { error },
        severity: AlertSeverity::Error,
        message: listener_failure_message(error),
        timestamp: now,
    }
}

/// The message of an unauthorized-submission alert.
pub open spec fn unauthorized_submission_message(epoch: u64, submitter: Seq<char>) -> Seq<char> {
    "Unauthorized snapshot submission detected for epoch "@ + dec_chars(epoch as nat) + " from "@
        + submitter
}

/// The unauthorized-submission alert raised at time `now`.
pub open spec fn unauthorized_submission_alert(epoch: u64, submitter: Seq<char>, now: u64) -> AlertModel {
    AlertModel {
        alert_type: AlertTypeModel::UnauthorizedSubmission { epoch, submitter },
        severity: AlertSeverity::Critical,
        message: unauthorized_submission_message(epoch, submitter),
        timestamp: now,
    }
}

/// Records alerts for a delivery collaborator to drain; reconciliation
/// never blocks on delivery.
pub struct AlertService {
    sent: Vec<Alert>,
}

impl View for AlertService {
    type V = Seq<AlertModel>;

    closed spec fn view(&self) -> Seq<AlertModel> {
        alerts_view(self.sent@)
    }
}

impl AlertService {
    /// Creates a service with no alerts recorded.
    pub fn new() -> (r: Self)
        ensures
            r@ == Seq::<AlertModel>::empty(),
    {
        let r = AlertService { sent: Vec::new() };
        proof {
            assert(r@ =~= Seq::<AlertModel>::empty());
        }
        r
    }

    /// How many alerts are waiting for delivery.
    pub fn len(&self) -> (r: usize)
        ensures
            r == self@.len(),
    {
        self.sent.len()
    }

    /// The alert at position `i`.
    pub fn get_alert(&self, i: usize) -> (r: &Alert)
        requires
            i < self@.len(),
        ensures
            r@ == self@[i as int],
    {
        &self.sent[i]
    }

    /// Records an alert.
    pub fn send_alert(&mut self, alert: Alert)
        ensures
            final(self)@ == old(self)@.push(alert@),
    {
        self.sent.push(alert);
        proof {
            assert(alerts_view(self.sent@) =~= old(self)@.push(alert@));
        }
    }

    /// Hands every recorded alert to the delivery collaborator.
    pub fn drain(&mut self) -> (r: Vec<Alert>)
        ensures
            alerts_view(r@) == old(self)@,
            final(self)@ == Seq::<AlertModel>::empty(),
    {
        let mut taken: Vec<Alert> = Vec::new();
        core::mem::swap(&mut taken, &mut self.sent);
        proof {
            assert(final(self)@ =~= Seq::<AlertModel>::empty());
        }
        taken
    }

    /// Records the critical alert for a snapshot whose on-chain hash does
    /// not match the backend's.
    pub fn alert_verification_failed(
        &mut self,
        epoch: u64,
        expected_hash: String,
        actual_hash: String,
        now: u64,
    )
        ensures
            final(self)@ == old(self)@.push(
                verification_failed_alert(epoch, expected_hash@, actual_hash@, now),
            ),
    {
        let ghost eh = expected_hash@;
        let ghost ah = actual_hash@;
        let mut message = "Snapshot verification failed for epoch ".to_owned();
        let dec = u64_to_dec(epoch);
        message.append(dec.as_str());
        message.append(". Expected hash: ");
        message.append(expected_hash.as_str());
        message.append(", Actual hash: ");
        message.append(actual_hash.as_str());
        let alert = Alert {
            alert_type: AlertType::VerificationFailed { epoch, expected_hash, actual_hash },
            severity: AlertSeverity::Critical,
            message,
            timestamp: now,
        };
        proof {
            assert(alert@ =~= verification_failed_alert(epoch, eh, ah, now));
        }
        self.send_alert(alert);
    }

    /// Records the warning alert for an epoch with no backend snapshot.
    pub fn alert_missing_snapshot(&mut self, epoch: u64, now: u64)
        ensures
            final(self)@ == old(self)@.push(missing_snapshot_alert(epoch, now)),
    {
        let mut message = "No snapshot found in database for epoch ".to_owned();
        let dec = u64_to_dec(epoch);
        message.append(dec.as_str());
        let alert = Alert {
            alert_type: AlertType::MissingSnapshot { epoch },
            severity: AlertSeverity::Warning,
            message,
            timestamp: now,
        };
        proof {
            assert(alert@ =~= missing_snapshot_alert(epoch, now));
        }
        self.send_alert(alert);
    }

    /// Records the alert for a listener that could not complete its work.
    pub fn alert_listener_failure(&mut self, error: String, now: u64)
        ensures
            final(self)@ == old(self)@.push(listener_failure_alert(error@, now)),
    {
        let ghost err = error@;
        let mut message = "Contract event listener failed: ".to_owned();
        message.append(error.as_str());
        let alert = Alert {
            alert_type: AlertType::ListenerFailure { error },
            severity: AlertSeverity::Error,
            message,
            timestamp: now,
        };
        proof {
            assert(alert@ =~= listener_failure_alert(err, now));
        }
        self.send_alert(alert);
    }

    /// Records the critical alert for a snapshot submitted by an account
    /// that is not the authorized submitter.
    pub fn alert_unauthorized_submission(&mut self, epoch: u64, submitter: String, now: u64)
        ensures
            final(self)@ == old(self)@.push(
                unauthorized_submission_alert(epoch, submitter@, now),
            ),
    {
        let ghost sub = submitter@;
        let mut message = "Unauthorized snapshot submission detected for epoch ".to_owned();
        let dec = u64_to_dec(epoch);
        message.append(dec.as_str());
        message.append(" from ");
        message.append(submitter.as_str());
        let alert = Alert {
            alert_type: AlertType::UnauthorizedSubmission { epoch, submitter },
            severity: AlertSeverity::Critical,
            message,
            timestamp: now,
        };
        proof {
            assert(alert@ =~= unauthorized_submission_alert(epoch, sub, now));
        }
        self.send_alert(alert);
    }
}

impl Default for AlertService {
    fn default() -> (r: Self)
        ensures
            r@ == Seq::<AlertModel>::empty(),
    {
        Self::new()
    }
}

} // verus!
