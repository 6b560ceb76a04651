//! The configuration, and what it amounts to once defaults are filled in.
use vstd::prelude::*;

verus! {

/// How batches are forwarded. What is left out takes its default.
#[derive(Clone, Debug)]
pub struct ForwarderConfig {
    pub base_backoff_ms: Option<u64>,
    pub max_backoff_ms: Option<u64>,
    pub max_jitter_ms: Option<u64>,
    pub batch_size: Option<usize>,
    pub poll_interval_ms: Option<u64>,
    pub request_timeout_seconds: Option<u64>,
    pub max_consecutive_failures_before_error: Option<u64>,
}

/// How much is kept, and for how long. What is left out takes its default.
#[derive(Clone, Debug)]
pub struct BufferConfig {
    pub max_disk_bytes: Option<u64>,
    pub max_age_seconds: Option<u64>,
    pub retention_check_interval_seconds: Option<u64>,
}

/// The configuration of the relay.
#[derive(Clone, Debug)]
pub struct RelayConfig {
    pub named_pipe_path: String,
    pub metrics_queue: String,
    pub pingora_url: String,
    pub client_cert_sha1: String,
    pub server_sha256_pin: String,
    pub audit_source_name: String,
    /// The event log, where it is not the usual one.
    pub audit_log_name: Option<String>,
    /// The first wait after a failure, where the forwarder's section gives none.
    pub base_backoff_ms: Option<u64>,
    /// The bound of the wait, where the forwarder's section gives none.
    pub max_backoff_ms: Option<u64>,
    /// The bound of the random part, where the forwarder's section gives none.
    pub max_jitter_ms: Option<u64>,
    pub forwarder: ForwarderConfig,
    pub buffer: BufferConfig,
}

/// How batches are forwarded, with every value settled.
#[derive(Clone, Copy, Debug, PartialEq, Eq, Structural)]
pub struct ForwardPolicy {
    /// The first wait after a failure.
    pub base_backoff_ms: u64,
    /// The bound that doubling the wait keeps to.
    pub max_backoff_ms: u64,
    /// The random part of a wait is below this.
    pub max_jitter_ms: u64,
    /// The most records in one request.
    pub batch_size: usize,
    /// The wait when there is nothing to forward.
    pub poll_interval_ms: u64,
    /// The time that a request may take.
    pub request_timeout_seconds: u64,
    /// More failures in a row than this are an error.
    pub failure_threshold: u64,
}

/// How much is kept, and for how long, with every value settled.
#[derive(Clone, Copy, Debug, PartialEq, Eq, Structural)]
pub struct RetentionPolicy {
    pub max_disk_bytes: u64,
    pub max_age_seconds: u64,
    pub check_interval_seconds: u64,
}

/// `value`, or `default` where there is none.
pub open spec fn settled<T>(value: Option<T>, default: T) -> T {
    match value {
        Some(v) => v,
        None => default,
    }
}

/// `value`, or `other` where there is none.
pub open spec fn either<T>(value: Option<T>, other: Option<T>) -> Option<T> {
    match value {
        Some(v) => Some(v),
        None => other,
    }
}

fn choose_value(value: Option<u64>, other: Option<u64>) -> (r: Option<u64>)
    ensures
        r == either(value, other),
{
    match value {
        Some(v) => Some(v),
        None => other,
    }
}

fn settle(value: Option<u64>, default: u64) -> (r: u64)
    ensures
        r == settled(value, default),
{
    match value {
        Some(v) => v,
        None => default,
    }
}

impl ForwarderConfig {
    /// The values in force. By default a wait starts at one second and doubles up
    /// to five minutes, with up to two seconds of jitter; a request carries up to
    /// 1000 records and may take 30 seconds; an idle forwarder looks again after a
    /// tenth of a second; and more than ten failures in a row are an error.
    pub fn policy(&self) -> (p: ForwardPolicy)
        ensures
            p == (ForwardPolicy {
                base_backoff_ms: settled(self.base_backoff_ms, 1_000),
                max_backoff_ms: settled(self.max_backoff_ms, 300_000),
                max_jitter_ms: settled(self.max_jitter_ms, 2_000),
                batch_size: settled(self.batch_size, 1_000),
                poll_interval_ms: settled(self.poll_interval_ms, 100),
                request_timeout_seconds: settled(self.request_timeout_seconds, 30),
                failure_threshold: settled(self.max_consecutive_failures_before_error, 10),
            }),
    {
        ForwardPolicy {
            base_backoff_ms: settle(self.base_backoff_ms, 1_000),
            max_backoff_ms: settle(self.max_backoff_ms, 300_000),
            max_jitter_ms: settle(self.max_jitter_ms, 2_000),
            batch_size: match self.batch_size {
                Some(n) => n,
                None => 1_000,
            },
            poll_interval_ms: settle(self.poll_interval_ms, 100),
            request_timeout_seconds: settle(self.request_timeout_seconds, 30),
            failure_threshold: settle(self.max_consecutive_failures_before_error, 10),
        }
    }
}

impl RelayConfig {
    /// How batches are forwarded: what the forwarder's section leaves out of the
    /// three delays is taken from the top of the configuration, before the defaults.
    pub fn forward_policy(&self) -> (p: ForwardPolicy)
        ensures
            p == (ForwardPolicy {
                base_backoff_ms: settled(
                    either(self.forwarder.base_backoff_ms, self.base_backoff_ms),
                    1_000,
                ),
                max_backoff_ms: settled(
                    either(self.forwarder.max_backoff_ms, self.max_backoff_ms),
                    300_000,
                ),
                max_jitter_ms: settled(
                    either(self.forwarder.max_jitter_ms, self.max_jitter_ms),
                    2_000,
                ),
                batch_size: settled(self.forwarder.batch_size, 1_000),
                poll_interval_ms: settled(self.forwarder.poll_interval_ms, 100),
                request_timeout_seconds: settled(self.forwarder.request_timeout_seconds, 30),
                failure_threshold: settled(
                    self.forwarder.max_consecutive_failures_before_error,
                    10,
                ),
            }),
    {
        let merged = ForwarderConfig {
            base_backoff_ms: choose_value(self.forwarder.base_backoff_ms, self.base_backoff_ms),
            max_backoff_ms: choose_value(self.forwarder.max_backoff_ms, self.max_backoff_ms),
            max_jitter_ms: choose_value(self.forwarder.max_jitter_ms, self.max_jitter_ms),
            batch_size: self.forwarder.batch_size,
            poll_interval_ms: self.forwarder.poll_interval_ms,
            request_timeout_seconds: self.forwarder.request_timeout_seconds,
            max_consecutive_failures_before_error:
                self.forwarder.max_consecutive_failures_before_error,
        };
        merged.policy()
    }
}

impl BufferConfig {
    /// The values in force. By default records are kept for 72 hours, in up to
    /// four gibibytes, and retention is enforced every minute.
    pub fn policy(&self) -> (p: RetentionPolicy)
        ensures
            p == (RetentionPolicy {
                max_disk_bytes: settled(self.max_disk_bytes, 4_294_967_296),
                max_age_seconds: settled(self.max_age_seconds, 259_200),
                check_interval_seconds: settled(self.retention_check_interval_seconds, 60),
            }),
    {
        RetentionPolicy {
            max_disk_bytes: settle(self.max_disk_bytes, 4_294_967_296),
            max_age_seconds: settle(self.max_age_seconds, 259_200),
            check_interval_seconds: settle(self.retention_check_interval_seconds, 60),
        }
    }
}

/// What is given is in force, and the default exactly where nothing is given.
pub proof fn law_given_values_are_in_force(v: u64, w: u64, default: u64)
    ensures
        settled(Some(v), default) == v,
        settled(None::<u64>, default) == default,
        either(Some(v), Some(w)) == Some(v),
        either(Some(v), None) == Some(v),
        either(None, Some(w)) == Some(w),
        either(None::<u64>, None) is None,
{
}

/// The same holds of the size of a batch.
pub proof fn law_given_batch_size_is_in_force(n: usize, default: usize)
    ensures
        settled(Some(n), default) == n,
        settled(None::<usize>, default) == default,
{
}

} // verus!
