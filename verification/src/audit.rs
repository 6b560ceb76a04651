//! The audit trail: which events exist, and what is written for each.
use vstd::prelude::*;

verus! {

/// How grave an audit entry is.
#[derive(Clone, Copy, Debug, PartialEq, Eq, Structural)]
pub enum Level {
    Critical,
    Error,
    Warn,
    Info,
    Debug,
    Trace,
}

/// The part of the relay that an event comes from.
#[derive(Clone, Copy, Debug, PartialEq, Eq, Structural)]
pub enum Category {
    Lifecycle,
    Ingest,
    Buffer,
    Forward,
    Security,
    Config,
}

/// The event catalogue.
#[derive(Clone, Copy, Debug, PartialEq, Eq, Structural)]
pub enum EventKind {
    /// The service has started.
    ServiceStarted,
    /// The service has stopped in good order.
    ServiceStopped,
    /// A stop was requested; the buffer is being drained.
    ServiceDraining,
    /// The service terminated unexpectedly.
    ServiceFailed,
    /// A client connected to the named pipe.
    PipeConnected,
    /// The client of the named pipe went away.
    PipeDisconnected,
    /// Reading the named pipe failed.
    PipeReadFailed,
    /// The named pipe could not be created.
    PipeCreateFailed,
    /// The store was opened.
    StoreOpened,
    /// Retention was enforced.
    RetentionEnforced,
    /// Writing to the store failed.
    StoreWriteFailed,
    /// The store takes more space than it may.
    DiskUsageHigh,
    /// A batch was delivered.
    BatchDelivered,
    /// A batch could not be delivered.
    DeliveryFailed,
    /// Too many deliveries have failed in a row.
    DeliveryFailing,
    /// A batch was rejected for good and set aside.
    BatchDeadLettered,
    /// Deliveries succeed again.
    ForwardingResumed,
    /// The TLS handshake failed.
    TlsHandshakeFailed,
    /// The server's certificate is not the pinned one.
    ServerPinMismatch,
    /// The client certificate cannot be used.
    ClientCertificateMissing,
    /// The client certificate expires soon.
    ClientCertificateExpiring,
    /// The configuration was loaded.
    ConfigLoaded,
    /// The configuration is doubtful.
    ConfigWarning,
}

impl EventKind {
    /// The number under which the event is catalogued.
    pub open spec fn number(self) -> u32 {
        match self {
            EventKind::ServiceStarted => 1000,
            EventKind::ServiceStopped => 1001,
            EventKind::ServiceDraining => 1002,
            EventKind::ServiceFailed => 1003,
            EventKind::PipeConnected => 1010,
            EventKind::PipeDisconnected => 1011,
            EventKind::PipeReadFailed => 1012,
            EventKind::PipeCreateFailed => 1013,
            EventKind::StoreOpened => 1020,
            EventKind::RetentionEnforced => 1021,
            EventKind::StoreWriteFailed => 1022,
            EventKind::DiskUsageHigh => 1023,
            EventKind::BatchDelivered => 1030,
            EventKind::DeliveryFailed => 1031,
            EventKind::DeliveryFailing => 1032,
            EventKind::BatchDeadLettered => 1033,
            EventKind::ForwardingResumed => 1034,
            EventKind::TlsHandshakeFailed => 1040,
            EventKind::ServerPinMismatch => 1041,
            EventKind::ClientCertificateMissing => 1042,
            EventKind::ClientCertificateExpiring => 1043,
            EventKind::ConfigLoaded => 1050,
            EventKind::ConfigWarning => 1051,
        }
    }

    /// How grave the catalogue says the event is.
    pub open spec fn gravity(self) -> Level {
        match self {
            EventKind::ServiceStarted
            | EventKind::ServiceStopped
            | EventKind::PipeConnected
            | EventKind::PipeDisconnected
            | EventKind::StoreOpened
            | EventKind::BatchDelivered
            | EventKind::ForwardingResumed
            | EventKind::ConfigLoaded => Level::Info,
            EventKind::ServiceDraining
            | EventKind::PipeReadFailed
            | EventKind::RetentionEnforced
            | EventKind::DiskUsageHigh
            | EventKind::DeliveryFailed
            | EventKind::ClientCertificateExpiring
            | EventKind::ConfigWarning => Level::Warn,
            EventKind::ServiceFailed
            | EventKind::PipeCreateFailed
            | EventKind::StoreWriteFailed
            | EventKind::DeliveryFailing
            | EventKind::BatchDeadLettered
            | EventKind::TlsHandshakeFailed => Level::Error,
            EventKind::ServerPinMismatch
            | EventKind::ClientCertificateMissing => Level::Critical,
        }
    }

    /// The part of the relay that the catalogue files the event under.
    pub open spec fn part(self) -> Category {
        let n = self.number();
        if n < 1010 {
            Category::Lifecycle
        } else if n < 1020 {
            Category::Ingest
        } else if n < 1030 {
            Category::Buffer
        } else if n < 1040 {
            Category::Forward
        } else if n < 1050 {
            Category::Security
        } else {
            Category::Config
        }
    }

    /// The number under which the event is catalogued.
    pub fn id(self) -> (r: u32)
        ensures
            r == self.number(),
    {
        match self {
            EventKind::ServiceStarted => 1000,
            EventKind::ServiceStopped => 1001,
            EventKind::ServiceDraining => 1002,
            EventKind::ServiceFailed => 1003,
            EventKind::PipeConnected => 1010,
            EventKind::PipeDisconnected => 1011,
            EventKind::PipeReadFailed => 1012,
            EventKind::PipeCreateFailed => 1013,
            EventKind::StoreOpened => 1020,
            EventKind::RetentionEnforced => 1021,
            EventKind::StoreWriteFailed => 1022,
            EventKind::DiskUsageHigh => 1023,
            EventKind::BatchDelivered => 1030,
            EventKind::DeliveryFailed => 1031,
            EventKind::DeliveryFailing => 1032,
            EventKind::BatchDeadLettered => 1033,
            EventKind::ForwardingResumed => 1034,
            EventKind::TlsHandshakeFailed => 1040,
            EventKind::ServerPinMismatch => 1041,
            EventKind::ClientCertificateMissing => 1042,
            EventKind::ClientCertificateExpiring => 1043,
            EventKind::ConfigLoaded => 1050,
            EventKind::ConfigWarning => 1051,
        }
    }

    /// How grave the catalogue says the event is.
    pub fn level(self) -> (r: Level)
        ensures
            r == self.gravity(),
    {
        match self {
            EventKind::ServiceStarted
            | EventKind::ServiceStopped
            | EventKind::PipeConnected
            | EventKind::PipeDisconnected
            | EventKind::StoreOpened
            | EventKind::BatchDelivered
            | EventKind::ForwardingResumed
            | EventKind::ConfigLoaded => Level::Info,
            EventKind::ServiceDraining
            | EventKind::PipeReadFailed
            | EventKind::RetentionEnforced
            | EventKind::DiskUsageHigh
            | EventKind::DeliveryFailed
            | EventKind::ClientCertificateExpiring
            | EventKind::ConfigWarning => Level::Warn,
            EventKind::ServiceFailed
            | EventKind::PipeCreateFailed
            | EventKind::StoreWriteFailed
            | EventKind::DeliveryFailing
            | EventKind::BatchDeadLettered
            | EventKind::TlsHandshakeFailed => Level::Error,
            EventKind::ServerPinMismatch
            | EventKind::ClientCertificateMissing => Level::Critical,
        }
    }

    /// The part of the relay that the catalogue files the event under.
    pub fn category(self) -> (r: Category)
        ensures
            r == self.part(),
    {
        match self {
            EventKind::ServiceStarted
            | EventKind::ServiceStopped
            | EventKind::ServiceDraining
            | EventKind::ServiceFailed => Category::Lifecycle,
            EventKind::PipeConnected
            | EventKind::PipeDisconnected
            | EventKind::PipeReadFailed
            | EventKind::PipeCreateFailed => Category::Ingest,
            EventKind::StoreOpened
            | EventKind::RetentionEnforced
            | EventKind::StoreWriteFailed
            | EventKind::DiskUsageHigh => Category::Buffer,
            EventKind::BatchDelivered
            | EventKind::DeliveryFailed
            | EventKind::DeliveryFailing
            | EventKind::BatchDeadLettered
            | EventKind::ForwardingResumed => Category::Forward,
            EventKind::TlsHandshakeFailed
            | EventKind::ServerPinMismatch
            | EventKind::ClientCertificateMissing
            | EventKind::ClientCertificateExpiring => Category::Security,
            EventKind::ConfigLoaded | EventKind::ConfigWarning => Category::Config,
        }
    }
}

/// Every catalogued event has a number of its own, from 1000 to 1999.
pub proof fn law_event_numbers(a: EventKind, b: EventKind)
    ensures
        1000 <= a.number() <= 1999,
        a.number() == b.number() ==> a == b,
{
}

/// Something that the audit trail is to hold.
#[derive(Debug)]
pub struct Notice {
    pub kind: EventKind,
    pub message: String,
}

/// What a [`Notice`] says.
pub struct NoticeView {
    pub kind: EventKind,
    pub message: Seq<char>,
}

impl View for Notice {
    type V = NoticeView;

    open spec fn view(&self) -> NoticeView {
        NoticeView { kind: self.kind, message: self.message@ }
    }
}

/// What a list of notices says.
pub open spec fn notice_views(notices: Seq<Notice>) -> Seq<NoticeView> {
    notices.map_values(|n: Notice| n@)
}

/// Builds a notice.
pub fn notice(kind: EventKind, message: String) -> (n: Notice)
    ensures
        n@ == (NoticeView { kind, message: message@ }),
{
    Notice { kind, message }
}

/// An entry for the event log, as it is to be reported.
#[derive(Debug)]
pub struct AuditEvent {
    /// The event source that reports.
    pub source: String,
    /// The log that the entry belongs to.
    pub log_name: String,
    pub level: Level,
    pub event_id: u32,
    pub message: String,
}

/// What an [`AuditEvent`] says.
pub struct AuditEventView {
    pub source: Seq<char>,
    pub log_name: Seq<char>,
    pub level: Level,
    pub event_id: u32,
    pub message: Seq<char>,
}

impl View for AuditEvent {
    type V = AuditEventView;

    open spec fn view(&self) -> AuditEventView {
        AuditEventView {
            source: self.source@,
            log_name: self.log_name@,
            level: self.level,
            event_id: self.event_id,
            message: self.message@,
        }
    }
}

/// Prepares the entries that one event source writes to one event log.
#[derive(Debug)]
pub struct AuditGuard {
    source: String,
    log_name: String,
}

impl AuditGuard {
    /// The event source.
    pub closed spec fn source(&self) -> Seq<char> {
        self.source@
    }

    /// The event log.
    pub closed spec fn log_name(&self) -> Seq<char> {
        self.log_name@
    }

    /// A guard for `source` on `log_name`, or on the log `Application`.
    pub fn new(source: &str, log_name: Option<&str>) -> (guard: AuditGuard)
        ensures
            guard.source() == source@,
            guard.log_name() == match log_name {
                Some(name) => name@,
                None => "Application"@,
            },
    {
        let log = match log_name {
            Some(name) => name,
            None => "Application",
        };
        AuditGuard { source: source.to_owned(), log_name: log.to_owned() }
    }

    /// The entry that reports `message` as event `event_id`.
    pub fn log(&self, level: Level, event_id: u32, message: &str) -> (event: AuditEvent)
        ensures
            event@ == (AuditEventView {
                source: self.source(),
                log_name: self.log_name(),
                level,
                event_id,
                message: message@,
            }),
    {
        AuditEvent {
            source: self.source.clone(),
            log_name: self.log_name.clone(),
            level,
            event_id,
            message: message.to_owned(),
        }
    }

    /// The entry that reports `message` under a category and a severity, as
    /// `[category][severity] message`.
    pub fn log_structured(
        &self,
        level: Level,
        event_id: u32,
        category: &str,
        severity: &str,
        message: &str,
    ) -> (event: AuditEvent)
        ensures
            event@ == (AuditEventView {
                source: self.source(),
                log_name: self.log_name(),
                level,
                event_id,
                message: "["@ + category@ + "]["@ + severity@ + "] "@ + message@,
            }),
    {
        let mut text = "[".to_owned();
        text.append(category);
        text.append("][");
        text.append(severity);
        text.append("] ");
        text.append(message);
        self.log(level, event_id, text.as_str())
    }

    /// The entry that reports a notice, at the level and number of its catalogue entry.
    pub fn log_notice(&self, notice: &Notice) -> (event: AuditEvent)
        ensures
            event@ == (AuditEventView {
                source: self.source(),
                log_name: self.log_name(),
                level: notice.kind.gravity(),
                event_id: notice.kind.number(),
                message: notice.message@,
            }),
    {
        self.log(notice.kind.level(), notice.kind.id(), notice.message.as_str())
    }
}

/// A view of notices shows each of them, whole and in order.
pub proof fn law_notice_views_show_all(notices: Seq<Notice>, i: int)
    requires
        0 <= i < notices.len(),
    ensures
        notice_views(notices).len() == notices.len(),
        notice_views(notices)[i].kind == notices[i].kind,
        notice_views(notices)[i].message == notices[i].message@,
{
}

/// The view of an entry shows every field.
pub proof fn law_audit_view_shows_all(event: AuditEvent)
    ensures
        event@.source == event.source@,
        event@.log_name == event.log_name@,
        event@.level == event.level,
        event@.event_id == event.event_id,
        event@.message == event.message@,
{
}

} // verus!
