//! What a terminal tells the browser, and what it leaves in the audit log.

use vstd::prelude::*;

use crate::text::optional_chars;

verus! {

/// A message to the browser.
#[derive(Debug)]
pub enum TerminalServerEvent {
    Ready { session_id: String },
    Output { data: String },
    Error { code: &'static str, message: String },
    Closed { reason: &'static str, message: String },
}

/// A `TerminalServerEvent`, its strings as characters.
pub enum ServerEventView {
    Ready { session_id: Seq<char> },
    Output { data: Seq<char> },
    Error { code: Seq<char>, message: Seq<char> },
    Closed { reason: Seq<char>, message: Seq<char> },
}

impl View for TerminalServerEvent {
    type V = ServerEventView;

    open spec fn view(&self) -> ServerEventView {
        match self {
            TerminalServerEvent::Ready { session_id } => ServerEventView::Ready {
                session_id: session_id@,
            },
            TerminalServerEvent::Output { data } => ServerEventView::Output { data: data@ },
            TerminalServerEvent::Error { code, message } => ServerEventView::Error {
                code: code@,
                message: message@,
            },
            TerminalServerEvent::Closed { reason, message } => ServerEventView::Closed {
                reason: reason@,
                message: message@,
            },
        }
    }
}

/// How much an audit event matters.
#[derive(Debug, Clone, Copy, PartialEq, Eq, Structural)]
pub enum LogLevel {
    Info,
    Warn,
}

/// An entry of the audit log.
#[derive(Debug)]
pub struct AuditEvent {
    pub level: LogLevel,
    pub action: &'static str,
    pub sandbox_id: String,
    pub session_id: Option<String>,
    pub operator_id: String,
    pub container_id: Option<String>,
    pub reason: Option<&'static str>,
}

/// An `AuditEvent`, its strings as characters.
pub struct AuditView {
    pub level: LogLevel,
    pub action: Seq<char>,
    pub sandbox_id: Seq<char>,
    pub session_id: Option<Seq<char>>,
    pub operator_id: Seq<char>,
    pub container_id: Option<Seq<char>>,
    pub reason: Option<Seq<char>>,
}

impl View for AuditEvent {
    type V = AuditView;

    open spec fn view(&self) -> AuditView {
        AuditView {
            level: self.level,
            action: self.action@,
            sandbox_id: self.sandbox_id@,
            session_id: optional_chars(self.session_id),
            operator_id: self.operator_id@,
            container_id: optional_chars(self.container_id),
            reason: match self.reason {
                Some(r) => Some(r@),
                None => None,
            },
        }
    }
}

/// A field of the log, where it has a value.
pub open spec fn optional_field(name: Seq<char>, value: Option<Seq<char>>) -> Seq<
    (Seq<char>, Seq<char>),
> {
    match value {
        Some(v) => seq![(name, v)],
        None => Seq::empty(),
    }
}

impl AuditView {
    /// The fields that the entry is logged with, in their order.
    pub open spec fn fields(self) -> Seq<(Seq<char>, Seq<char>)> {
        seq![
            ("action"@, self.action),
            ("sandbox_id"@, self.sandbox_id),
            ("operator_id"@, self.operator_id),
        ] + optional_field("container_id"@, self.container_id) + optional_field(
            "session_id"@,
            self.session_id,
        ) + optional_field("reason"@, self.reason)
    }
}

/// Fields as characters.
pub open spec fn field_views(fields: Seq<(&'static str, String)>) -> Seq<(Seq<char>, Seq<char>)> {
    Seq::new(fields.len(), |i: int| (fields[i].0@, fields[i].1@))
}

impl AuditEvent {
    /// The name that entries of the audit log go by.
    pub fn name() -> (name: &'static str)
        ensures
            name@ == "terminal.session"@,
    {
        "terminal.session"
    }

    /// The fields that the entry is logged with, in their order.
    pub fn audit(&self) -> (fields: Vec<(&'static str, String)>)
        ensures
            field_views(fields@) == self@.fields(),
    {
        let mut fields: Vec<(&'static str, String)> = Vec::new();
        fields.push(("action", self.action.to_string()));
        fields.push(("sandbox_id", self.sandbox_id.clone()));
        fields.push(("operator_id", self.operator_id.clone()));
        let ghost first = seq![
            ("action"@, self@.action),
            ("sandbox_id"@, self@.sandbox_id),
            ("operator_id"@, self@.operator_id),
        ];
        assert(field_views(fields@) =~= first);
        if let Some(container_id) = &self.container_id {
            fields.push(("container_id", container_id.clone()));
        }
        let ghost second = first + optional_field("container_id"@, self@.container_id);
        assert(field_views(fields@) =~= second);
        if let Some(session_id) = &self.session_id {
            fields.push(("session_id", session_id.clone()));
        }
        let ghost third = second + optional_field("session_id"@, self@.session_id);
        assert(field_views(fields@) =~= third);
        if let Some(reason) = self.reason {
            fields.push(("reason", reason.to_string()));
        }
        assert(field_views(fields@) =~= third + optional_field("reason"@, self@.reason));
        fields
    }
}

} // verus!
