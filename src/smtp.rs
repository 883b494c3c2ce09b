//! The decisions of one SMTP session: what to greet the relay with, when to
//! upgrade to TLS, and when the session may carry a message. The caller
//! performs each step and reports what happened.

use vstd::prelude::*;
use crate::config::SmtpConfig;
use crate::email::SendError;
use crate::text::{domain_part, get_ehlo_domain};

verus! {

/// The relay port that speaks plain SMTP first and can upgrade to TLS.
pub const SMTP_PORT: u16 = 587;

/// How long opening a session may take, in seconds.
pub const SMTP_CONNECT_TIMEOUT_SECS: u64 = 3;

/// How to open a session.
pub struct SessionPlan {
    pub relay: String,
    pub port: u16,
    pub timeout_secs: u64,
    /// The domain to greet the relay with: the sender address's domain.
    pub client_domain: String,
}

/// What happened at the last step of a session.
#[derive(Clone, Copy, Debug, PartialEq, Eq, Structural)]
pub enum SessionEvent {
    /// The connection opened and the relay answered the greeting.
    Opened { starttls_offered: bool },
    /// The TLS upgrade succeeded.
    Upgraded,
    /// The relay was asked whether the session is usable.
    ReadyChecked { ready: bool },
}

/// What to do next in a session.
#[derive(Clone, Copy, Debug, PartialEq, Eq, Structural)]
pub enum SessionAction {
    UpgradeTls,
    CheckReady,
    SendMessage,
}

/// The plan for a session with the configured relay, or `EmailParse` where
/// the sender's address has no domain to greet with.
pub fn smtp_plan(config: &SmtpConfig) -> (r: Result<SessionPlan, SendError>)
    ensures
        domain_part(config.from_email@) is None <==> r is Err,
        r matches Err(e) ==> e is EmailParse,
        r matches Ok(p) ==> {
            &&& domain_part(config.from_email@) == Some(p.client_domain@)
            &&& p.relay@ == config.smtp_relay@
            &&& p.port == SMTP_PORT
            &&& p.timeout_secs == SMTP_CONNECT_TIMEOUT_SECS
        },
{
    match get_ehlo_domain(config.from_email.as_str()) {
        Some(client_domain) => Ok(SessionPlan {
            relay: config.smtp_relay.clone(),
            port: SMTP_PORT,
            timeout_secs: SMTP_CONNECT_TIMEOUT_SECS,
            client_domain,
        }),
        None => Err(SendError::EmailParse),
    }
}

/// The step after `event`: upgrade when the relay offers it, check that the
/// session is ready, and send only on a ready session; a session that is not
/// ready fails with `Connect`.
pub open spec fn next_step(event: SessionEvent) -> Option<SessionAction> {
    match event {
        SessionEvent::Opened { starttls_offered } => if starttls_offered {
            Some(SessionAction::UpgradeTls)
        } else {
            Some(SessionAction::CheckReady)
        },
        SessionEvent::Upgraded => Some(SessionAction::CheckReady),
        SessionEvent::ReadyChecked { ready } => if ready {
            Some(SessionAction::SendMessage)
        } else {
            None
        },
    }
}

/// Decides the next step of a session from what the last one gave.
pub fn smtp_next(event: SessionEvent) -> (r: Result<SessionAction, SendError>)
    ensures
        next_step(event) matches Some(a) ==> r matches Ok(b) && a == b,
        next_step(event) is None ==> r matches Err(SendError::Connect),
{
    match event {
        SessionEvent::Opened { starttls_offered } => if starttls_offered {
            Ok(SessionAction::UpgradeTls)
        } else {
            Ok(SessionAction::CheckReady)
        },
        SessionEvent::Upgraded => Ok(SessionAction::CheckReady),
        SessionEvent::ReadyChecked { ready } => if ready {
            Ok(SessionAction::SendMessage)
        } else {
            Err(SendError::Connect)
        },
    }
}

/// A message is only ever sent on a session that was checked ready.
pub proof fn lemma_send_only_when_ready(event: SessionEvent)
    requires
        next_step(event) == Some(SessionAction::SendMessage),
    ensures
        event == (SessionEvent::ReadyChecked { ready: true }),
{
}

} // verus!
