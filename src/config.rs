//! The process configuration that the core consumes.

use vstd::prelude::*;

verus! {

/// The port that the server listens on where the configuration names none.
pub const DEFAULT_PORT: u16 = 8080;

/// The whole configuration of the process.
pub struct AppConfig {
    pub server: ServerConfig,
    pub smtp: SmtpConfig,
    /// Where notifications of new submissions are sent.
    pub treasurer_email: String,
}

/// Where the HTTP server listens.
pub struct ServerConfig {
    pub port: u16,
    pub domain: String,
}

/// The mail relay and the sender that outgoing mail names.
pub struct SmtpConfig {
    pub from_email: String,
    pub from_name: String,
    pub smtp_relay: String,
}

/// The port used where the configuration leaves it out.
pub fn default_port() -> (r: u16)
    ensures
        r == DEFAULT_PORT,
{
    DEFAULT_PORT
}

impl Default for ServerConfig {
    fn default() -> (r: Self)
        ensures
            r.port == DEFAULT_PORT,
            r.domain@.len() == 0,
    {
        ServerConfig { port: default_port(), domain: String::new() }
    }
}

impl Default for SmtpConfig {
    fn default() -> (r: Self)
        ensures
            r.from_email@.len() == 0,
            r.from_name@.len() == 0,
            r.smtp_relay@.len() == 0,
    {
        SmtpConfig { from_email: String::new(), from_name: String::new(), smtp_relay: String::new() }
    }
}

impl Default for AppConfig {
    fn default() -> (r: Self)
        ensures
            r.server.port == DEFAULT_PORT,
            r.server.domain@.len() == 0,
            r.smtp.from_email@.len() == 0,
            r.smtp.from_name@.len() == 0,
            r.smtp.smtp_relay@.len() == 0,
            r.treasurer_email@.len() == 0,
    {
        AppConfig { server: ServerConfig::default(), smtp: SmtpConfig::default(), treasurer_email: String::new() }
    }
}

} // verus!
