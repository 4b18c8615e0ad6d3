//! The configuration the commands read: global settings, account
//! settings and the account's backends.
use vstd::prelude::*;
use crate::table::TableArrangement;

verus! {

/// Where a password comes from.
#[derive(Debug)]
pub enum Secret {
    /// Stored in the configuration.
    Raw(String),
    /// Printed by this shell command.
    Command(String),
}

/// SASL mechanisms.
#[derive(Clone, Copy, Debug, PartialEq, Eq, Structural)]
pub enum SaslMechanism {
    Plain,
}

/// SASL `PLAIN` credentials.
#[derive(Debug)]
pub struct SaslPlainConfig {
    pub authzid: Option<String>,
    pub authcid: String,
    pub passwd: Secret,
}

/// SASL authentication of an IMAP or SMTP account.
#[derive(Debug)]
pub struct SaslConfig {
    pub mechanism: Option<SaslMechanism>,
    pub plain: Option<SaslPlainConfig>,
}

/// An IMAP backend.
#[derive(Debug)]
pub struct ImapConfig {
    /// `imaps://host:port` or `imap://host:port`, as `url` serializes it.
    pub url: String,
    /// Whether the plain connection is upgraded with STARTTLS.
    pub starttls: bool,
    pub sasl: SaslConfig,
}

/// An SMTP backend.
#[derive(Debug)]
pub struct SmtpConfig {
    /// `smtps://host:port` or `smtp://host:port`, as `url` serializes it.
    pub url: String,
    /// Whether the plain connection is upgraded with STARTTLS.
    pub starttls: bool,
    pub sasl: SaslConfig,
}

/// A JMAP backend.
#[derive(Debug)]
pub struct JmapConfig {
    /// The JMAP server.
    pub server: String,
    /// The value of the HTTP `Authorization` header.
    pub auth: Secret,
}

/// A Maildir backend.
#[derive(Debug)]
pub struct MaildirConfig {
    /// The directory holding the mailboxes.
    pub root: String,
}

/// Settings of the whole configuration file.
#[derive(Debug)]
pub struct Config {
    /// Directory attachments are downloaded to.
    pub downloads_dir: Option<String>,
    /// Border preset of the tables.
    pub table_preset: Option<String>,
    /// How tables adapt to the terminal.
    pub table_arrangement: Option<TableArrangement>,
    /// Format of the dates of the envelope listing.
    pub datetime_fmt: Option<String>,
    /// Whether the dates of the envelope listing are shown in local time.
    pub datetime_local_tz: Option<bool>,
}

/// Settings and backends of one account.
#[derive(Debug)]
pub struct AccountConfig {
    /// Whether this is the account used when none is named.
    pub default: bool,
    pub downloads_dir: Option<String>,
    pub table_preset: Option<String>,
    pub table_arrangement: Option<TableArrangement>,
    pub datetime_fmt: Option<String>,
    pub datetime_local_tz: Option<bool>,
    pub imap: Option<ImapConfig>,
    pub jmap: Option<JmapConfig>,
    pub maildir: Option<MaildirConfig>,
    pub smtp: Option<SmtpConfig>,
}

/// Which backends an account configures.
#[derive(Clone, Copy, Debug, PartialEq, Eq, Structural)]
pub struct ConfiguredBackends {
    pub imap: bool,
    pub jmap: bool,
    pub maildir: bool,
    pub smtp: bool,
}

/// Which backends an account configures.
pub open spec fn configured_backends(a: AccountConfig) -> ConfiguredBackends {
    ConfiguredBackends {
        imap: a.imap is Some,
        jmap: a.jmap is Some,
        maildir: a.maildir is Some,
        smtp: a.smtp is Some,
    }
}

impl AccountConfig {
    /// Which backends the account configures.
    pub fn backends(&self) -> (r: ConfiguredBackends)
        ensures
            r == configured_backends(*self),
    {
        ConfiguredBackends {
            imap: self.imap.is_some(),
            jmap: self.jmap.is_some(),
            maildir: self.maildir.is_some(),
            smtp: self.smtp.is_some(),
        }
    }
}

} // verus!
