use himalaya::account::{client_account, resolve_downloads_dir, Account};
use himalaya::backend::{select_client_backend, Backend, BackendArg, BackendError};
use himalaya::config::{AccountConfig, Config, ConfiguredBackends, ImapConfig, SaslConfig};
use himalaya::envelopes::{senders, EnvelopeRow, EnvelopeSender, EnvelopesListCommand, EnvelopesTable};
use himalaya::flags::{imap_flag, FlagRemoveCommand, FlagsAddCommand, ImapFlagName};
use himalaya::mailboxes::{MailboxRow, MailboxesListCommand, MailboxesTable};
use himalaya::messages::{MessagesGetCommand, MessagesSendCommand};
use himalaya::table::TableArrangement;

fn empty_config() -> Config {
    Config { downloads_dir: None, table_preset: None, table_arrangement: None, datetime_fmt: None, datetime_local_tz: None }
}

fn empty_account() -> AccountConfig {
    AccountConfig {
        default: false,
        downloads_dir: None,
        table_preset: None,
        table_arrangement: None,
        datetime_fmt: None,
        datetime_local_tz: None,
        imap: None,
        jmap: None,
        maildir: None,
        smtp: None,
    }
}

fn backends(imap: bool, jmap: bool, maildir: bool, smtp: bool) -> ConfiguredBackends {
    ConfiguredBackends { imap, jmap, maildir, smtp }
}

#[test]
fn account_settings_precedence() {
    let mut config = empty_config();
    config.table_preset = Some("global".into());
    config.datetime_local_tz = Some(true);
    config.downloads_dir = Some("/global/dl".into());
    let mut account = empty_account();
    account.table_preset = Some("account".into());
    account.table_arrangement = Some(TableArrangement::Disabled);
    account.datetime_fmt = Some("%Y".into());
    account.downloads_dir = Some("/account/dl".into());
    let a = Account::new(&config, &account, 7u8, "/tmp".into());
    assert_eq!(a.backend, 7);
    assert_eq!(a.table_preset, "global");
    assert_eq!(a.table_arrangement, TableArrangement::Disabled);
    assert_eq!(a.datetime_fmt, "%Y");
    assert!(a.datetime_local_tz);
    assert_eq!(a.downloads_dir, "/account/dl");

    account.downloads_dir = None;
    let a = Account::new(&config, &account, (), "/tmp".into());
    assert_eq!(a.downloads_dir, "/global/dl");
}

#[test]
fn downloads_dir_is_expanded() {
    let mut config = empty_config();
    config.downloads_dir = Some("/global/dl".into());
    let mut account = empty_account();
    account.downloads_dir = Some("$PATH/dl".into());
    let a = Account::new(&config, &account, (), "/tmp".into());
    assert_ne!(a.downloads_dir, "$PATH/dl");
    assert!(!a.downloads_dir.contains('$'));
}

#[test]
fn account_defaults() {
    let a = Account::new(&empty_config(), &empty_account(), (), "/tmp".into());
    assert_eq!(a.table_preset, comfy_table::presets::UTF8_FULL_CONDENSED);
    assert_eq!(a.table_arrangement, TableArrangement::Dynamic);
    assert_eq!(a.datetime_fmt, "%F %R%:z");
    assert!(!a.datetime_local_tz);
    assert!(!a.downloads_dir.is_empty());
}

#[test]
fn client_backend_order() {
    let all = backends(true, true, true, true);
    assert_eq!(select_client_backend(BackendArg::Auto, all), Ok(Backend::Imap));
    assert_eq!(select_client_backend(BackendArg::Jmap, all), Ok(Backend::Jmap));
    assert_eq!(select_client_backend(BackendArg::Maildir, all), Ok(Backend::Maildir));
    assert_eq!(select_client_backend(BackendArg::Auto, backends(false, false, true, true)), Ok(Backend::Maildir));
    let err = select_client_backend(BackendArg::Imap, backends(false, true, true, true)).unwrap_err();
    assert_eq!(err, BackendError::NoMatchingBackend(BackendArg::Imap));
    assert_eq!(err.message(), "no backend matching `imap` is configured for this account");
    let remove = FlagRemoveCommand { mailbox_id: "INBOX".into(), message_ids: vec![], flags: vec![] };
    assert_eq!(remove.backend(BackendArg::Auto, backends(false, true, false, false)), Ok(Backend::Jmap));
}

#[test]
fn command_backend_orders() {
    let all = backends(true, true, true, true);
    assert_eq!(MailboxesListCommand.backend(all), Ok(Backend::Jmap));
    assert_eq!(MailboxesListCommand.backend(backends(true, false, true, false)), Ok(Backend::Imap));
    assert_eq!(MailboxesListCommand.backend(backends(false, false, false, true)), Err(BackendError::NoReadBackend));

    let env = EnvelopesListCommand { mailbox: None };
    assert_eq!(env.backend(backends(true, false, true, false)), Ok(Backend::Maildir));
    assert_eq!(env.backend(backends(true, false, false, false)), Err(BackendError::ImapEnvelopeListing));
    assert_eq!(env.backend(backends(false, false, false, false)), Err(BackendError::NoEnvelopeBackend));

    let get = MessagesGetCommand { id: "1".into(), mailbox: "INBOX".into(), sequence: false };
    assert_eq!(get.backend(all), Ok(Backend::Imap));
    assert_eq!(get.backend(backends(false, true, false, false)), Err(BackendError::JmapMessageGet));
    assert_eq!(get.backend(backends(false, false, false, false)), Err(BackendError::NoMessageBackend));
    assert!(get.uid());

    let send = MessagesSendCommand { message: vec![] };
    assert_eq!(send.backend(all), Ok(Backend::Smtp));
    assert_eq!(send.backend(backends(true, true, true, false)), Err(BackendError::NoSmtpBackend));

    let add = FlagsAddCommand { ids: vec![], flags: vec![], mailbox: "INBOX".into(), sequence: true };
    assert_eq!(add.backend(backends(true, false, true, false)), Ok(Backend::Imap));
    assert!(!add.uid());
}

#[test]
fn backend_error_texts() {
    assert_eq!(BackendError::NoReadBackend.message(), "no compatible backend (jmap, imap, maildir) configured for this account");
    assert_eq!(BackendError::NoEnvelopeBackend.message(), "no compatible backend (jmap, maildir) configured for this account");
    assert_eq!(BackendError::NoMessageBackend.message(), "no compatible backend (imap, maildir) configured for this account");
    assert_eq!(BackendError::NoSmtpBackend.message(), "no SMTP backend configured for this account");
    assert_eq!(
        BackendError::ImapEnvelopeListing.message(),
        "IMAP envelope listing is not exposed via the cross-protocol command; use `himalaya imap envelope list` instead"
    );
    assert_eq!(
        BackendError::JmapMessageGet.message(),
        "JMAP message get is not exposed via the cross-protocol command; use `himalaya jmap email get` instead"
    );
    assert_eq!(BackendError::NoMatchingBackend(BackendArg::Auto).message(), "no backend matching `auto` is configured for this account");
}

#[test]
fn configured_backends_of_an_account() {
    let mut account = empty_account();
    assert_eq!(account.backends(), backends(false, false, false, false));
    account.imap = Some(ImapConfig {
        url: "imaps://h:993".into(),
        starttls: false,
        sasl: SaslConfig { mechanism: None, plain: None },
    });
    assert_eq!(account.backends(), backends(true, false, false, false));
}

#[test]
fn flags_requests() {
    let add = FlagsAddCommand {
        ids: vec!["3".into(), "5".into()],
        flags: vec!["seen".into(), "flagged".into()],
        mailbox: "Archive".into(),
        sequence: false,
    };
    assert_eq!(add.sequence_set(), "3,5");
    let pairs: Vec<(String, String)> = add.keyword_updates();
    assert_eq!(
        pairs,
        vec![
            ("3".to_string(), "seen".to_string()),
            ("3".to_string(), "flagged".to_string()),
            ("5".to_string(), "seen".to_string()),
            ("5".to_string(), "flagged".to_string()),
        ]
    );
    assert_eq!(add.maildir_path(&"/mail".to_string()), "/mail/Archive");
    assert_eq!(add.maildir_path(&"/mail/".to_string()), "/mail/Archive");
}

#[test]
fn maildir_paths() {
    let env = EnvelopesListCommand { mailbox: Some("Sent".into()) };
    assert_eq!(env.maildir_path(&"/mail".to_string()), "/mail/Sent");
    let env = EnvelopesListCommand { mailbox: Some("/abs/box".into()) };
    assert_eq!(env.maildir_path(&"/mail".to_string()), "/abs/box");
    let env = EnvelopesListCommand { mailbox: None };
    assert_eq!(env.maildir_path(&"/mail".to_string()), "/mail");
    let get = MessagesGetCommand { id: "1".into(), mailbox: "INBOX".into(), sequence: true };
    assert_eq!(get.maildir_path(&"".to_string()), "INBOX");
}

#[test]
fn client_account_takes_the_chosen_backend_and_the_settings() {
    let mut config = empty_config();
    config.table_preset = Some("global".into());
    let mut account = empty_account();
    account.downloads_dir = Some("/account/dl".into());
    account.imap = Some(ImapConfig { url: "imaps://x:993".into(), starttls: false, sasl: SaslConfig { mechanism: None, plain: None } });
    let settings = Account::new(&config, &account, (), "/tmp".into());
    let a = client_account(settings, &account, BackendArg::Auto).unwrap();
    assert_eq!(a.backend, Backend::Imap);
    assert_eq!(a.table_preset, "global");
    assert_eq!(a.downloads_dir, "/account/dl");
    let settings = Account::new(&config, &account, (), "/tmp".into());
    let err = client_account(settings, &account, BackendArg::Jmap).unwrap_err();
    assert_eq!(err, BackendError::NoMatchingBackend(BackendArg::Jmap));
}

#[test]
fn downloads_dir_from_found_directories() {
    let s = |v: &str| Some(v.to_string());
    assert_eq!(resolve_downloads_dir(s("/a"), s("/g"), s("/p"), "/t".into()), "/a");
    assert_eq!(resolve_downloads_dir(None, s("/g"), s("/p"), "/t".into()), "/g");
    assert_eq!(resolve_downloads_dir(None, None, s("/p"), "/t".into()), "/p");
    assert_eq!(resolve_downloads_dir(None, None, None, "/t".into()), "/t");
    let mut account = empty_account();
    account.downloads_dir = Some("~/dl".into());
    let a = Account::from_dirs(&empty_config(), &account, (), s("/home/me/dl"), None, None, "/t".into());
    assert_eq!(a.downloads_dir, "/home/me/dl");
    assert_eq!(a.table_arrangement, TableArrangement::Dynamic);
}

#[test]
fn imap_flags_of_a_request() {
    assert!(matches!(imap_flag(&"\\Seen".to_string()), ImapFlagName::System(ref n) if n == "Seen"));
    assert!(matches!(imap_flag(&"$Junk".to_string()), ImapFlagName::Keyword(ref n) if n == "$Junk"));
    let cmd = FlagsAddCommand { ids: vec!["1".into()], flags: vec!["\\Flagged".into(), "todo".into()], mailbox: "INBOX".into(), sequence: false };
    let flags = cmd.imap_flags();
    assert_eq!(flags.len(), 2);
    assert!(matches!(flags[0], ImapFlagName::System(ref n) if n == "Flagged"));
    assert!(matches!(flags[1], ImapFlagName::Keyword(ref n) if n == "todo"));
}

#[test]
fn mailbox_and_envelope_tables() {
    let preset = comfy_table::presets::UTF8_FULL_CONDENSED.to_string();
    let mailboxes = MailboxesTable {
        preset: preset.clone(),
        arrangement: TableArrangement::Disabled,
        mailboxes: vec![MailboxRow { id: "1".into(), name: "INBOX".into() }, MailboxRow { id: "2".into(), name: "Sent".into() }],
    };
    let text = mailboxes.render();
    assert!(text.starts_with('\n') && text.ends_with('\n'));
    assert!(text.contains("NAME") && text.find("INBOX").unwrap() < text.find("Sent").unwrap());
    let from = vec![
        EnvelopeSender { name: Some("Alice".into()), email: "a@x".into() },
        EnvelopeSender { name: None, email: "b@x".into() },
    ];
    assert_eq!(senders(&from), "Alice, b@x");
    let envelopes = EnvelopesTable {
        preset,
        arrangement: TableArrangement::Disabled,
        envelopes: vec![EnvelopeRow { id: "7".into(), subject: "Hi".into(), from, date: None }],
    };
    let text = envelopes.render();
    assert!(text.contains("SUBJECT") && text.contains("Alice, b@x") && text.contains("Hi"));
}
