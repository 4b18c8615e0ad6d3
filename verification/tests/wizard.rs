use himalaya::config::Secret;
use himalaya::wizard::{
    autoconfig_defaults, autoconfig_imap, autoconfig_smtp, build_sasl, discovery_defaults,
    imap_to_config, pacc_defaults, parse_cmd, smtp_to_config, split_email, wizard_account,
    Autoconfig, DiscoveredServer, Encryption, PaccConfig, SecurityType, ServerKind, WizardError,
    WizardSecret, WizardServerConfig,
};

fn server(kind: ServerKind, host: Option<&str>, port: Option<u16>, socket: Option<SecurityType>) -> DiscoveredServer {
    DiscoveredServer { kind, hostname: host.map(|h| h.to_string()), port, socket_type: socket }
}

fn summary(w: &Option<WizardServerConfig>) -> Option<(String, u16, Encryption)> {
    w.as_ref().map(|w| (w.host.clone(), w.port, w.encryption))
}

#[test]
fn autoconfig_default_ports() {
    let imap = |s| summary(&autoconfig_imap(&server(ServerKind::Imap, Some("imap.x"), None, s)));
    assert_eq!(imap(Some(SecurityType::Tls)), Some(("imap.x".into(), 993, Encryption::Tls)));
    assert_eq!(imap(Some(SecurityType::Starttls)), Some(("imap.x".into(), 143, Encryption::StartTls)));
    assert_eq!(imap(None), Some(("imap.x".into(), 143, Encryption::Plain)));
    let smtp = |s| summary(&autoconfig_smtp(&server(ServerKind::Smtp, Some("smtp.x"), None, s)));
    assert_eq!(smtp(Some(SecurityType::Tls)), Some(("smtp.x".into(), 465, Encryption::Tls)));
    assert_eq!(smtp(Some(SecurityType::Starttls)), Some(("smtp.x".into(), 587, Encryption::StartTls)));
    assert_eq!(smtp(Some(SecurityType::Plain)), Some(("smtp.x".into(), 25, Encryption::Plain)));
    assert_eq!(summary(&autoconfig_imap(&server(ServerKind::Imap, Some("h"), Some(1143), None))), Some(("h".into(), 1143, Encryption::Plain)));
    assert_eq!(summary(&autoconfig_imap(&server(ServerKind::Imap, None, Some(993), None))), None);
    let w = autoconfig_imap(&server(ServerKind::Imap, Some("h"), None, None)).unwrap();
    assert_eq!(w.login, "");
    assert!(matches!(w.secret, WizardSecret::Raw(ref s) if s.is_empty()));
}

fn autoconfig() -> Autoconfig {
    Autoconfig {
        incoming: vec![
            server(ServerKind::Pop3, Some("pop.x"), Some(995), Some(SecurityType::Tls)),
            server(ServerKind::Imap, Some("imap.x"), None, Some(SecurityType::Tls)),
            server(ServerKind::Imap, Some("imap2.x"), None, None),
        ],
        outgoing: vec![server(ServerKind::Smtp, Some("smtp.x"), None, Some(SecurityType::Starttls))],
    }
}

#[test]
fn autoconfig_takes_first_server_of_each_protocol() {
    let (imap, smtp) = autoconfig_defaults(&autoconfig());
    assert_eq!(summary(&imap), Some(("imap.x".into(), 993, Encryption::Tls)));
    assert_eq!(summary(&smtp), Some(("smtp.x".into(), 587, Encryption::StartTls)));
    let (imap, smtp) = autoconfig_defaults(&Autoconfig { incoming: vec![], outgoing: vec![] });
    assert!(imap.is_none() && smtp.is_none());
}

#[test]
fn pacc_proposals_use_tls() {
    let (imap, smtp) = pacc_defaults(&PaccConfig { imap_host: Some("i.p".into()), smtp_host: None });
    assert_eq!(summary(&imap), Some(("i.p".into(), 993, Encryption::Tls)));
    assert!(smtp.is_none());
    let (_, smtp) = pacc_defaults(&PaccConfig { imap_host: None, smtp_host: Some("s.p".into()) });
    assert_eq!(summary(&smtp), Some(("s.p".into(), 465, Encryption::Tls)));
}

#[test]
fn pacc_takes_precedence_over_autoconfig() {
    let pacc = Some(PaccConfig { imap_host: Some("i.p".into()), smtp_host: None });
    let (imap, smtp) = discovery_defaults(&pacc, &Some(autoconfig()));
    assert_eq!(summary(&imap), Some(("i.p".into(), 993, Encryption::Tls)));
    assert_eq!(summary(&smtp), Some(("smtp.x".into(), 587, Encryption::StartTls)));
    let (imap, smtp) = discovery_defaults(&None, &None);
    assert!(imap.is_none() && smtp.is_none());
}

#[test]
fn email_split() {
    let (l, d) = split_email("alice@example.com").unwrap();
    assert_eq!((l.as_str(), d.as_str()), ("alice", "example.com"));
    let (l, d) = split_email("a@b@c").unwrap();
    assert_eq!((l.as_str(), d.as_str()), ("a", "b@c"));
    let err = split_email("alice").unwrap_err();
    assert_eq!(err.message(), "Invalid email address `alice`: missing `@`");
}

#[test]
fn secret_commands() {
    assert_eq!(parse_cmd(" pass show mail ").unwrap(), " pass show mail ");
    let err = parse_cmd("  \t").unwrap_err();
    assert!(matches!(err, WizardError::EmptyCommand));
    assert_eq!(err.message(), "Empty shell command for secret");
    assert!(build_sasl("me", WizardSecret::Command(" ".into())).is_err());
    let sasl = build_sasl("me", WizardSecret::Raw("pw".into())).unwrap();
    let plain = sasl.plain.unwrap();
    assert_eq!(plain.authcid, "me");
    assert!(plain.authzid.is_none());
    assert!(matches!(plain.passwd, Secret::Raw(ref p) if p == "pw"));
}

fn answers(host: &str, port: u16, encryption: Encryption, secret: WizardSecret) -> WizardServerConfig {
    WizardServerConfig { host: host.into(), port, encryption, login: "me@x".into(), secret }
}

#[test]
fn backend_configs_from_answers() {
    let imap = imap_to_config(answers("imap.x", 993, Encryption::Tls, WizardSecret::Raw("pw".into()))).unwrap();
    assert_eq!(imap.url, "imaps://imap.x:993");
    assert!(!imap.starttls);
    let imap = imap_to_config(answers("imap.x", 143, Encryption::StartTls, WizardSecret::Command("pass mail".into()))).unwrap();
    assert_eq!(imap.url, "imap://imap.x:143");
    assert!(imap.starttls);
    assert!(matches!(imap.sasl.plain.unwrap().passwd, Secret::Command(ref c) if c == "pass mail"));
    let smtp = smtp_to_config(answers("smtp.x", 465, Encryption::Tls, WizardSecret::Raw("pw".into()))).unwrap();
    assert_eq!(smtp.url, "smtps://smtp.x:465");
    let smtp = smtp_to_config(answers("smtp.x", 25, Encryption::Plain, WizardSecret::Raw("pw".into()))).unwrap();
    assert_eq!(smtp.url, "smtp://smtp.x:25");
    assert!(!smtp.starttls);
    let bad = imap_to_config(answers("bad host", 993, Encryption::Tls, WizardSecret::Raw("pw".into())));
    assert!(matches!(bad, Err(WizardError::InvalidUrl(_))));
    let empty = smtp_to_config(answers("smtp.x", 465, Encryption::Tls, WizardSecret::Command("".into())));
    assert!(matches!(empty, Err(WizardError::EmptyCommand)));
}

#[test]
fn wizard_account_is_default_with_two_backends() {
    let imap = imap_to_config(answers("imap.x", 993, Encryption::Tls, WizardSecret::Raw("pw".into()))).unwrap();
    let smtp = smtp_to_config(answers("smtp.x", 465, Encryption::Tls, WizardSecret::Raw("pw".into()))).unwrap();
    let account = wizard_account(imap, smtp);
    assert!(account.default);
    assert!(account.imap.is_some() && account.smtp.is_some());
    assert!(account.jmap.is_none() && account.maildir.is_none());
    assert!(account.downloads_dir.is_none());
}
