//! The decisions of the configuration wizard: defaults from provider
//! discovery, and the configuration built from the answers.
//!
//! Discovery runs PACC and Mozilla Autoconfig; PACC results take
//! precedence and missing ones are filled from Autoconfig. The answers
//! are turned into IMAP and SMTP backend configurations.
use vstd::prelude::*;
use crate::attachments::opt_view;
use crate::config::{
    AccountConfig, ImapConfig, SaslConfig, SaslMechanism, SaslPlainConfig, Secret, SmtpConfig,
};
use crate::text::{
    chars_of, dec, extend_str, owned, push_decimal, split_once, split_once_chars, string_of, trim,
    trim_chars,
};

verus! {

/// Encryption of a connection.
#[derive(Clone, Copy, Debug, PartialEq, Eq, Structural)]
pub enum Encryption {
    /// TLS from the start.
    Tls,
    /// A plain connection upgraded with STARTTLS.
    StartTls,
    /// No encryption.
    Plain,
}

/// Where the wizard's password comes from.
#[derive(Debug)]
pub enum WizardSecret {
    /// Typed in, stored in the configuration.
    Raw(String),
    /// Printed by a shell command.
    Command(String),
}

/// The settings the IMAP or SMTP wizard collects (or proposes).
#[derive(Debug)]
pub struct WizardServerConfig {
    pub host: String,
    pub port: u16,
    pub encryption: Encryption,
    pub login: String,
    /// The password, for password authentication.
    pub secret: WizardSecret,
}

/// The protocol of a server found by Autoconfig.
#[derive(Clone, Copy, Debug, PartialEq, Eq, Structural)]
pub enum ServerKind {
    Imap,
    Pop3,
    Smtp,
}

/// The socket type of a server found by Autoconfig.
#[derive(Clone, Copy, Debug, PartialEq, Eq, Structural)]
pub enum SecurityType {
    Plain,
    Starttls,
    Tls,
}

/// A server found by Autoconfig.
#[derive(Debug)]
pub struct DiscoveredServer {
    pub kind: ServerKind,
    pub hostname: Option<String>,
    pub port: Option<u16>,
    pub socket_type: Option<SecurityType>,
}

/// What Autoconfig found for a provider.
#[derive(Debug)]
pub struct Autoconfig {
    pub incoming: Vec<DiscoveredServer>,
    pub outgoing: Vec<DiscoveredServer>,
}

/// What PACC found for a provider: the IMAP and SMTP hosts.
#[derive(Debug)]
pub struct PaccConfig {
    pub imap_host: Option<String>,
    pub smtp_host: Option<String>,
}

/// The settings proposed to the wizard, as plain values: host, port and
/// encryption (login and password start empty).
pub struct ProposalView {
    pub host: Seq<char>,
    pub port: u16,
    pub encryption: Encryption,
}

/// A proposal of the wizard: empty login, empty typed-in password.
pub open spec fn is_proposal(w: WizardServerConfig, p: ProposalView) -> bool {
    &&& w.host@ == p.host
    &&& w.port == p.port
    &&& w.encryption == p.encryption
    &&& w.login@ == Seq::<char>::empty()
    &&& w.secret matches WizardSecret::Raw(s) && s@ == Seq::<char>::empty()
}

/// An optional proposal matches an optional plain proposal.
pub open spec fn is_opt_proposal(w: Option<WizardServerConfig>, p: Option<ProposalView>) -> bool {
    match (w, p) {
        (Some(w), Some(p)) => is_proposal(w, p),
        (None, None) => true,
        _ => false,
    }
}

/// The encryption a socket type stands for.
pub open spec fn encryption_of(s: Option<SecurityType>) -> Encryption {
    match s {
        Some(SecurityType::Tls) => Encryption::Tls,
        Some(SecurityType::Starttls) => Encryption::StartTls,
        _ => Encryption::Plain,
    }
}

/// The usual IMAP port: 993 with TLS, else 143.
pub open spec fn imap_default_port(e: Encryption) -> u16 {
    if e == Encryption::Tls {
        993
    } else {
        143
    }
}

/// The usual SMTP port: 465 with TLS, 587 with STARTTLS, else 25.
pub open spec fn smtp_default_port(e: Encryption) -> u16 {
    if e == Encryption::Tls {
        465
    } else if e == Encryption::StartTls {
        587
    } else {
        25
    }
}

/// The proposal made from an Autoconfig server, with the given default
/// port for its encryption; none without a host name.
pub open spec fn server_proposal(s: DiscoveredServer, smtp: bool) -> Option<ProposalView> {
    match s.hostname {
        None => None,
        Some(h) => {
            let e = encryption_of(s.socket_type);
            Some(
                ProposalView {
                    host: h@,
                    port: match s.port {
                        Some(p) => p,
                        None => if smtp {
                            smtp_default_port(e)
                        } else {
                            imap_default_port(e)
                        },
                    },
                    encryption: e,
                },
            )
        },
    }
}

/// Index of the first server of kind `k`, or `-1`.
pub open spec fn first_of_kind(servers: Seq<DiscoveredServer>, k: ServerKind) -> int
    decreases servers.len(),
{
    if servers.len() == 0 {
        -1
    } else if servers[0].kind == k {
        0
    } else if first_of_kind(servers.drop_first(), k) < 0 {
        -1
    } else {
        first_of_kind(servers.drop_first(), k) + 1
    }
}

/// The proposals made from Autoconfig: from its first IMAP incoming
/// server and its first SMTP outgoing server.
pub open spec fn autoconfig_proposals(ac: Autoconfig) -> (Option<ProposalView>, Option<
    ProposalView,
>) {
    let i = first_of_kind(ac.incoming@, ServerKind::Imap);
    let o = first_of_kind(ac.outgoing@, ServerKind::Smtp);
    (
        if i < 0 {
            None
        } else {
            server_proposal(ac.incoming@[i], false)
        },
        if o < 0 {
            None
        } else {
            server_proposal(ac.outgoing@[o], true)
        },
    )
}

/// The proposals made from PACC: its hosts, with TLS on 993 and 465.
pub open spec fn pacc_proposals(p: PaccConfig) -> (Option<ProposalView>, Option<ProposalView>) {
    (
        match p.imap_host {
            Some(h) => Some(ProposalView { host: h@, port: 993, encryption: Encryption::Tls }),
            None => None,
        },
        match p.smtp_host {
            Some(h) => Some(ProposalView { host: h@, port: 465, encryption: Encryption::Tls }),
            None => None,
        },
    )
}

/// A proposal with the given host, port and encryption, and an empty
/// login and password.
fn proposal(host: String, port: u16, encryption: Encryption) -> (r: WizardServerConfig)
    ensures
        is_proposal(r, ProposalView { host: host@, port, encryption }),
{
    WizardServerConfig {
        host,
        port,
        encryption,
        login: String::new(),
        secret: WizardSecret::Raw(String::new()),
    }
}

/// The encryption a socket type stands for.
fn encryption_from(s: Option<SecurityType>) -> (e: Encryption)
    ensures
        e == encryption_of(s),
{
    match s {
        Some(SecurityType::Tls) => Encryption::Tls,
        Some(SecurityType::Starttls) => Encryption::StartTls,
        _ => Encryption::Plain,
    }
}

/// The IMAP settings proposed from an Autoconfig server: its host, its
/// encryption, and its port or else 993 with TLS and 143 otherwise;
/// nothing without a host name.
pub fn autoconfig_imap(server: &DiscoveredServer) -> (r: Option<WizardServerConfig>)
    ensures
        is_opt_proposal(r, server_proposal(*server, false)),
{
    let host = match &server.hostname {
        Some(h) => h.clone(),
        None => {
            return None;
        },
    };
    let encryption = encryption_from(server.socket_type);
    let port = match server.port {
        Some(p) => p,
        None => match encryption {
            Encryption::Tls => 993,
            _ => 143,
        },
    };
    Some(proposal(host, port, encryption))
}

/// The SMTP settings proposed from an Autoconfig server: its host, its
/// encryption, and its port or else 465 with TLS, 587 with STARTTLS and
/// 25 otherwise; nothing without a host name.
pub fn autoconfig_smtp(server: &DiscoveredServer) -> (r: Option<WizardServerConfig>)
    ensures
        is_opt_proposal(r, server_proposal(*server, true)),
{
    let host = match &server.hostname {
        Some(h) => h.clone(),
        None => {
            return None;
        },
    };
    let encryption = encryption_from(server.socket_type);
    let port = match server.port {
        Some(p) => p,
        None => match encryption {
            Encryption::Tls => 465,
            Encryption::StartTls => 587,
            Encryption::Plain => 25,
        },
    };
    Some(proposal(host, port, encryption))
}

/// `first_of_kind` is `i` when no server before `i` has kind `k` and
/// server `i` has it (or `-1` when `i` is the length).
proof fn lemma_first_of_kind_eq(servers: Seq<DiscoveredServer>, k: ServerKind, i: int)
    requires
        0 <= i <= servers.len(),
        forall|j: int| 0 <= j < i ==> #[trigger] servers[j].kind != k,
        i < servers.len() ==> servers[i].kind == k,
    ensures
        first_of_kind(servers, k) == (if i < servers.len() { i } else { -1 }),
    decreases i,
{
    if i > 0 {
        assert(servers[0].kind != k);
        assert forall|j: int| 0 <= j < i - 1 implies #[trigger] servers.drop_first()[j].kind != k by {
            assert(servers.drop_first()[j] == servers[j + 1]);
        }
        if i - 1 < servers.len() - 1 {
            assert(servers.drop_first()[i - 1] == servers[i]);
        }
        lemma_first_of_kind_eq(servers.drop_first(), k, i - 1);
    }
}

/// The index of the first server of kind `k`.
fn find_kind(servers: &Vec<DiscoveredServer>, k: ServerKind) -> (r: Option<usize>)
    ensures
        match r {
            Some(i) => i < servers.len() && first_of_kind(servers@, k) == i,
            None => first_of_kind(servers@, k) == -1,
        },
{
    let mut i: usize = 0;
    while i < servers.len()
        invariant
            i <= servers.len(),
            forall|j: int| 0 <= j < i ==> #[trigger] servers@[j].kind != k,
        decreases servers.len() - i,
    {
        if servers[i].kind == k {
            proof {
                lemma_first_of_kind_eq(servers@, k, i as int);
            }
            return Some(i);
        }
        i = i + 1;
    }
    proof {
        lemma_first_of_kind_eq(servers@, k, i as int);
    }
    None
}

/// The IMAP and SMTP settings proposed from Autoconfig: from its first
/// IMAP incoming server and its first SMTP outgoing server.
pub fn autoconfig_defaults(ac: &Autoconfig) -> (r: (Option<WizardServerConfig>, Option<WizardServerConfig>))
    ensures
        is_opt_proposal(r.0, autoconfig_proposals(*ac).0),
        is_opt_proposal(r.1, autoconfig_proposals(*ac).1),
{
    let imap = match find_kind(&ac.incoming, ServerKind::Imap) {
        Some(i) => autoconfig_imap(&ac.incoming[i]),
        None => None,
    };
    let smtp = match find_kind(&ac.outgoing, ServerKind::Smtp) {
        Some(i) => autoconfig_smtp(&ac.outgoing[i]),
        None => None,
    };
    (imap, smtp)
}

/// The IMAP and SMTP settings proposed from PACC: its hosts, with TLS
/// on ports 993 and 465.
pub fn pacc_defaults(config: &PaccConfig) -> (r: (Option<WizardServerConfig>, Option<WizardServerConfig>))
    ensures
        is_opt_proposal(r.0, pacc_proposals(*config).0),
        is_opt_proposal(r.1, pacc_proposals(*config).1),
{
    let imap = match &config.imap_host {
        Some(h) => Some(proposal(h.clone(), 993, Encryption::Tls)),
        None => None,
    };
    let smtp = match &config.smtp_host {
        Some(h) => Some(proposal(h.clone(), 465, Encryption::Tls)),
        None => None,
    };
    (imap, smtp)
}

/// `first.or(second)` on proposals.
pub open spec fn prefer(first: Option<ProposalView>, second: Option<ProposalView>) -> Option<
    ProposalView,
> {
    match first {
        Some(p) => Some(p),
        None => second,
    }
}

/// The proposals of both discoveries merged: PACC's where it has one,
/// else Autoconfig's.
pub open spec fn merged_proposals(pacc: Option<PaccConfig>, ac: Option<Autoconfig>) -> (Option<
    ProposalView,
>, Option<ProposalView>) {
    let p = match pacc {
        Some(p) => pacc_proposals(p),
        None => (None, None),
    };
    let a = match ac {
        Some(a) => autoconfig_proposals(a),
        None => (None, None),
    };
    (prefer(p.0, a.0), prefer(p.1, a.1))
}

/// Merges what PACC and Autoconfig found: PACC's settings are preferred,
/// and Autoconfig fills in what PACC did not return.
pub fn discovery_defaults(pacc: &Option<PaccConfig>, ac: &Option<Autoconfig>) -> (r: (
    Option<WizardServerConfig>,
    Option<WizardServerConfig>,
))
    ensures
        is_opt_proposal(r.0, merged_proposals(*pacc, *ac).0),
        is_opt_proposal(r.1, merged_proposals(*pacc, *ac).1),
{
    let (pacc_imap, pacc_smtp) = match pacc {
        Some(p) => pacc_defaults(p),
        None => (None, None),
    };
    let (ac_imap, ac_smtp) = match ac {
        Some(a) => autoconfig_defaults(a),
        None => (None, None),
    };
    let imap = match pacc_imap {
        Some(w) => Some(w),
        None => ac_imap,
    };
    let smtp = match pacc_smtp {
        Some(w) => Some(w),
        None => ac_smtp,
    };
    (imap, smtp)
}

/// PACC's proposals win over Autoconfig's: when PACC proposes an IMAP
/// (or SMTP) server, that proposal is the one made.
pub proof fn lemma_pacc_precedence(pacc: PaccConfig, ac: Option<Autoconfig>)
    ensures
        pacc.imap_host is Some ==> merged_proposals(Some(pacc), ac).0 == pacc_proposals(pacc).0,
        pacc.smtp_host is Some ==> merged_proposals(Some(pacc), ac).1 == pacc_proposals(pacc).1,
        pacc.imap_host is None ==> merged_proposals(Some(pacc), ac).0 == merged_proposals(None, ac).0,
        pacc.smtp_host is None ==> merged_proposals(Some(pacc), ac).1 == merged_proposals(None, ac).1,
{
}

// ---------------------------------------------------------------------
// Building the configuration
// ---------------------------------------------------------------------

/// `Url::parse(text)`, serialized back, or `None` when `url` refuses the
/// text.
pub uninterp spec fn url_parse(text: Seq<char>) -> Option<Seq<char>>;

/// `url::ParseError`, held opaque.
#[verifier::external_type_specification]
#[verifier::external_body]
pub struct ExUrlParseError(url::ParseError);

/// Parses a URL and returns its serialization.
///
/// Trusted: calls `url::Url::parse` and `Url::as_str`. Stated: the
/// result is a function of the text alone, named [`url_parse`].
#[verifier::external_body]
fn parse_url(text: &str) -> (r: Result<String, url::ParseError>)
    ensures
        match r {
            Ok(u) => url_parse(text@) == Some(u@),
            Err(_) => url_parse(text@) is None,
        },
{
    url::Url::parse(text).map(|u| u.as_str().to_string())
}

/// The text of a URL parse error.
///
/// Trusted: formats `url::ParseError` with its `Display` impl; nothing is
/// stated of the text.
#[verifier::external_body]
fn url_error_text(e: &url::ParseError) -> String {
    e.to_string()
}

/// Why the wizard cannot build a configuration.
#[derive(Debug)]
pub enum WizardError {
    /// The e-mail address has no `@`.
    InvalidEmail(String),
    /// The command that prints the password is blank.
    EmptyCommand,
    /// The server URL is refused.
    InvalidUrl(url::ParseError),
}

impl WizardError {
    /// The error's text.
    pub fn message(&self) -> (r: String)
        ensures
            self matches WizardError::InvalidEmail(e) ==> r@ == "Invalid email address `"@ + e@
                + "`: missing `@`"@,
            self matches WizardError::EmptyCommand ==> r@ == "Empty shell command for secret"@,
    {
        match self {
            WizardError::InvalidEmail(e) => {
                let mut v = chars_of("Invalid email address `");
                extend_str(&mut v, e.as_str());
                extend_str(&mut v, "`: missing `@`");
                proof {
                    reveal_strlit("Invalid email address `");
                    reveal_strlit("`: missing `@`");
                }
                string_of(&v)
            },
            WizardError::EmptyCommand => owned("Empty shell command for secret"),
            WizardError::InvalidUrl(e) => url_error_text(e),
        }
    }
}

/// The local part and the domain of an e-mail address, split at its
/// first `@`.
pub fn split_email(email: &str) -> (r: Result<(String, String), WizardError>)
    ensures
        match r {
            Ok((l, d)) => split_once(email@, '@') == Some((l@, d@)),
            Err(WizardError::InvalidEmail(e)) => split_once(email@, '@') is None && e@ == email@,
            Err(_) => false,
        },
{
    match split_once_chars(&chars_of(email), '@') {
        Some((l, d)) => Ok((string_of(&l), string_of(&d))),
        None => Err(WizardError::InvalidEmail(owned(email))),
    }
}

/// The password source the configuration stores.
pub open spec fn secret_matches(s: Secret, w: WizardSecret) -> bool {
    match (s, w) {
        (Secret::Raw(a), WizardSecret::Raw(b)) => a@ == b@,
        (Secret::Command(a), WizardSecret::Command(b)) => a@ == b@,
        _ => false,
    }
}

/// A command whose output is the password: refused when blank, kept as
/// typed otherwise.
pub fn parse_cmd(cmd: &str) -> (r: Result<String, WizardError>)
    ensures
        match r {
            Ok(c) => trim(cmd@).len() > 0 && c@ == cmd@,
            Err(WizardError::EmptyCommand) => trim(cmd@).len() == 0,
            Err(_) => false,
        },
{
    let t = trim_chars(&chars_of(cmd));
    if t.len() == 0 {
        Err(WizardError::EmptyCommand)
    } else {
        Ok(owned(cmd))
    }
}

/// SASL `PLAIN` with `login` as the authentication identity and no
/// authorization identity.
pub open spec fn is_plain_sasl(s: SaslConfig, login: Seq<char>) -> bool {
    &&& s.mechanism == Some(SaslMechanism::Plain)
    &&& s.plain matches Some(p) && p.authzid is None && p.authcid@ == login
}

/// SASL `PLAIN` authentication with the given login and password.
pub fn plain_sasl(login: &str, passwd: Secret) -> (r: SaslConfig)
    ensures
        is_plain_sasl(r, login@),
        r.plain matches Some(p) && p.passwd == passwd,
{
    SaslConfig {
        mechanism: Some(SaslMechanism::Plain),
        plain: Some(SaslPlainConfig { authzid: None, authcid: owned(login), passwd }),
    }
}

/// SASL `PLAIN` authentication from the wizard's login and password:
/// a typed-in password is stored as it is, a command must not be blank.
pub fn build_sasl(login: &str, secret: WizardSecret) -> (r: Result<SaslConfig, WizardError>)
    ensures
        match r {
            Ok(s) => is_plain_sasl(s, login@) && (s.plain matches Some(p) && secret_matches(
                p.passwd,
                secret,
            )),
            Err(WizardError::EmptyCommand) => secret matches WizardSecret::Command(c) && trim(c@).len()
                == 0,
            Err(_) => false,
        },
{
    let passwd = match secret {
        WizardSecret::Raw(s) => Secret::Raw(s),
        WizardSecret::Command(cmd) => {
            let c = parse_cmd(cmd.as_str())?;
            Secret::Command(c)
        },
    };
    Ok(plain_sasl(login, passwd))
}

/// `"{scheme}://{host}:{port}"`.
pub open spec fn server_url_text(scheme: Seq<char>, host: Seq<char>, port: u16) -> Seq<char> {
    scheme + "://"@ + host + seq![':'] + dec(port as nat)
}

/// The URL scheme of an IMAP server: `imaps` with TLS, else `imap`.
pub open spec fn imap_scheme(e: Encryption) -> Seq<char> {
    if e == Encryption::Tls {
        "imaps"@
    } else {
        "imap"@
    }
}

/// The URL scheme of an SMTP server: `smtps` with TLS, else `smtp`.
pub open spec fn smtp_scheme(e: Encryption) -> Seq<char> {
    if e == Encryption::Tls {
        "smtps"@
    } else {
        "smtp"@
    }
}

/// `"{scheme}://{host}:{port}"`, parsed as a URL.
fn server_url(scheme: &str, host: &String, port: u16) -> (r: Result<String, url::ParseError>)
    ensures
        match r {
            Ok(u) => url_parse(server_url_text(scheme@, host@, port)) == Some(u@),
            Err(_) => url_parse(server_url_text(scheme@, host@, port)) is None,
        },
{
    let mut v = chars_of(scheme);
    extend_str(&mut v, "://");
    extend_str(&mut v, host.as_str());
    v.push(':');
    push_decimal(&mut v, port as u64);
    proof {
        reveal_strlit("://");
    }
    assert(v@ =~= server_url_text(scheme@, host@, port));
    let text = string_of(&v);
    parse_url(text.as_str())
}

/// The text a server URL is parsed from, written out: `"{prefix}{host}:{port}"`.
pub open spec fn url_text_with(prefix: Seq<char>, w: WizardServerConfig) -> Seq<char> {
    prefix + w.host@ + seq![':'] + dec(w.port as nat)
}

/// The schemes followed by `://`.
proof fn lemma_scheme_prefixes()
    ensures
        "imaps"@ + "://"@ == "imaps://"@,
        "imap"@ + "://"@ == "imap://"@,
        "smtps"@ + "://"@ == "smtps://"@,
        "smtp"@ + "://"@ == "smtp://"@,
{
    reveal_strlit("imaps");
    reveal_strlit("imap");
    reveal_strlit("smtps");
    reveal_strlit("smtp");
    reveal_strlit("://");
    reveal_strlit("imaps://");
    reveal_strlit("imap://");
    reveal_strlit("smtps://");
    reveal_strlit("smtp://");
    assert("imaps"@ + "://"@ =~= "imaps://"@);
    assert("imap"@ + "://"@ =~= "imap://"@);
    assert("smtps"@ + "://"@ =~= "smtps://"@);
    assert("smtp"@ + "://"@ =~= "smtp://"@);
}

/// A built SMTP backend asks for implicit TLS exactly when TLS was
/// chosen: its URL is parsed from `smtps://{host}:{port}` with TLS and
/// from `smtp://{host}:{port}` with STARTTLS or no encryption, and it
/// upgrades with STARTTLS exactly when STARTTLS was chosen. So it never
/// asks for both.
pub proof fn lemma_smtp_transport(w: WizardServerConfig, url: Seq<char>, starttls: bool, sasl: SaslConfig)
    requires
        built_server(Ok((url, starttls, sasl)), w, smtp_scheme(w.encryption)),
    ensures
        w.encryption == Encryption::Tls ==> url_parse(url_text_with("smtps://"@, w)) == Some(url),
        w.encryption != Encryption::Tls ==> url_parse(url_text_with("smtp://"@, w)) == Some(url),
        starttls <==> w.encryption == Encryption::StartTls,
{
    lemma_scheme_prefixes();
    let e = w.encryption;
    if e == Encryption::Tls {
        assert(server_url_text("smtps"@, w.host@, w.port) =~= url_text_with("smtps://"@, w));
    } else {
        assert(server_url_text("smtp"@, w.host@, w.port) =~= url_text_with("smtp://"@, w));
    }
}

/// A built IMAP backend asks for implicit TLS exactly when TLS was
/// chosen: its URL is parsed from `imaps://{host}:{port}` with TLS and
/// from `imap://{host}:{port}` otherwise, and it upgrades with STARTTLS
/// exactly when STARTTLS was chosen.
pub proof fn lemma_imap_transport(w: WizardServerConfig, url: Seq<char>, starttls: bool, sasl: SaslConfig)
    requires
        built_server(Ok((url, starttls, sasl)), w, imap_scheme(w.encryption)),
    ensures
        w.encryption == Encryption::Tls ==> url_parse(url_text_with("imaps://"@, w)) == Some(url),
        w.encryption != Encryption::Tls ==> url_parse(url_text_with("imap://"@, w)) == Some(url),
        starttls <==> w.encryption == Encryption::StartTls,
{
    lemma_scheme_prefixes();
    let e = w.encryption;
    if e == Encryption::Tls {
        assert(server_url_text("imaps"@, w.host@, w.port) =~= url_text_with("imaps://"@, w));
    } else {
        assert(server_url_text("imap"@, w.host@, w.port) =~= url_text_with("imap://"@, w));
    }
}

/// What a backend built from the wizard's answers holds: the URL made of
/// the scheme, host and port, STARTTLS exactly when chosen, and SASL
/// `PLAIN` with the login and password; or why it cannot be built.
pub open spec fn built_server(
    r: Result<(Seq<char>, bool, SaslConfig), WizardError>,
    w: WizardServerConfig,
    scheme: Seq<char>,
) -> bool {
    let text = server_url_text(scheme, w.host@, w.port);
    match r {
        Ok((url, starttls, sasl)) => {
            &&& url_parse(text) == Some(url)
            &&& starttls == (w.encryption == Encryption::StartTls)
            &&& is_plain_sasl(sasl, w.login@)
            &&& sasl.plain matches Some(p) && secret_matches(p.passwd, w.secret)
        },
        Err(WizardError::InvalidUrl(_)) => url_parse(text) is None,
        Err(WizardError::EmptyCommand) => {
            &&& url_parse(text) is Some
            &&& w.secret matches WizardSecret::Command(c) && trim(c@).len() == 0
        },
        Err(WizardError::InvalidEmail(_)) => false,
    }
}

/// The IMAP backend built from the wizard's answers.
pub fn imap_to_config(w: WizardServerConfig) -> (r: Result<ImapConfig, WizardError>)
    ensures
        built_server(
            match r {
                Ok(c) => Ok((c.url@, c.starttls, c.sasl)),
                Err(e) => Err(e),
            },
            w,
            imap_scheme(w.encryption),
        ),
        r matches Ok(c) ==> {
            &&& c.starttls == (w.encryption == Encryption::StartTls)
            &&& w.encryption == Encryption::Tls ==> url_parse(url_text_with("imaps://"@, w)) == Some(c.url@)
            &&& w.encryption != Encryption::Tls ==> url_parse(url_text_with("imap://"@, w)) == Some(c.url@)
        },
{
    let scheme = match w.encryption {
        Encryption::Tls => "imaps",
        _ => "imap",
    };
    proof {
        reveal_strlit("imaps");
        reveal_strlit("imap");
    }
    let url = match server_url(scheme, &w.host, w.port) {
        Ok(u) => u,
        Err(e) => {
            return Err(WizardError::InvalidUrl(e));
        },
    };
    let starttls = w.encryption == Encryption::StartTls;
    let ghost w0 = w;
    let sasl = build_sasl(w.login.as_str(), w.secret)?;
    proof {
        lemma_imap_transport(w0, url@, starttls, sasl);
    }
    Ok(ImapConfig { url, starttls, sasl })
}

/// The SMTP backend built from the wizard's answers.
pub fn smtp_to_config(w: WizardServerConfig) -> (r: Result<SmtpConfig, WizardError>)
    ensures
        built_server(
            match r {
                Ok(c) => Ok((c.url@, c.starttls, c.sasl)),
                Err(e) => Err(e),
            },
            w,
            smtp_scheme(w.encryption),
        ),
        r matches Ok(c) ==> {
            &&& c.starttls == (w.encryption == Encryption::StartTls)
            &&& w.encryption == Encryption::Tls ==> url_parse(url_text_with("smtps://"@, w)) == Some(c.url@)
            &&& w.encryption != Encryption::Tls ==> url_parse(url_text_with("smtp://"@, w)) == Some(c.url@)
        },
{
    let scheme = match w.encryption {
        Encryption::Tls => "smtps",
        _ => "smtp",
    };
    proof {
        reveal_strlit("smtps");
        reveal_strlit("smtp");
    }
    let url = match server_url(scheme, &w.host, w.port) {
        Ok(u) => u,
        Err(e) => {
            return Err(WizardError::InvalidUrl(e));
        },
    };
    let starttls = w.encryption == Encryption::StartTls;
    let ghost w0 = w;
    let sasl = build_sasl(w.login.as_str(), w.secret)?;
    proof {
        lemma_smtp_transport(w0, url@, starttls, sasl);
    }
    Ok(SmtpConfig { url, starttls, sasl })
}

/// The account the wizard writes: the default account, with the IMAP and
/// SMTP backends and nothing else set.
pub fn wizard_account(imap: ImapConfig, smtp: SmtpConfig) -> (r: AccountConfig)
    ensures
        r.default,
        r.downloads_dir is None,
        r.table_preset is None,
        r.table_arrangement is None,
        r.datetime_fmt is None,
        r.datetime_local_tz is None,
        r.imap == Some(imap),
        r.jmap is None,
        r.maildir is None,
        r.smtp == Some(smtp),
{
    AccountConfig {
        default: true,
        downloads_dir: None,
        table_preset: None,
        table_arrangement: None,
        datetime_fmt: None,
        datetime_local_tz: None,
        imap: Some(imap),
        jmap: None,
        maildir: None,
        smtp: Some(smtp),
    }
}

} // verus!
