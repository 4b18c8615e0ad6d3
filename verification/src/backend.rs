//! Which backend a command goes through.
//!
//! Each command tries the backends it supports in a fixed order and takes
//! the first one the account configures.
use vstd::prelude::*;
use crate::config::ConfiguredBackends;
use crate::text::owned;

verus! {

/// A backend of an account.
#[derive(Clone, Copy, Debug, PartialEq, Eq, Structural)]
pub enum Backend {
    Imap,
    Jmap,
    Maildir,
    Smtp,
}

/// The backend asked for on the command line.
#[derive(Clone, Copy, Debug, PartialEq, Eq, Structural)]
pub enum BackendArg {
    /// The first configured backend, in priority order.
    Auto,
    Imap,
    Jmap,
    Maildir,
}

impl BackendArg {
    /// Whether IMAP may be used.
    pub fn allows_imap(&self) -> (r: bool)
        ensures
            r == (*self == BackendArg::Auto || *self == BackendArg::Imap),
    {
        match self {
            BackendArg::Auto | BackendArg::Imap => true,
            _ => false,
        }
    }

    /// Whether JMAP may be used.
    pub fn allows_jmap(&self) -> (r: bool)
        ensures
            r == (*self == BackendArg::Auto || *self == BackendArg::Jmap),
    {
        match self {
            BackendArg::Auto | BackendArg::Jmap => true,
            _ => false,
        }
    }

    /// Whether Maildir may be used.
    pub fn allows_maildir(&self) -> (r: bool)
        ensures
            r == (*self == BackendArg::Auto || *self == BackendArg::Maildir),
    {
        match self {
            BackendArg::Auto | BackendArg::Maildir => true,
            _ => false,
        }
    }

    /// The name of the choice, as typed on the command line.
    pub fn name(&self) -> (r: String)
        ensures
            r@ == backend_arg_name(*self),
    {
        match self {
            BackendArg::Auto => owned("auto"),
            BackendArg::Imap => owned("imap"),
            BackendArg::Jmap => owned("jmap"),
            BackendArg::Maildir => owned("maildir"),
        }
    }
}

/// The name of a backend choice.
pub open spec fn backend_arg_name(a: BackendArg) -> Seq<char> {
    match a {
        BackendArg::Auto => "auto"@,
        BackendArg::Imap => "imap"@,
        BackendArg::Jmap => "jmap"@,
        BackendArg::Maildir => "maildir"@,
    }
}

/// Why no backend can serve a command.
#[derive(Clone, Copy, Debug, PartialEq, Eq, Structural)]
pub enum BackendError {
    /// No configured backend matches the one asked for.
    NoMatchingBackend(BackendArg),
    /// None of JMAP, IMAP and Maildir is configured.
    NoReadBackend,
    /// Neither JMAP nor Maildir is configured (envelope listing).
    NoEnvelopeBackend,
    /// Only IMAP is configured, which does not list envelopes here.
    ImapEnvelopeListing,
    /// Neither IMAP nor Maildir is configured (message retrieval).
    NoMessageBackend,
    /// Only JMAP is configured, which does not retrieve messages here.
    JmapMessageGet,
    /// No SMTP backend is configured.
    NoSmtpBackend,
}

/// The text of an error.
pub open spec fn backend_error_text(e: BackendError) -> Seq<char> {
    match e {
        BackendError::NoMatchingBackend(a) => "no backend matching `"@ + backend_arg_name(a)
            + "` is configured for this account"@,
        BackendError::NoReadBackend => "no compatible backend (jmap, imap, maildir) configured for this account"@,
        BackendError::NoEnvelopeBackend => "no compatible backend (jmap, maildir) configured for this account"@,
        BackendError::ImapEnvelopeListing => "IMAP envelope listing is not exposed via the cross-protocol command; use `himalaya imap envelope list` instead"@,
        BackendError::NoMessageBackend => "no compatible backend (imap, maildir) configured for this account"@,
        BackendError::JmapMessageGet => "JMAP message get is not exposed via the cross-protocol command; use `himalaya jmap email get` instead"@,
        BackendError::NoSmtpBackend => "no SMTP backend configured for this account"@,
    }
}

impl BackendError {
    /// The error's text.
    pub fn message(&self) -> (r: String)
        ensures
            r@ == backend_error_text(*self),
    {
        match self {
            BackendError::NoMatchingBackend(a) => {
                let mut v = crate::text::chars_of("no backend matching `");
                let n = a.name();
                crate::text::extend_str(&mut v, n.as_str());
                crate::text::extend_str(&mut v, "` is configured for this account");
                proof {
                    reveal_strlit("no backend matching `");
                    reveal_strlit("` is configured for this account");
                }
                assert(v@ =~= backend_error_text(*self));
                crate::text::string_of(&v)
            },
            BackendError::NoReadBackend => owned(
                "no compatible backend (jmap, imap, maildir) configured for this account",
            ),
            BackendError::NoEnvelopeBackend => owned(
                "no compatible backend (jmap, maildir) configured for this account",
            ),
            BackendError::ImapEnvelopeListing => owned(
                "IMAP envelope listing is not exposed via the cross-protocol command; use `himalaya imap envelope list` instead",
            ),
            BackendError::NoMessageBackend => owned(
                "no compatible backend (imap, maildir) configured for this account",
            ),
            BackendError::JmapMessageGet => owned(
                "JMAP message get is not exposed via the cross-protocol command; use `himalaya jmap email get` instead",
            ),
            BackendError::NoSmtpBackend => owned("no SMTP backend configured for this account"),
        }
    }
}

/// The backend of the shared client: the first, in IMAP, JMAP, Maildir
/// order, that is configured and allowed by `arg`.
pub open spec fn client_backend(arg: BackendArg, c: ConfiguredBackends) -> Result<
    Backend,
    BackendError,
> {
    if (arg == BackendArg::Auto || arg == BackendArg::Imap) && c.imap {
        Ok(Backend::Imap)
    } else if (arg == BackendArg::Auto || arg == BackendArg::Jmap) && c.jmap {
        Ok(Backend::Jmap)
    } else if (arg == BackendArg::Auto || arg == BackendArg::Maildir) && c.maildir {
        Ok(Backend::Maildir)
    } else {
        Err(BackendError::NoMatchingBackend(arg))
    }
}

/// The backend for listing mailboxes or adding flags: JMAP, then IMAP,
/// then Maildir.
pub open spec fn read_backend(c: ConfiguredBackends) -> Result<Backend, BackendError> {
    if c.jmap {
        Ok(Backend::Jmap)
    } else if c.imap {
        Ok(Backend::Imap)
    } else if c.maildir {
        Ok(Backend::Maildir)
    } else {
        Err(BackendError::NoReadBackend)
    }
}

/// The backend for listing envelopes: JMAP, then Maildir; IMAP is
/// refused.
pub open spec fn envelope_backend(c: ConfiguredBackends) -> Result<Backend, BackendError> {
    if c.jmap {
        Ok(Backend::Jmap)
    } else if c.maildir {
        Ok(Backend::Maildir)
    } else if c.imap {
        Err(BackendError::ImapEnvelopeListing)
    } else {
        Err(BackendError::NoEnvelopeBackend)
    }
}

/// The backend for retrieving a message: IMAP, then Maildir; JMAP is
/// refused.
pub open spec fn message_backend(c: ConfiguredBackends) -> Result<Backend, BackendError> {
    if c.imap {
        Ok(Backend::Imap)
    } else if c.maildir {
        Ok(Backend::Maildir)
    } else if c.jmap {
        Err(BackendError::JmapMessageGet)
    } else {
        Err(BackendError::NoMessageBackend)
    }
}

/// The backend for sending a message: SMTP only.
pub open spec fn send_backend(c: ConfiguredBackends) -> Result<Backend, BackendError> {
    if c.smtp {
        Ok(Backend::Smtp)
    } else {
        Err(BackendError::NoSmtpBackend)
    }
}

/// Selects the shared client's backend: the first in IMAP, JMAP, Maildir
/// order whose configuration is present and that `arg` allows; fails when
/// none matches. SMTP is never chosen.
pub fn select_client_backend(arg: BackendArg, c: ConfiguredBackends) -> (r: Result<
    Backend,
    BackendError,
>)
    ensures
        r == client_backend(arg, c),
{
    if arg.allows_imap() && c.imap {
        Ok(Backend::Imap)
    } else if arg.allows_jmap() && c.jmap {
        Ok(Backend::Jmap)
    } else if arg.allows_maildir() && c.maildir {
        Ok(Backend::Maildir)
    } else {
        Err(BackendError::NoMatchingBackend(arg))
    }
}

/// See [`read_backend`].
pub fn select_read_backend(c: ConfiguredBackends) -> (r: Result<Backend, BackendError>)
    ensures
        r == read_backend(c),
{
    if c.jmap {
        Ok(Backend::Jmap)
    } else if c.imap {
        Ok(Backend::Imap)
    } else if c.maildir {
        Ok(Backend::Maildir)
    } else {
        Err(BackendError::NoReadBackend)
    }
}

/// See [`envelope_backend`].
pub fn select_envelope_backend(c: ConfiguredBackends) -> (r: Result<Backend, BackendError>)
    ensures
        r == envelope_backend(c),
{
    if c.jmap {
        Ok(Backend::Jmap)
    } else if c.maildir {
        Ok(Backend::Maildir)
    } else if c.imap {
        Err(BackendError::ImapEnvelopeListing)
    } else {
        Err(BackendError::NoEnvelopeBackend)
    }
}

/// See [`message_backend`].
pub fn select_message_backend(c: ConfiguredBackends) -> (r: Result<Backend, BackendError>)
    ensures
        r == message_backend(c),
{
    if c.imap {
        Ok(Backend::Imap)
    } else if c.maildir {
        Ok(Backend::Maildir)
    } else if c.jmap {
        Err(BackendError::JmapMessageGet)
    } else {
        Err(BackendError::NoMessageBackend)
    }
}

/// See [`send_backend`].
pub fn select_send_backend(c: ConfiguredBackends) -> (r: Result<Backend, BackendError>)
    ensures
        r == send_backend(c),
{
    if c.smtp {
        Ok(Backend::Smtp)
    } else {
        Err(BackendError::NoSmtpBackend)
    }
}

/// A backend is only ever chosen when it is configured, and the shared
/// client only picks one that the command line allows.
pub proof fn lemma_chosen_backend_is_configured(arg: BackendArg, c: ConfiguredBackends)
    ensures
        client_backend(arg, c) matches Ok(b) ==> {
            &&& b != Backend::Smtp
            &&& (b == Backend::Imap ==> c.imap && (arg == BackendArg::Auto || arg == BackendArg::Imap))
            &&& (b == Backend::Jmap ==> c.jmap && (arg == BackendArg::Auto || arg == BackendArg::Jmap))
            &&& (b == Backend::Maildir ==> c.maildir && (arg == BackendArg::Auto || arg
                == BackendArg::Maildir))
        },
        client_backend(arg, c) is Err ==> !((arg == BackendArg::Auto || arg == BackendArg::Imap)
            && c.imap) && !((arg == BackendArg::Auto || arg == BackendArg::Jmap) && c.jmap) && !((arg
            == BackendArg::Auto || arg == BackendArg::Maildir) && c.maildir),
        read_backend(c) matches Ok(b) ==> (b == Backend::Jmap && c.jmap) || (b == Backend::Imap
            && c.imap) || (b == Backend::Maildir && c.maildir),
        read_backend(c) is Err <==> !(c.imap || c.jmap || c.maildir),
        envelope_backend(c) matches Ok(b) ==> (b == Backend::Jmap && c.jmap) || (b
            == Backend::Maildir && c.maildir),
        message_backend(c) matches Ok(b) ==> (b == Backend::Imap && c.imap) || (b
            == Backend::Maildir && c.maildir),
        send_backend(c) is Ok <==> c.smtp,
{
}

/// Envelopes are listed through JMAP whenever the account has JMAP, else
/// through Maildir; the listing fails only when the account has neither,
/// and then says that IMAP listing is not offered when IMAP is all it
/// has.
pub proof fn lemma_envelope_backend_choice(c: ConfiguredBackends)
    ensures
        c.jmap ==> envelope_backend(c) == Ok::<Backend, BackendError>(Backend::Jmap),
        !c.jmap && c.maildir ==> envelope_backend(c) == Ok::<Backend, BackendError>(Backend::Maildir),
        envelope_backend(c) is Ok <==> (c.jmap || c.maildir),
        !c.jmap && !c.maildir && c.imap ==> envelope_backend(c) == Err::<Backend, BackendError>(
            BackendError::ImapEnvelopeListing,
        ),
        !c.jmap && !c.maildir && !c.imap ==> envelope_backend(c) == Err::<Backend, BackendError>(
            BackendError::NoEnvelopeBackend,
        ),
{
}

/// Mailboxes are listed, and flags added, through JMAP whenever the
/// account has JMAP, else IMAP, else Maildir; this fails only when the
/// account has none of them.
pub proof fn lemma_read_backend_choice(c: ConfiguredBackends)
    ensures
        c.jmap ==> read_backend(c) == Ok::<Backend, BackendError>(Backend::Jmap),
        !c.jmap && c.imap ==> read_backend(c) == Ok::<Backend, BackendError>(Backend::Imap),
        !c.jmap && !c.imap && c.maildir ==> read_backend(c) == Ok::<Backend, BackendError>(
            Backend::Maildir,
        ),
        read_backend(c) is Ok <==> (c.jmap || c.imap || c.maildir),
        read_backend(c) is Err ==> read_backend(c) == Err::<Backend, BackendError>(
            BackendError::NoReadBackend,
        ),
{
}

/// A message is fetched through IMAP whenever the account has IMAP, else
/// through Maildir; this fails only when the account has neither, and
/// then says that JMAP retrieval is not offered when JMAP is all it has.
pub proof fn lemma_message_backend_choice(c: ConfiguredBackends)
    ensures
        c.imap ==> message_backend(c) == Ok::<Backend, BackendError>(Backend::Imap),
        !c.imap && c.maildir ==> message_backend(c) == Ok::<Backend, BackendError>(Backend::Maildir),
        message_backend(c) is Ok <==> (c.imap || c.maildir),
        !c.imap && !c.maildir && c.jmap ==> message_backend(c) == Err::<Backend, BackendError>(
            BackendError::JmapMessageGet,
        ),
        !c.imap && !c.maildir && !c.jmap ==> message_backend(c) == Err::<Backend, BackendError>(
            BackendError::NoMessageBackend,
        ),
{
}

/// A message is sent through SMTP, and only when the account has it.
pub proof fn lemma_send_backend_choice(c: ConfiguredBackends)
    ensures
        c.smtp ==> send_backend(c) == Ok::<Backend, BackendError>(Backend::Smtp),
        !c.smtp ==> send_backend(c) == Err::<Backend, BackendError>(BackendError::NoSmtpBackend),
{
}

/// The shared client takes, among the backends the account has and the
/// command line allows, IMAP first, then JMAP, then Maildir; it fails
/// only when none is both configured and allowed.
pub proof fn lemma_client_backend_choice(arg: BackendArg, c: ConfiguredBackends)
    ensures
        c.imap && (arg == BackendArg::Auto || arg == BackendArg::Imap) ==> client_backend(arg, c)
            == Ok::<Backend, BackendError>(Backend::Imap),
        c.jmap && (arg == BackendArg::Auto || arg == BackendArg::Jmap) && !(c.imap && arg
            == BackendArg::Auto) ==> client_backend(arg, c) == Ok::<Backend, BackendError>(
            Backend::Jmap,
        ),
        c.maildir && (arg == BackendArg::Auto || arg == BackendArg::Maildir) && !(arg
            == BackendArg::Auto && (c.imap || c.jmap)) ==> client_backend(arg, c) == Ok::<
            Backend,
            BackendError,
        >(Backend::Maildir),
        client_backend(arg, c) is Err ==> client_backend(arg, c) == Err::<Backend, BackendError>(
            BackendError::NoMatchingBackend(arg),
        ),
{
}

} // verus!
