//! Adding and removing flags on messages.
use vstd::prelude::*;
use crate::attachments::strings_view;
use crate::backend::{
    client_backend, read_backend, select_client_backend, select_read_backend, Backend, BackendArg,
    BackendError,
};
use crate::config::ConfiguredBackends;
use crate::text::{
    chars_of, join, join_path, join_path_chars, join_strings, slice_chars, string_of,
};

verus! {

/// Adds flags to messages.
#[derive(Debug)]
pub struct FlagsAddCommand {
    /// Identifiers of the messages.
    pub ids: Vec<String>,
    /// Flags to add.
    pub flags: Vec<String>,
    /// Mailbox holding the messages.
    pub mailbox: String,
    /// Treat the IMAP identifiers as sequence numbers instead of UIDs.
    pub sequence: bool,
}

/// The keyword updates of a JMAP request: every flag for every message,
/// message by message.
pub open spec fn keyword_pairs(ids: Seq<Seq<char>>, flags: Seq<Seq<char>>) -> Seq<(Seq<char>, Seq<char>)>
    decreases ids.len(),
{
    if ids.len() == 0 {
        Seq::empty()
    } else {
        keyword_pairs(ids.drop_last(), flags) + flags.map_values(|f: Seq<char>| (ids.last(), f))
    }
}

/// The views of pairs of strings.
pub open spec fn string_pairs_view(v: Seq<(String, String)>) -> Seq<(Seq<char>, Seq<char>)> {
    v.map_values(|p: (String, String)| (p.0@, p.1@))
}

impl FlagsAddCommand {
    /// The backend the flags are added through: JMAP, then IMAP, then
    /// Maildir.
    pub fn backend(&self, c: ConfiguredBackends) -> (r: Result<Backend, BackendError>)
        ensures
            r == read_backend(c),
    {
        select_read_backend(c)
    }

    /// The IMAP sequence set naming the messages: their identifiers
    /// joined by commas.
    pub fn sequence_set(&self) -> (r: String)
        ensures
            r@ == join(strings_view(self.ids@), ","@),
    {
        join_strings(&self.ids, ",")
    }

    /// Whether the IMAP identifiers are UIDs.
    pub fn uid(&self) -> (r: bool)
        ensures
            r == !self.sequence,
    {
        !self.sequence
    }

    /// The (message, flag) pairs a JMAP request sets, message by message.
    pub fn keyword_updates(&self) -> (r: Vec<(String, String)>)
        ensures
            string_pairs_view(r@) == keyword_pairs(
                strings_view(self.ids@),
                strings_view(self.flags@),
            ),
    {
        let ghost ids = strings_view(self.ids@);
        let ghost flags = strings_view(self.flags@);
        let mut out: Vec<(String, String)> = Vec::new();
        let mut i: usize = 0;
        assert(ids.take(0) =~= Seq::<Seq<char>>::empty());
        assert(string_pairs_view(out@) =~= keyword_pairs(ids.take(0), flags));
        while i < self.ids.len()
            invariant
                i <= self.ids.len(),
                ids == strings_view(self.ids@),
                flags == strings_view(self.flags@),
                string_pairs_view(out@) == keyword_pairs(ids.take(i as int), flags),
            decreases self.ids.len() - i,
        {
            let ghost base = string_pairs_view(out@);
            let mut k: usize = 0;
            while k < self.flags.len()
                invariant
                    k <= self.flags.len(),
                    i < self.ids.len(),
                    ids == strings_view(self.ids@),
                    flags == strings_view(self.flags@),
                    string_pairs_view(out@) == base + flags.take(k as int).map_values(
                        |f: Seq<char>| (ids[i as int], f),
                    ),
                decreases self.flags.len() - k,
            {
                let ghost before = string_pairs_view(out@);
                out.push((self.ids[i].clone(), self.flags[k].clone()));
                assert(string_pairs_view(out@) =~= before.push((ids[i as int], flags[k as int])));
                k = k + 1;
                assert(flags.take(k as int).map_values(|f: Seq<char>| (ids[i as int], f))
                    =~= flags.take(k - 1).map_values(|f: Seq<char>| (ids[i as int], f)).push(
                    (ids[i as int], flags[k - 1]),
                ));
            }
            assert(flags.take(self.flags.len() as int) == flags);
            assert(ids.take(i + 1).drop_last() == ids.take(i as int));
            assert(ids.take(i + 1).last() == ids[i as int]);
            i = i + 1;
        }
        assert(ids.take(self.ids.len() as int) == ids);
        out
    }

    /// The Maildir directory of the mailbox, inside `root`.
    pub fn maildir_path(&self, root: &String) -> (r: String)
        ensures
            r@ == join_path(root@, self.mailbox@),
    {
        string_of(&join_path_chars(&chars_of(root.as_str()), &chars_of(self.mailbox.as_str())))
    }
}

/// An IMAP flag as typed: a system flag (`\\Seen`, held without its
/// backslash) or a keyword.
#[derive(Debug)]
pub enum ImapFlagName {
    System(String),
    Keyword(String),
}

/// What an IMAP flag as typed stands for: `(true, name)` for a system
/// flag `\\name`, `(false, text)` for a keyword.
pub open spec fn imap_flag_of(f: Seq<char>) -> (bool, Seq<char>) {
    if f.len() > 0 && f[0] == '\\' {
        (true, f.drop_first())
    } else {
        (false, f)
    }
}

/// The view of an IMAP flag name.
pub open spec fn imap_flag_view(f: ImapFlagName) -> (bool, Seq<char>) {
    match f {
        ImapFlagName::System(n) => (true, n@),
        ImapFlagName::Keyword(k) => (false, k@),
    }
}

/// The IMAP flag a typed flag stands for: a leading backslash makes it a
/// system flag.
pub fn imap_flag(f: &String) -> (r: ImapFlagName)
    ensures
        imap_flag_view(r) == imap_flag_of(f@),
{
    let v = chars_of(f.as_str());
    if v.len() > 0 && v[0] == '\\' {
        let name = slice_chars(&v, 1, v.len());
        assert(name@ =~= f@.drop_first());
        ImapFlagName::System(string_of(&name))
    } else {
        ImapFlagName::Keyword(f.clone())
    }
}

impl FlagsAddCommand {
    /// The IMAP flags of the request, in order.
    pub fn imap_flags(&self) -> (r: Vec<ImapFlagName>)
        ensures
            r@.len() == self.flags@.len(),
            forall|i: int| 0 <= i < r@.len() ==> imap_flag_view(#[trigger] r@[i]) == imap_flag_of(
                self.flags@[i]@,
            ),
    {
        let mut out: Vec<ImapFlagName> = Vec::new();
        let mut i: usize = 0;
        while i < self.flags.len()
            invariant
                i <= self.flags.len(),
                out@.len() == i,
                forall|j: int| 0 <= j < i ==> imap_flag_view(#[trigger] out@[j]) == imap_flag_of(
                    self.flags@[j]@,
                ),
            decreases self.flags.len() - i,
        {
            out.push(imap_flag(&self.flags[i]));
            i = i + 1;
        }
        out
    }
}

/// Removes flags from messages, through the shared client.
#[derive(Debug)]
pub struct FlagRemoveCommand {
    /// Mailbox holding the messages.
    pub mailbox_id: String,
    /// Identifiers of the messages.
    pub message_ids: Vec<String>,
    /// Flags to remove.
    pub flags: Vec<String>,
}

impl FlagRemoveCommand {
    /// The backend of the shared client (see [`client_backend`]).
    pub fn backend(&self, arg: BackendArg, c: ConfiguredBackends) -> (r: Result<Backend, BackendError>)
        ensures
            r == client_backend(arg, c),
    {
        select_client_backend(arg, c)
    }
}

/// Flag commands of the shared API.
#[derive(Debug)]
pub enum FlagCommand {
    Add(FlagsAddCommand),
    Remove(FlagRemoveCommand),
}

impl FlagCommand {
    /// The backend the command goes through.
    pub fn backend(&self, arg: BackendArg, c: ConfiguredBackends) -> (r: Result<Backend, BackendError>)
        ensures
            r == match self {
                FlagCommand::Add(_) => read_backend(c),
                FlagCommand::Remove(_) => client_backend(arg, c),
            },
    {
        match self {
            FlagCommand::Add(cmd) => cmd.backend(c),
            FlagCommand::Remove(cmd) => cmd.backend(arg, c),
        }
    }
}

/// Flag commands of the configured backend.
#[derive(Debug)]
pub enum FlagsCommand {
    Add(FlagsAddCommand),
}

impl FlagsCommand {
    /// The backend the command goes through.
    pub fn backend(&self, c: ConfiguredBackends) -> (r: Result<Backend, BackendError>)
        ensures
            r == read_backend(c),
    {
        match self {
            FlagsCommand::Add(cmd) => cmd.backend(c),
        }
    }
}

} // verus!
