//! Listing envelopes.
use vstd::prelude::*;
use crate::backend::{envelope_backend, select_envelope_backend, Backend, BackendError};
use crate::config::ConfiguredBackends;
use crate::attachments::strings_view;
use crate::table::{render_table, rows_view, table_text, TableArrangement};
use crate::text::{chars_of, extend_str, join, join_path, join_path_chars, join_strings, owned, string_of};

verus! {

/// Lists the envelopes of the account, through JMAP or Maildir.
#[derive(Debug)]
pub struct EnvelopesListCommand {
    /// Path or name of the Maildir mailbox (Maildir only).
    pub mailbox: Option<String>,
}

impl EnvelopesListCommand {
    /// The backend the envelopes are listed through: JMAP, then Maildir;
    /// an account with IMAP only is refused.
    pub fn backend(&self, c: ConfiguredBackends) -> (r: Result<Backend, BackendError>)
        ensures
            r == envelope_backend(c),
    {
        select_envelope_backend(c)
    }

    /// The Maildir directory listed: the mailbox inside `root`, or `root`
    /// itself.
    pub fn maildir_path(&self, root: &String) -> (r: String)
        ensures
            r@ == match self.mailbox {
                Some(m) => join_path(root@, m@),
                None => root@,
            },
    {
        match &self.mailbox {
            Some(m) => string_of(&join_path_chars(&chars_of(root.as_str()), &chars_of(m.as_str()))),
            None => root.clone(),
        }
    }
}

/// Envelope commands of the shared API.
#[derive(Debug)]
pub enum EnvelopeCommand {
    List(EnvelopesListCommand),
}

/// Envelope commands of the configured backend.
#[derive(Debug)]
pub enum EnvelopesCommand {
    List(EnvelopesListCommand),
}

impl EnvelopeCommand {
    /// The backend the command goes through.
    pub fn backend(&self, c: ConfiguredBackends) -> (r: Result<Backend, BackendError>)
        ensures
            r == envelope_backend(c),
    {
        match self {
            EnvelopeCommand::List(cmd) => cmd.backend(c),
        }
    }
}

impl EnvelopesCommand {
    /// The backend the command goes through.
    pub fn backend(&self, c: ConfiguredBackends) -> (r: Result<Backend, BackendError>)
        ensures
            r == envelope_backend(c),
    {
        match self {
            EnvelopesCommand::List(cmd) => cmd.backend(c),
        }
    }
}

/// A sender of a message: display name, if any, and e-mail.
#[derive(Debug)]
pub struct EnvelopeSender {
    pub name: Option<String>,
    pub email: String,
}

/// One envelope of the listing, its date already formatted.
#[derive(Debug)]
pub struct EnvelopeRow {
    /// Identifier of the message.
    pub id: String,
    pub subject: String,
    /// The `From` senders.
    pub from: Vec<EnvelopeSender>,
    /// The date, formatted with the account's date format.
    pub date: Option<String>,
}

/// The envelope listing.
#[derive(Debug)]
pub struct EnvelopesTable {
    /// Border preset of the table.
    pub preset: String,
    /// How the table adapts to the terminal.
    pub arrangement: TableArrangement,
    /// The rows.
    pub envelopes: Vec<EnvelopeRow>,
}

/// How a sender is shown: its name, else its e-mail.
pub open spec fn sender_label(s: EnvelopeSender) -> Seq<char> {
    match s.name {
        Some(n) => n@,
        None => s.email@,
    }
}

/// How the senders are shown: their labels, separated by `", "`.
pub open spec fn senders_text(from: Seq<EnvelopeSender>) -> Seq<char> {
    join(from.map_values(|s: EnvelopeSender| sender_label(s)), ", "@)
}

/// The cells of one envelope: identifier, subject, senders, date (empty
/// when there is none).
pub open spec fn envelope_cells(e: EnvelopeRow) -> Seq<Seq<char>> {
    seq![
        e.id@,
        e.subject@,
        senders_text(e.from@),
        match e.date {
            Some(d) => d@,
            None => Seq::empty(),
        },
    ]
}

/// The header cells of the envelope listing.
pub open spec fn envelope_header() -> Seq<Seq<char>> {
    seq!["ID"@, "SUBJECT"@, "FROM"@, "DATE"@]
}

/// The body rows of the envelope listing.
pub open spec fn envelope_rows(v: Seq<EnvelopeRow>) -> Seq<Seq<Seq<char>>> {
    v.map_values(|e: EnvelopeRow| envelope_cells(e))
}

/// The senders of an envelope, as shown.
pub fn senders(from: &Vec<EnvelopeSender>) -> (r: String)
    ensures
        r@ == senders_text(from@),
{
    let mut labels: Vec<String> = Vec::new();
    let mut i: usize = 0;
    while i < from.len()
        invariant
            i <= from.len(),
            strings_view(labels@) == from@.take(i as int).map_values(|s: EnvelopeSender| sender_label(s)),
        decreases from.len() - i,
    {
        let label = match &from[i].name {
            Some(n) => n.clone(),
            None => from[i].email.clone(),
        };
        let ghost before = labels@;
        labels.push(label);
        assert(strings_view(labels@) =~= strings_view(before).push(sender_label(from@[i as int])));
        assert(from@.take(i + 1).map_values(|s: EnvelopeSender| sender_label(s)) =~= from@.take(
            i as int,
        ).map_values(|s: EnvelopeSender| sender_label(s)).push(sender_label(from@[i as int])));
        i = i + 1;
    }
    assert(from@.take(from.len() as int) =~= from@);
    join_strings(&labels, ", ")
}

impl EnvelopesTable {
    /// The listing as text: a blank line, the table (header `ID`,
    /// `SUBJECT`, `FROM`, `DATE`, one line per envelope), then a line
    /// break.
    pub fn render(&self) -> (r: String)
        ensures
            exists|w: Option<u16>|
                r@ == seq!['\n'] + #[trigger] table_text(
                    self.preset@,
                    self.arrangement,
                    envelope_header(),
                    envelope_rows(self.envelopes@),
                    1,
                    w,
                ) + seq!['\n'],
    {
        let mut header: Vec<String> = Vec::new();
        header.push(owned("ID"));
        header.push(owned("SUBJECT"));
        header.push(owned("FROM"));
        header.push(owned("DATE"));
        assert(strings_view(header@) =~= envelope_header());
        let mut rows: Vec<Vec<String>> = Vec::new();
        let mut i: usize = 0;
        while i < self.envelopes.len()
            invariant
                i <= self.envelopes.len(),
                rows_view(rows@) == envelope_rows(self.envelopes@.take(i as int)),
            decreases self.envelopes.len() - i,
        {
            let e = &self.envelopes[i];
            let mut cells: Vec<String> = Vec::new();
            cells.push(e.id.clone());
            cells.push(e.subject.clone());
            cells.push(senders(&e.from));
            cells.push(
                match &e.date {
                    Some(d) => d.clone(),
                    None => String::new(),
                },
            );
            assert(strings_view(cells@) =~= envelope_cells(*e));
            let ghost before = rows@;
            rows.push(cells);
            assert(rows_view(rows@) =~= rows_view(before).push(envelope_cells(*e)));
            assert(self.envelopes@.take(i + 1) =~= self.envelopes@.take(i as int).push(*e));
            i = i + 1;
        }
        assert(self.envelopes@.take(self.envelopes.len() as int) =~= self.envelopes@);
        let text = render_table(self.preset.as_str(), self.arrangement, header, rows, 1);
        let mut out: Vec<char> = Vec::new();
        out.push('\n');
        extend_str(&mut out, text.as_str());
        out.push('\n');
        assert(out@ =~= seq!['\n'] + text@ + seq!['\n']);
        string_of(&out)
    }
}

} // verus!
