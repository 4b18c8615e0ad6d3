//! Listing mailboxes.
use vstd::prelude::*;
use crate::backend::{read_backend, select_read_backend, Backend, BackendError};
use crate::config::ConfiguredBackends;
use crate::table::{render_table, rows_view, table_text, TableArrangement};
use crate::text::{extend_str, owned, string_of};
use crate::attachments::strings_view;

verus! {

/// Lists the mailboxes of the account, whatever its backend.
#[derive(Debug)]
pub struct MailboxesListCommand;

impl MailboxesListCommand {
    /// The backend the mailboxes are listed through: JMAP, then IMAP,
    /// then Maildir.
    pub fn backend(&self, c: ConfiguredBackends) -> (r: Result<Backend, BackendError>)
        ensures
            r == read_backend(c),
    {
        select_read_backend(c)
    }
}

/// Mailbox commands.
#[derive(Debug)]
pub enum MailboxCommand {
    List(MailboxesListCommand),
}

impl MailboxCommand {
    /// The backend the command goes through.
    pub fn backend(&self, c: ConfiguredBackends) -> (r: Result<Backend, BackendError>)
        ensures
            r == read_backend(c),
    {
        match self {
            MailboxCommand::List(cmd) => cmd.backend(c),
        }
    }
}

/// One mailbox of the listing.
#[derive(Debug)]
pub struct MailboxRow {
    /// Identifier of the mailbox.
    pub id: String,
    /// Name of the mailbox.
    pub name: String,
}

/// The mailbox listing.
#[derive(Debug)]
pub struct MailboxesTable {
    /// Border preset of the table.
    pub preset: String,
    /// How the table adapts to the terminal.
    pub arrangement: TableArrangement,
    /// The rows.
    pub mailboxes: Vec<MailboxRow>,
}

/// The header cells of the mailbox listing.
pub open spec fn mailbox_header() -> Seq<Seq<char>> {
    seq!["ID"@, "NAME"@]
}

/// The body rows of the mailbox listing: identifier and name.
pub open spec fn mailbox_rows(v: Seq<MailboxRow>) -> Seq<Seq<Seq<char>>> {
    v.map_values(|m: MailboxRow| seq![m.id@, m.name@])
}

impl MailboxesTable {
    /// The listing as text: a blank line, the table (header `ID`,
    /// `NAME`, one line per mailbox), then a line break.
    pub fn render(&self) -> (r: String)
        ensures
            exists|w: Option<u16>|
                r@ == seq!['\n'] + #[trigger] table_text(
                    self.preset@,
                    self.arrangement,
                    mailbox_header(),
                    mailbox_rows(self.mailboxes@),
                    1,
                    w,
                ) + seq!['\n'],
    {
        let mut header: Vec<String> = Vec::new();
        header.push(owned("ID"));
        header.push(owned("NAME"));
        assert(strings_view(header@) =~= mailbox_header());
        let mut rows: Vec<Vec<String>> = Vec::new();
        let mut i: usize = 0;
        while i < self.mailboxes.len()
            invariant
                i <= self.mailboxes.len(),
                rows_view(rows@) == mailbox_rows(self.mailboxes@.take(i as int)),
            decreases self.mailboxes.len() - i,
        {
            let m = &self.mailboxes[i];
            let mut cells: Vec<String> = Vec::new();
            cells.push(m.id.clone());
            cells.push(m.name.clone());
            assert(strings_view(cells@) =~= seq![m.id@, m.name@]);
            let ghost before = rows@;
            rows.push(cells);
            assert(rows_view(rows@) =~= rows_view(before).push(seq![m.id@, m.name@]));
            assert(self.mailboxes@.take(i + 1) =~= self.mailboxes@.take(i as int).push(*m));
            i = i + 1;
        }
        assert(self.mailboxes@.take(self.mailboxes.len() as int) =~= self.mailboxes@);
        let text = render_table(self.preset.as_str(), self.arrangement, header, rows, 1);
        let mut out: Vec<char> = Vec::new();
        out.push('\n');
        extend_str(&mut out, text.as_str());
        out.push('\n');
        assert(out@ =~= seq!['\n'] + text@ + seq!['\n']);
        string_of(&out)
    }
}

} // verus!
