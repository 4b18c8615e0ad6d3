//! Attachments of a message: listing them and planning their download.
//!
//! An attachment is a binary part of a message. Its identifier is its
//! 1-based position in the message's attachment order, whether or not
//! inline parts are shown.
use vstd::prelude::*;
use mail_parser::MimeHeaders;
use crate::filename::{sanitize, sanitized};
use crate::size::{human_size, human_size_text};
use crate::table::{render_table, rows_view, table_text, TableArrangement};
use crate::text::{
    chars_eq, chars_of, dec, decimal, eq_ignore_ascii_case, eq_ignore_ascii_case_chars,
    extend_chars, extend_str, join, join_strings, lemma_dec_injective, lemma_lex_lt_asymmetric,
    lemma_lex_lt_irreflexive, lemma_lex_lt_total, lemma_lex_lt_transitive, lex_less, lex_lt,
    owned, push_decimal, string_of,
};

verus! {

/// The view of an optional string.
pub open spec fn opt_view(o: Option<String>) -> Option<Seq<char>> {
    match o {
        Some(s) => Some(s@),
        None => None,
    }
}

/// A `Content-Type` (or `Content-Disposition`) value: the type and the
/// optional subtype.
#[derive(Debug)]
pub struct MediaType {
    pub c_type: String,
    pub c_subtype: Option<String>,
}

/// One attachment of a parsed message, as the listing and the download
/// read it.
#[derive(Debug)]
pub struct AttachmentPart {
    /// File name from `Content-Disposition: filename=` or
    /// `Content-Type: name=`.
    pub name: Option<String>,
    /// The `Content-Type` header.
    pub content_type: Option<MediaType>,
    /// The type of the `Content-Disposition` header (`inline`,
    /// `attachment`, …).
    pub disposition: Option<String>,
    /// The decoded body.
    pub contents: Vec<u8>,
}

/// What an [`AttachmentPart`] holds, as plain values.
pub struct AttachmentPartView {
    pub name: Option<Seq<char>>,
    pub content_type: Option<(Seq<char>, Option<Seq<char>>)>,
    pub disposition: Option<Seq<char>>,
    pub contents: Seq<u8>,
}

impl View for AttachmentPart {
    type V = AttachmentPartView;

    open spec fn view(&self) -> AttachmentPartView {
        AttachmentPartView {
            name: opt_view(self.name),
            content_type: match self.content_type {
                Some(ct) => Some((ct.c_type@, opt_view(ct.c_subtype))),
                None => None,
            },
            disposition: opt_view(self.disposition),
            contents: self.contents@,
        }
    }
}

/// The views of a list of parts.
pub open spec fn parts_view(parts: Seq<AttachmentPart>) -> Seq<AttachmentPartView> {
    parts.map_values(|p: AttachmentPart| p@)
}

/// The views of an optional list of parts.
pub open spec fn opt_parts_view(o: Option<Vec<AttachmentPart>>) -> Option<Seq<AttachmentPartView>> {
    match o {
        Some(v) => Some(parts_view(v@)),
        None => None,
    }
}

/// The attachments that `mail_parser` finds in a raw RFC 5322 message, in
/// its attachment order, or `None` when it finds no message there.
pub uninterp spec fn parsed_attachments(raw: Seq<u8>) -> Option<Seq<AttachmentPartView>>;

/// Parses a raw message and returns its attachments.
///
/// Trusted: calls `mail_parser::MessageParser::parse` and reads, for each
/// part of `Message::attachments`, its attachment name, content type,
/// content disposition and contents. Stated: the result is a function of
/// the bytes alone, named [`parsed_attachments`].
#[verifier::external_body]
fn parse_attachments(raw: &[u8]) -> (r: Option<Vec<AttachmentPart>>)
    ensures
        opt_parts_view(r) == parsed_attachments(raw@),
{
    let message = mail_parser::MessageParser::new().parse(raw)?;
    Some(message.attachments().map(|part| AttachmentPart {
        name: part.attachment_name().map(str::to_owned),
        content_type: part.content_type().map(|ct| MediaType {
            c_type: ct.c_type.to_string(),
            c_subtype: ct.c_subtype.as_ref().map(|s| s.to_string()),
        }),
        disposition: part.content_disposition().map(|cd| cd.c_type.to_string()),
        contents: part.contents().to_vec(),
    }).collect())
}

/// The text `"inline"`.
pub open spec fn inline_word() -> Seq<char> {
    seq!['i', 'n', 'l', 'i', 'n', 'e']
}

/// A part is inline when its `Content-Disposition` type is `inline`, in
/// any ASCII case.
pub open spec fn part_is_inline(p: AttachmentPartView) -> bool {
    match p.disposition {
        Some(d) => eq_ignore_ascii_case(d, inline_word()),
        None => false,
    }
}

/// The MIME type of a part: `"type/subtype"`, or `"type"` without a
/// subtype.
pub open spec fn part_mime(p: AttachmentPartView) -> Option<Seq<char>> {
    match p.content_type {
        Some((t, Some(s))) => Some(t + seq!['/'] + s),
        Some((t, None)) => Some(t),
        None => None,
    }
}

/// The identifier of the part at index `i`: its 1-based position.
pub open spec fn part_id(i: nat) -> Seq<char> {
    dec(i + 1)
}

/// One row of the attachment listing.
#[derive(Debug)]
pub struct Attachment {
    /// 1-based position in the message's attachment order, the same with
    /// or without inline parts.
    pub id: String,
    /// File name of the part, `None` when the message gives none.
    pub filename: Option<String>,
    /// MIME type (e.g. `"application/pdf"`), `None` without a
    /// `Content-Type` header.
    pub mime: Option<String>,
    /// Size in bytes of the decoded body.
    pub size: u64,
    /// `true` when the part carries `Content-Disposition: inline`.
    pub inline: bool,
}

/// What an [`Attachment`] holds, as plain values.
pub struct AttachmentView {
    pub id: Seq<char>,
    pub filename: Option<Seq<char>>,
    pub mime: Option<Seq<char>>,
    pub size: nat,
    pub inline: bool,
}

impl View for Attachment {
    type V = AttachmentView;

    open spec fn view(&self) -> AttachmentView {
        AttachmentView {
            id: self.id@,
            filename: opt_view(self.filename),
            mime: opt_view(self.mime),
            size: self.size as nat,
            inline: self.inline,
        }
    }
}

/// The listing row of the part at index `i`.
pub open spec fn attachment_of(p: AttachmentPartView, i: nat) -> AttachmentView {
    AttachmentView {
        id: part_id(i),
        filename: p.name,
        mime: part_mime(p),
        size: p.contents.len(),
        inline: part_is_inline(p),
    }
}

/// The rows listed for the first `n` parts: every part, except inline
/// ones when `with_inline` is off, in order.
pub open spec fn listed(parts: Seq<AttachmentPartView>, n: nat, with_inline: bool) -> Seq<
    AttachmentView,
>
    decreases n,
{
    if n == 0 {
        Seq::empty()
    } else {
        let i = (n - 1) as nat;
        let rest = listed(parts, i, with_inline);
        if part_is_inline(parts[i as int]) && !with_inline {
            rest
        } else {
            rest.push(attachment_of(parts[i as int], i))
        }
    }
}

/// The views of a list of rows.
pub open spec fn attachments_view(v: Seq<Attachment>) -> Seq<AttachmentView> {
    v.map_values(|a: Attachment| a@)
}

/// The listing without inline parts is the listing with them, less the
/// inline rows: a part keeps its identifier either way.
pub proof fn lemma_listing_ids_stable(parts: Seq<AttachmentPartView>, n: nat)
    ensures
        listed(parts, n, false) == listed(parts, n, true).filter(|a: AttachmentView| !a.inline),
    decreases n,
{
    reveal_with_fuel(Seq::filter, 1);
    if n > 0 {
        let i = (n - 1) as nat;
        lemma_listing_ids_stable(parts, i);
        let all = listed(parts, i, true);
        assert(listed(parts, n, true) == all.push(attachment_of(parts[i as int], i)));
        assert(listed(parts, n, true).drop_last() == all);
    }
}

/// The text `"Failed to parse RFC 5322 message"`.
pub open spec fn parse_failure_text() -> Seq<char> {
    "Failed to parse RFC 5322 message"@
}

/// The bytes handed in are not an RFC 5322 message.
#[derive(Clone, Copy, Debug, PartialEq, Eq, Structural)]
pub struct MessageParseError;

impl MessageParseError {
    /// The error's text.
    pub fn message(&self) -> (r: String)
        ensures
            r@ == parse_failure_text(),
    {
        owned("Failed to parse RFC 5322 message")
    }
}

/// Whether the part is inline (`Content-Disposition: inline`, any ASCII
/// case).
pub fn is_inline(part: &AttachmentPart) -> (r: bool)
    ensures
        r == part_is_inline(part@),
{
    match &part.disposition {
        Some(d) => {
            let dv = chars_of(d.as_str());
            let w = chars_of("inline");
            proof {
                reveal_strlit("inline");
            }
            eq_ignore_ascii_case_chars(&dv, &w)
        },
        None => false,
    }
}

/// The part's MIME type, `"type/subtype"` or `"type"`.
pub fn mime_string(part: &AttachmentPart) -> (r: Option<String>)
    ensures
        opt_view(r) == part_mime(part@),
{
    match &part.content_type {
        Some(ct) => match &ct.c_subtype {
            Some(sub) => {
                let mut v = chars_of(ct.c_type.as_str());
                v.push('/');
                extend_str(&mut v, sub.as_str());
                Some(string_of(&v))
            },
            None => Some(ct.c_type.clone()),
        },
        None => None,
    }
}

/// The attachments of a single message, as listed.
#[derive(Debug)]
pub struct AttachmentListCommand {
    /// Mailbox holding the message.
    pub mailbox_id: String,
    /// Identifier of the message.
    pub message_id: String,
    /// Include parts with `Content-Disposition: inline`.
    pub inline: bool,
}

impl AttachmentListCommand {
    /// The listing rows for the parts of a message.
    pub fn collect(&self, parts: &Vec<AttachmentPart>) -> (r: Vec<Attachment>)
        ensures
            attachments_view(r@) == listed(parts_view(parts@), parts.len() as nat, self.inline),
    {
        let ghost pv = parts_view(parts@);
        let mut out: Vec<Attachment> = Vec::new();
        let mut i: usize = 0;
        while i < parts.len()
            invariant
                i <= parts.len(),
                pv == parts_view(parts@),
                attachments_view(out@) == listed(pv, i as nat, self.inline),
            decreases parts.len() - i,
        {
            let part = &parts[i];
            assert(pv[i as int] == part@);
            let inline = is_inline(part);
            if !(inline && !self.inline) {
                let a = Attachment {
                    id: decimal((i + 1) as u64),
                    filename: part.name.clone(),
                    mime: mime_string(part),
                    size: part.contents.len() as u64,
                    inline,
                };
                let ghost before = out@;
                out.push(a);
                assert(attachments_view(out@) =~= attachments_view(before).push(a@));
            }
            i = i + 1;
        }
        out
    }

    /// The listing rows for a raw message, or the parse failure.
    pub fn attachments(&self, raw: &[u8]) -> (r: Result<Vec<Attachment>, MessageParseError>)
        ensures
            match r {
                Ok(v) => exists|ps: Seq<AttachmentPartView>|
                    parsed_attachments(raw@) == Some(ps) && #[trigger] attachments_view(v@)
                        == listed(ps, ps.len(), self.inline),
                Err(_) => parsed_attachments(raw@) is None,
            },
    {
        match parse_attachments(raw) {
            Some(parts) => {
                let v = self.collect(&parts);
                assert(parts_view(parts@).len() == parts.len());
                Ok(v)
            },
            None => Err(MessageParseError),
        }
    }
}

/// The rendered attachment listing.
#[derive(Debug)]
pub struct Attachments {
    /// Border preset of the table.
    pub preset: String,
    /// How the table adapts to the terminal.
    pub arrangement: TableArrangement,
    /// Whether the `INLINE` column is shown.
    pub with_inline: bool,
    /// The rows.
    pub attachments: Vec<Attachment>,
}

/// The header cells of the listing.
pub open spec fn header_cells(with_inline: bool) -> Seq<Seq<char>> {
    let base = seq!["ID"@, "FILENAME"@, "TYPE"@, "SIZE"@];
    if with_inline {
        base.push("INLINE"@)
    } else {
        base
    }
}

/// The cells of one row of the listing.
pub open spec fn row_cells(a: AttachmentView, with_inline: bool) -> Seq<Seq<char>> {
    let base = seq![
        a.id,
        match a.filename {
            Some(f) => f,
            None => Seq::empty(),
        },
        match a.mime {
            Some(m) => m,
            None => Seq::empty(),
        },
        human_size_text(a.size),
    ];
    if with_inline {
        base.push(if a.inline { "yes"@ } else { "no"@ })
    } else {
        base
    }
}

/// The views of a list of strings.
pub open spec fn strings_view(v: Seq<String>) -> Seq<Seq<char>> {
    v.map_values(|s: String| s@)
}

impl Attachments {
    /// The header cells: `ID`, `FILENAME`, `TYPE`, `SIZE`, and `INLINE`
    /// when inline parts are shown.
    pub fn header(&self) -> (r: Vec<String>)
        ensures
            strings_view(r@) == header_cells(self.with_inline),
    {
        let mut r: Vec<String> = Vec::new();
        r.push(owned("ID"));
        r.push(owned("FILENAME"));
        r.push(owned("TYPE"));
        r.push(owned("SIZE"));
        if self.with_inline {
            r.push(owned("INLINE"));
        }
        assert(strings_view(r@) =~= header_cells(self.with_inline));
        r
    }

    /// The cells of the row for `a`: identifier, file name, MIME type and
    /// human-readable size (empty cells for what is missing), and `yes`
    /// or `no` when inline parts are shown.
    pub fn row(&self, a: &Attachment) -> (r: Vec<String>)
        ensures
            strings_view(r@) == row_cells(a@, self.with_inline),
    {
        let mut r: Vec<String> = Vec::new();
        r.push(a.id.clone());
        r.push(
            match &a.filename {
                Some(f) => f.clone(),
                None => String::new(),
            },
        );
        r.push(
            match &a.mime {
                Some(m) => m.clone(),
                None => String::new(),
            },
        );
        r.push(human_size(a.size));
        if self.with_inline {
            r.push(
                if a.inline {
                    owned("yes")
                } else {
                    owned("no")
                },
            );
        }
        assert(strings_view(r@) =~= row_cells(a@, self.with_inline));
        r
    }

    /// The listing as text: a blank line, then the table with the
    /// account's preset and arrangement, the header cells and one row per
    /// attachment (each at most one line high), then a line break.
    pub fn render(&self) -> (r: String)
        ensures
            exists|w: Option<u16>|
                r@ == seq!['\n'] + #[trigger] table_text(
                    self.preset@,
                    self.arrangement,
                    header_cells(self.with_inline),
                    listing_rows(attachments_view(self.attachments@), self.with_inline),
                    1,
                    w,
                ) + seq!['\n'],
    {
        let ghost av = attachments_view(self.attachments@);
        let mut rows: Vec<Vec<String>> = Vec::new();
        let mut i: usize = 0;
        while i < self.attachments.len()
            invariant
                i <= self.attachments.len(),
                av == attachments_view(self.attachments@),
                rows_view(rows@) == listing_rows(av.take(i as int), self.with_inline),
            decreases self.attachments.len() - i,
        {
            let cells = self.row(&self.attachments[i]);
            let ghost before = rows@;
            rows.push(cells);
            assert(rows_view(rows@) =~= rows_view(before).push(strings_view(cells@)));
            assert(av.take(i + 1) =~= av.take(i as int).push(av[i as int]));
            i = i + 1;
            assert(listing_rows(av.take(i as int), self.with_inline) =~= listing_rows(
                av.take(i - 1),
                self.with_inline,
            ).push(row_cells(av[i - 1], self.with_inline)));
        }
        assert(av.take(self.attachments.len() as int) =~= av);
        let text = render_table(self.preset.as_str(), self.arrangement, self.header(), rows, 1);
        let mut out: Vec<char> = Vec::new();
        out.push('\n');
        extend_str(&mut out, text.as_str());
        out.push('\n');
        assert(out@ =~= seq!['\n'] + text@ + seq!['\n']);
        string_of(&out)
    }
}

/// The body rows of the listing: the cells of each attachment's row.
pub open spec fn listing_rows(v: Seq<AttachmentView>, with_inline: bool) -> Seq<Seq<Seq<char>>> {
    v.map_values(|a: AttachmentView| row_cells(a, with_inline))
}

/// Whether the download asks for the part at index `i`: every part when
/// no identifier is given, else the parts whose identifier is given.
pub open spec fn wanted(ids: Seq<Seq<char>>, i: nat) -> bool {
    ids.len() == 0 || ids.contains(part_id(i))
}

/// The file name a downloaded part is saved under, before sanitizing:
/// its own name, or `"attachment-{id}"`.
pub open spec fn download_name(p: AttachmentPartView, i: nat) -> Seq<char> {
    match p.name {
        Some(n) => n,
        None => "attachment-"@ + part_id(i),
    }
}

/// One part to download, and the (sanitized) file name to save it under.
#[derive(Debug)]
pub struct PlannedDownload {
    /// Index of the part in the message's attachment order.
    pub index: usize,
    /// Identifier of the part (`index + 1`).
    pub id: String,
    /// Sanitized file name.
    pub file_name: String,
}

/// What a [`PlannedDownload`] holds, as plain values.
pub struct PlannedDownloadView {
    pub index: nat,
    pub id: Seq<char>,
    pub file_name: Seq<char>,
}

impl View for PlannedDownload {
    type V = PlannedDownloadView;

    open spec fn view(&self) -> PlannedDownloadView {
        PlannedDownloadView { index: self.index as nat, id: self.id@, file_name: self.file_name@ }
    }
}

/// The views of a list of planned downloads.
pub open spec fn downloads_view(v: Seq<PlannedDownload>) -> Seq<PlannedDownloadView> {
    v.map_values(|d: PlannedDownload| d@)
}

/// The downloads planned among the first `n` parts, in part order.
pub open spec fn planned(parts: Seq<AttachmentPartView>, ids: Seq<Seq<char>>, n: nat) -> Seq<
    PlannedDownloadView,
>
    decreases n,
{
    if n == 0 {
        Seq::empty()
    } else {
        let i = (n - 1) as nat;
        let rest = planned(parts, ids, i);
        if wanted(ids, i) {
            rest.push(
                PlannedDownloadView {
                    index: i,
                    id: part_id(i),
                    file_name: sanitized(download_name(parts[i as int], i)),
                },
            )
        } else {
            rest
        }
    }
}

/// `x` is the identifier of one of the first `n` parts.
pub open spec fn is_part_id(x: Seq<char>, n: nat) -> bool {
    exists|i: nat| i < n && x == #[trigger] part_id(i)
}

/// Strictly increasing in `String` order, hence without duplicates.
pub open spec fn sorted_strict(s: Seq<Seq<char>>) -> bool {
    forall|i: int, j: int| 0 <= i < j < s.len() ==> lex_lt(#[trigger] s[i], #[trigger] s[j])
}

/// `missing` lists, sorted and once each, the requested identifiers that
/// name none of the `n` parts.
pub open spec fn missing_ids(missing: Seq<Seq<char>>, ids: Seq<Seq<char>>, n: nat) -> bool {
    &&& sorted_strict(missing)
    &&& forall|x: Seq<char>| #[trigger] missing.contains(x) <==> (ids.contains(x) && !is_part_id(x, n))
}

/// What a download does with a message's parts: which parts it writes,
/// under which names, and which requested identifiers match no part.
#[derive(Debug)]
pub struct DownloadPlan {
    pub downloads: Vec<PlannedDownload>,
    pub missing: Vec<String>,
}

/// Downloads specific attachments of a single message.
///
/// The attachment identifiers are those of the listing; with none, every
/// attachment is downloaded.
#[derive(Debug)]
pub struct AttachmentDownloadCommand {
    /// Mailbox holding the message.
    pub mailbox_id: String,
    /// Identifier of the message.
    pub message_id: String,
    /// Identifiers of the attachments to download; empty for all.
    pub attachment_ids: Vec<String>,
    /// Destination directory, overriding the configured one.
    pub dir: Option<String>,
}

/// The text `"Downloaded {n} attachment(s):\n - {path}\n - {path}…"`.
pub open spec fn download_summary_text(paths: Seq<Seq<char>>) -> Seq<char> {
    "Downloaded "@ + dec(paths.len()) + " attachment(s):\n - "@ + join(paths, "\n - "@)
}

/// The text `"no attachment with id {ids} on message `{message}`"`.
pub open spec fn missing_text(missing: Seq<Seq<char>>, message_id: Seq<char>) -> Seq<char> {
    "no attachment with id "@ + join(missing, ", "@) + " on message `"@ + message_id + "`"@
}

/// A download writes exactly the wanted parts, each once and in order,
/// under the identifier the listing shows for that part and under its
/// sanitized name.
pub proof fn lemma_planned_downloads(parts: Seq<AttachmentPartView>, ids: Seq<Seq<char>>, n: nat)
    requires
        n <= parts.len(),
    ensures
        forall|j: int|
            0 <= j < planned(parts, ids, n).len() ==> {
                let d = #[trigger] planned(parts, ids, n)[j];
                &&& d.index < n
                &&& wanted(ids, d.index)
                &&& d.id == attachment_of(parts[d.index as int], d.index).id
                &&& d.file_name == sanitized(download_name(parts[d.index as int], d.index))
            },
        forall|j: int, k: int|
            0 <= j < k < planned(parts, ids, n).len() ==> #[trigger] planned(parts, ids, n)[j].index
                < #[trigger] planned(parts, ids, n)[k].index,
        forall|i: nat|
            i < n && wanted(ids, i) ==> exists|j: int|
                0 <= j < planned(parts, ids, n).len() && #[trigger] planned(parts, ids, n)[j].index
                    == i,
    decreases n,
{
    if n > 0 {
        let i = (n - 1) as nat;
        lemma_planned_downloads(parts, ids, i);
        let prev = planned(parts, ids, i);
        let cur = planned(parts, ids, n);
        assert forall|j: int| 0 <= j < prev.len() implies #[trigger] cur[j] == prev[j] by {}
        assert forall|m: nat| m < n && wanted(ids, m) implies exists|j: int|
            0 <= j < cur.len() && #[trigger] cur[j].index == m by {
            if m < i {
                let j = choose|j: int| 0 <= j < prev.len() && #[trigger] prev[j].index == m;
                assert(cur[j] == prev[j]);
            } else {
                assert(cur[cur.len() - 1].index == m);
            }
        }
    }
}

/// With no identifier given, a download writes every part, in order.
pub proof fn lemma_download_all(parts: Seq<AttachmentPartView>, n: nat)
    ensures
        planned(parts, Seq::empty(), n).len() == n,
        forall|j: int| 0 <= j < n ==> #[trigger] planned(parts, Seq::empty(), n)[j].index == j,
    decreases n,
{
    if n > 0 {
        lemma_download_all(parts, (n - 1) as nat);
    }
}

/// Whether `x` is the identifier of one of the first `n` parts.
fn names_a_part(x: &Vec<char>, n: usize) -> (r: bool)
    ensures
        r == is_part_id(x@, n as nat),
{
    let mut k: usize = 0;
    while k < n
        invariant
            k <= n,
            forall|i: nat| i < k ==> x@ != #[trigger] part_id(i),
        decreases n - k,
    {
        let mut d: Vec<char> = Vec::new();
        push_decimal(&mut d, (k + 1) as u64);
        if chars_eq(x, &d) {
            assert(x@ == part_id(k as nat));
            return true;
        }
        k = k + 1;
    }
    false
}

/// Whether `x` is among `ids`.
fn contains_id(ids: &Vec<String>, x: &Vec<char>) -> (r: bool)
    ensures
        r == strings_view(ids@).contains(x@),
{
    let ghost v = strings_view(ids@);
    let mut k: usize = 0;
    while k < ids.len()
        invariant
            k <= ids.len(),
            v == strings_view(ids@),
            forall|j: int| 0 <= j < k ==> v[j] != x@,
        decreases ids.len() - k,
    {
        let c = chars_of(ids[k].as_str());
        if chars_eq(&c, x) {
            assert(v[k as int] == x@);
            return true;
        }
        k = k + 1;
    }
    false
}

/// Inserts `x` into the strictly sorted `m`, unless it is already there.
fn insert_sorted(m: &mut Vec<String>, x: String)
    requires
        sorted_strict(strings_view(old(m)@)),
    ensures
        sorted_strict(strings_view(final(m)@)),
        forall|y: Seq<char>| #[trigger] strings_view(final(m)@).contains(y) <==> (strings_view(
            old(m)@,
        ).contains(y) || y == x@),
{
    let ghost old_v = strings_view(m@);
    let xc = chars_of(x.as_str());
    let mut pos: usize = 0;
    while pos < m.len() && lex_less(&chars_of(m[pos].as_str()), &xc)
        invariant
            pos <= m.len(),
            m@ == old(m)@,
            old_v == strings_view(m@),
            xc@ == x@,
            forall|j: int| 0 <= j < pos ==> lex_lt(#[trigger] old_v[j], x@),
        decreases m.len() - pos,
    {
        pos = pos + 1;
    }
    if pos < m.len() && chars_eq(&chars_of(m[pos].as_str()), &xc) {
        assert(old_v[pos as int] == x@);
        assert(old_v.contains(x@));
        return;
    }
    proof {
        if pos < m.len() {
            lemma_lex_lt_total(x@, old_v[pos as int]);
            assert(lex_lt(x@, old_v[pos as int]));
            assert forall|j: int| pos <= j < old_v.len() implies lex_lt(x@, #[trigger] old_v[j]) by {
                if j > pos {
                    lemma_lex_lt_transitive(x@, old_v[pos as int], old_v[j]);
                }
            }
        }
    }
    m.insert(pos, x);
    proof {
        let nv = strings_view(m@);
        assert(nv =~= old_v.insert(pos as int, x@));
        assert forall|i: int, j: int| 0 <= i < j < nv.len() implies lex_lt(#[trigger] nv[i], #[trigger] nv[j]) by {
            if j < pos {
            } else if j == pos {
            } else if i < pos {
                assert(nv[j] == old_v[j - 1]);
                if i < j - 1 {
                } else {
                }
                lemma_lex_lt_transitive(nv[i], x@, nv[j]);
            } else if i == pos {
                assert(nv[j] == old_v[j - 1]);
            } else {
                assert(nv[i] == old_v[i - 1]);
                assert(nv[j] == old_v[j - 1]);
            }
        }
        assert forall|y: Seq<char>| #[trigger] nv.contains(y) <==> (old_v.contains(y) || y == x@) by {
            if old_v.contains(y) {
                let k = choose|k: int| 0 <= k < old_v.len() && #[trigger] old_v[k] == y;
                if k < pos {
                    assert(nv[k] == y);
                } else {
                    assert(nv[k + 1] == y);
                }
            }
            if y == x@ {
                assert(nv[pos as int] == x@);
            }
            if nv.contains(y) {
                let k = choose|k: int| 0 <= k < nv.len() && #[trigger] nv[k] == y;
                if k < pos {
                    assert(old_v[k] == y);
                } else if k > pos {
                    assert(old_v[k - 1] == y);
                }
            }
        }
    }
}

impl AttachmentDownloadCommand {
    /// The parts to download and the requested identifiers that match no
    /// part. A part is wanted when no identifier is given or when its
    /// identifier is; it is saved under its sanitized name, or
    /// `attachment-{id}` when it has none.
    pub fn plan(&self, parts: &Vec<AttachmentPart>) -> (r: DownloadPlan)
        ensures
            downloads_view(r.downloads@) == planned(
                parts_view(parts@),
                strings_view(self.attachment_ids@),
                parts.len() as nat,
            ),
            missing_ids(
                strings_view(r.missing@),
                strings_view(self.attachment_ids@),
                parts.len() as nat,
            ),
    {
        let ghost pv = parts_view(parts@);
        let ghost ids = strings_view(self.attachment_ids@);
        let wanted_all = self.attachment_ids.len() == 0;
        let mut downloads: Vec<PlannedDownload> = Vec::new();
        let mut i: usize = 0;
        while i < parts.len()
            invariant
                i <= parts.len(),
                pv == parts_view(parts@),
                ids == strings_view(self.attachment_ids@),
                wanted_all == (self.attachment_ids@.len() == 0),
                downloads_view(downloads@) == planned(pv, ids, i as nat),
            decreases parts.len() - i,
        {
            let mut idc: Vec<char> = Vec::new();
            push_decimal(&mut idc, (i + 1) as u64);
            assert(idc@ == part_id(i as nat));
            let take = wanted_all || contains_id(&self.attachment_ids, &idc);
            if take {
                let part = &parts[i];
                assert(pv[i as int] == part@);
                let name = match &part.name {
                    Some(n) => n.clone(),
                    None => {
                        let mut v = chars_of("attachment-");
                        extend_chars(&mut v, &idc);
                        proof {
                            reveal_strlit("attachment-");
                        }
                        string_of(&v)
                    },
                };
                assert(name@ == download_name(part@, i as nat));
                let d = PlannedDownload {
                    index: i,
                    id: string_of(&idc),
                    file_name: sanitize(name.as_str()),
                };
                let ghost before = downloads@;
                downloads.push(d);
                assert(downloads_view(downloads@) =~= downloads_view(before).push(d@));
            }
            i = i + 1;
        }
        let mut missing: Vec<String> = Vec::new();
        let mut k: usize = 0;
        while k < self.attachment_ids.len()
            invariant
                k <= self.attachment_ids.len(),
                ids == strings_view(self.attachment_ids@),
                sorted_strict(strings_view(missing@)),
                forall|x: Seq<char>| #[trigger] strings_view(missing@).contains(x) <==> (
                ids.take(k as int).contains(x) && !is_part_id(x, parts.len() as nat)),
            decreases self.attachment_ids.len() - k,
        {
            let x = chars_of(self.attachment_ids[k].as_str());
            assert(ids[k as int] == x@);
            let ghost before = strings_view(missing@);
            if !names_a_part(&x, parts.len()) {
                insert_sorted(&mut missing, self.attachment_ids[k].clone());
            }
            proof {
                assert forall|y: Seq<char>| #[trigger] ids.take(k + 1).contains(y) <==> (ids.take(
                    k as int,
                ).contains(y) || y == x@) by {
                    if ids.take(k + 1).contains(y) {
                        let j = choose|j: int| 0 <= j < k + 1 && #[trigger] ids.take(k + 1)[j] == y;
                        if j < k {
                            assert(ids.take(k as int)[j] == y);
                        }
                    }
                    if ids.take(k as int).contains(y) {
                        let j = choose|j: int| 0 <= j < k && #[trigger] ids.take(k as int)[j] == y;
                        assert(ids.take(k + 1)[j] == y);
                    }
                    if y == x@ {
                        assert(ids.take(k + 1)[k as int] == y);
                    }
                }
            }
            k = k + 1;
        }
        assert(ids.take(self.attachment_ids.len() as int) == ids);
        DownloadPlan { downloads, missing }
    }

    /// The parts of a raw message and the plan for downloading them, or
    /// the parse failure.
    pub fn plan_raw(&self, raw: &[u8]) -> (r: Result<(Vec<AttachmentPart>, DownloadPlan), MessageParseError>)
        ensures
            match r {
                Ok((parts, plan)) => {
                    &&& parsed_attachments(raw@) == Some(parts_view(parts@))
                    &&& downloads_view(plan.downloads@) == planned(
                        parts_view(parts@),
                        strings_view(self.attachment_ids@),
                        parts.len() as nat,
                    )
                    &&& missing_ids(
                        strings_view(plan.missing@),
                        strings_view(self.attachment_ids@),
                        parts.len() as nat,
                    )
                },
                Err(_) => parsed_attachments(raw@) is None,
            },
    {
        match parse_attachments(raw) {
            Some(parts) => {
                let plan = self.plan(&parts);
                Ok((parts, plan))
            },
            None => Err(MessageParseError),
        }
    }

    /// The destination directory: the one given, else the account's.
    pub fn target_dir(&self, account_dir: &String) -> (r: String)
        ensures
            r@ == match self.dir {
                Some(d) => d@,
                None => account_dir@,
            },
    {
        match &self.dir {
            Some(d) => d.clone(),
            None => account_dir.clone(),
        }
    }

    /// The error for requested identifiers that match no part.
    pub fn missing_error(&self, missing: &Vec<String>) -> (r: String)
        ensures
            r@ == missing_text(strings_view(missing@), self.message_id@),
    {
        let mut v = chars_of("no attachment with id ");
        let ids = join_strings(missing, ", ");
        extend_str(&mut v, ids.as_str());
        extend_str(&mut v, " on message `");
        extend_str(&mut v, self.message_id.as_str());
        v.push('`');
        proof {
            reveal_strlit("no attachment with id ");
            reveal_strlit(", ");
            reveal_strlit(" on message `");
            reveal_strlit("`");
        }
        assert(v@ =~= missing_text(strings_view(missing@), self.message_id@));
        string_of(&v)
    }
}

/// The message printed after a download, listing the written paths.
pub fn download_summary(paths: &Vec<String>) -> (r: String)
    ensures
        r@ == download_summary_text(strings_view(paths@)),
{
    let mut v = chars_of("Downloaded ");
    push_decimal(&mut v, paths.len() as u64);
    extend_str(&mut v, " attachment(s):\n - ");
    let joined = join_strings(paths, "\n - ");
    extend_str(&mut v, joined.as_str());
    proof {
        reveal_strlit("Downloaded ");
        reveal_strlit(" attachment(s):\n - ");
        reveal_strlit("\n - ");
    }
    assert(v@ =~= download_summary_text(strings_view(paths@)));
    string_of(&v)
}


/// Attachment commands.
#[derive(Debug)]
pub enum AttachmentCommand {
    List(AttachmentListCommand),
    Download(AttachmentDownloadCommand),
}

} // verus!
