//! Messages: the SMTP envelope of a message to send, the raw text sent,
//! and the plain rendering of a fetched message.
use vstd::prelude::*;
use mail_parser::{Addr, Address as A, HeaderValue as V};
use crate::attachments::{opt_view, strings_view};
use crate::backend::{
    message_backend, select_message_backend, select_send_backend, send_backend, Backend,
    BackendError,
};
use crate::config::ConfiguredBackends;
use crate::text::{
    chars_eq, chars_of, extend_chars, extend_str, find_char, join, join_path, join_path_chars,
    join_strings, lemma_find_char, owned, split_once, split_once_chars, string_of, trim, trim_chars,
    trim_end, trim_end_chars,
};

verus! {

// ---------------------------------------------------------------------
// Headers as the SMTP envelope reads them
// ---------------------------------------------------------------------

/// The headers that matter to the envelope.
#[derive(Clone, Copy, Debug, PartialEq, Eq, Structural)]
pub enum HeaderKind {
    From,
    To,
    Cc,
    Bcc,
    Other,
}

/// The address content of a header: a list of addresses, groups of
/// addresses, or anything else. An address is its e-mail part, when the
/// message gives one.
#[derive(Debug)]
pub enum AddressValue {
    List(Vec<Option<String>>),
    Group(Vec<Vec<Option<String>>>),
    Other,
}

/// One header of a message, reduced to its name and addresses.
#[derive(Debug)]
pub struct HeaderAddresses {
    pub name: String,
    pub value: AddressValue,
}

/// What an [`AddressValue`] holds, as plain values.
pub enum AddressValueView {
    List(Seq<Option<Seq<char>>>),
    Group(Seq<Seq<Option<Seq<char>>>>),
    Other,
}

/// What a [`HeaderAddresses`] holds, as plain values.
pub struct HeaderAddressesView {
    pub name: Seq<char>,
    pub value: AddressValueView,
}

/// The kind of a header, by its (canonical) name.
pub open spec fn kind_of(name: Seq<char>) -> HeaderKind {
    if name == "From"@ {
        HeaderKind::From
    } else if name == "To"@ {
        HeaderKind::To
    } else if name == "Cc"@ {
        HeaderKind::Cc
    } else if name == "Bcc"@ {
        HeaderKind::Bcc
    } else {
        HeaderKind::Other
    }
}

/// The kind of a header, by its (canonical) name: `From`, `To`, `Cc`,
/// `Bcc`, or another one.
pub fn header_kind(name: &String) -> (r: HeaderKind)
    ensures
        r == kind_of(name@),
{
    let v = chars_of(name.as_str());
    let from = chars_of("From");
    let to = chars_of("To");
    let cc = chars_of("Cc");
    let bcc = chars_of("Bcc");
    if chars_eq(&v, &from) {
        HeaderKind::From
    } else if chars_eq(&v, &to) {
        HeaderKind::To
    } else if chars_eq(&v, &cc) {
        HeaderKind::Cc
    } else if chars_eq(&v, &bcc) {
        HeaderKind::Bcc
    } else {
        HeaderKind::Other
    }
}

/// The views of a list of addresses.
pub open spec fn addrs_view(v: Seq<Option<String>>) -> Seq<Option<Seq<char>>> {
    v.map_values(|a: Option<String>| opt_view(a))
}

impl View for HeaderAddresses {
    type V = HeaderAddressesView;

    open spec fn view(&self) -> HeaderAddressesView {
        HeaderAddressesView {
            name: self.name@,
            value: match self.value {
                AddressValue::List(v) => AddressValueView::List(addrs_view(v@)),
                AddressValue::Group(g) => AddressValueView::Group(
                    g@.map_values(|v: Vec<Option<String>>| addrs_view(v@)),
                ),
                AddressValue::Other => AddressValueView::Other,
            },
        }
    }
}

/// The views of an optional list of headers.
pub open spec fn opt_headers_view(o: Option<Vec<HeaderAddresses>>) -> Option<
    Seq<HeaderAddressesView>,
> {
    match o {
        Some(v) => Some(v@.map_values(|h: HeaderAddresses| h@)),
        None => None,
    }
}

/// The headers that `mail_parser` reads from a raw message, in order,
/// or `None` when it finds no headers there.
pub uninterp spec fn parsed_headers(msg: Seq<u8>) -> Option<Seq<HeaderAddressesView>>;

/// Parses the headers of a raw message.
///
/// Trusted: calls `mail_parser::MessageParser::parse_headers` and reads,
/// for each header of `Message::headers`, its name (`HeaderName::as_str`,
/// canonical for the headers `mail_parser` knows) and the e-mail part of
/// each address of an address-list or address-group value. Stated: the
/// result is a function of the bytes alone, named [`parsed_headers`].
#[verifier::external_body]
fn parse_header_addresses(msg: &[u8]) -> (r: Option<Vec<HeaderAddresses>>)
    ensures
        opt_headers_view(r) == parsed_headers(msg@),
{
    let p = mail_parser::MessageParser::new().parse_headers(msg)?;
    let addr = |a: &Addr| a.address.as_deref().map(String::from);
    Some(p.headers().iter().map(|h| HeaderAddresses {
        name: h.name.as_str().to_string(),
        value: match h.value() {
            V::Address(A::List(l)) => AddressValue::List(l.iter().map(addr).collect()),
            V::Address(A::Group(g)) => AddressValue::Group(g.iter().map(|g| g.addresses.iter().map(addr).collect()).collect()),
            _ => AddressValue::Other,
        },
    }).collect())
}

/// The e-mail of an address, trimmed, when it is there and not blank.
pub open spec fn valid_email(a: Option<Seq<char>>) -> Option<Seq<char>> {
    match a {
        Some(e) => if trim(e).len() == 0 {
            None
        } else {
            Some(trim(e))
        },
        None => None,
    }
}

/// The valid e-mails of a list of addresses, in order.
pub open spec fn valid_emails(addrs: Seq<Option<Seq<char>>>) -> Seq<Seq<char>>
    decreases addrs.len(),
{
    if addrs.len() == 0 {
        Seq::empty()
    } else {
        valid_emails(addrs.drop_last()) + match valid_email(addrs.last()) {
            Some(e) => seq![e],
            None => Seq::empty(),
        }
    }
}

/// The valid e-mails of groups of addresses, group after group.
pub open spec fn group_emails(groups: Seq<Seq<Option<Seq<char>>>>) -> Seq<Seq<char>>
    decreases groups.len(),
{
    if groups.len() == 0 {
        Seq::empty()
    } else {
        group_emails(groups.drop_last()) + valid_emails(groups.last())
    }
}

/// The sender a `From` header gives: the first address of a list, or
/// the first address of the first group, when it is valid.
pub open spec fn from_candidate(h: HeaderAddressesView) -> Option<Seq<char>> {
    if kind_of(h.name) == HeaderKind::From {
        match h.value {
            AddressValueView::List(a) => if a.len() > 0 {
                valid_email(a[0])
            } else {
                None
            },
            AddressValueView::Group(g) => if g.len() > 0 && g[0].len() > 0 {
                valid_email(g[0][0])
            } else {
                None
            },
            AddressValueView::Other => None,
        }
    } else {
        None
    }
}

/// The recipients a `To`, `Cc` or `Bcc` header gives: every valid
/// address, in order.
pub open spec fn rcpt_candidates(h: HeaderAddressesView) -> Seq<Seq<char>> {
    if kind_of(h.name) == HeaderKind::To || kind_of(h.name) == HeaderKind::Cc || kind_of(h.name)
        == HeaderKind::Bcc {
        match h.value {
            AddressValueView::List(a) => valid_emails(a),
            AddressValueView::Group(g) => group_emails(g),
            AddressValueView::Other => Seq::empty(),
        }
    } else {
        Seq::empty()
    }
}

/// The sender of a message: the one given by the last `From` header that
/// gives one.
pub open spec fn sender(hs: Seq<HeaderAddressesView>) -> Option<Seq<char>>
    decreases hs.len(),
{
    if hs.len() == 0 {
        None
    } else {
        match from_candidate(hs.last()) {
            Some(e) => Some(e),
            None => sender(hs.drop_last()),
        }
    }
}

/// Every recipient the `To`, `Cc` and `Bcc` headers give, in order, with
/// repetitions.
pub open spec fn all_rcpts(hs: Seq<HeaderAddressesView>) -> Seq<Seq<char>>
    decreases hs.len(),
{
    if hs.len() == 0 {
        Seq::empty()
    } else {
        all_rcpts(hs.drop_last()) + rcpt_candidates(hs.last())
    }
}

/// `s` without repetitions, each element kept at its first occurrence.
pub open spec fn dedup(s: Seq<Seq<char>>) -> Seq<Seq<char>>
    decreases s.len(),
{
    if s.len() == 0 {
        Seq::empty()
    } else if dedup(s.drop_last()).contains(s.last()) {
        dedup(s.drop_last())
    } else {
        dedup(s.drop_last()).push(s.last())
    }
}

/// `dedup` keeps every element of `s` and repeats none.
proof fn lemma_dedup(s: Seq<Seq<char>>)
    ensures
        dedup(s).no_duplicates(),
        forall|e: Seq<char>| #[trigger] dedup(s).contains(e) <==> s.contains(e),
    decreases s.len(),
{
    if s.len() > 0 {
        let t = s.drop_last();
        let x = s.last();
        lemma_dedup(t);
        assert forall|e: Seq<char>| s.contains(e) <==> (t.contains(e) || e == x) by {
            if s.contains(e) {
                let i = choose|i: int| 0 <= i < s.len() && s[i] == e;
                if i < s.len() - 1 {
                    assert(t[i] == e);
                }
            }
            if t.contains(e) {
                let i = choose|i: int| 0 <= i < t.len() && t[i] == e;
                assert(s[i] == e);
            }
            if e == x {
                assert(s[s.len() - 1] == e);
            }
        }
        let dt = dedup(t);
        if !dt.contains(x) {
            let d = dt.push(x);
            assert forall|i: int, j: int| 0 <= i < d.len() && 0 <= j < d.len() && i != j implies d[i]
                != d[j] by {
                if i == d.len() - 1 && d[i] == d[j] {
                    assert(dt[j] == x);
                } else if j == d.len() - 1 && d[i] == d[j] {
                    assert(dt[i] == x);
                } else if i < dt.len() && j < dt.len() {
                    assert(d[i] == dt[i] && d[j] == dt[j]);
                }
            }
            assert forall|e: Seq<char>| d.contains(e) <==> (dt.contains(e) || e == x) by {
                if d.contains(e) {
                    let i = choose|i: int| 0 <= i < d.len() && d[i] == e;
                    if i < dt.len() {
                        assert(dt[i] == e);
                    }
                }
                if dt.contains(e) {
                    let i = choose|i: int| 0 <= i < dt.len() && dt[i] == e;
                    assert(d[i] == e);
                }
                if e == x {
                    assert(d[d.len() - 1] == e);
                }
            }
        }
    }
}

/// The recipients of a message, before they are split at `@`, are its
/// valid `To`, `Cc` and `Bcc` addresses, each of them once.
pub proof fn lemma_recipients_once(hs: Seq<HeaderAddressesView>)
    ensures
        dedup(all_rcpts(hs)).no_duplicates(),
        forall|e: Seq<char>| #[trigger] dedup(all_rcpts(hs)).contains(e) <==> all_rcpts(hs).contains(e),
        envelope_of(hs) matches EnvelopeOutcome::Envelope(_, rs) ==> rs == dedup(all_rcpts(hs)).map_values(
            |r: Seq<char>| split_at_sign(r),
        ) && rs.no_duplicates(),
{
    let d = dedup(all_rcpts(hs));
    lemma_dedup(all_rcpts(hs));
    if envelope_of(hs) is Envelope {
        lemma_first_without_at_none(d);
        let rs = d.map_values(|r: Seq<char>| split_at_sign(r));
        assert forall|i: int, j: int| 0 <= i < rs.len() && 0 <= j < rs.len() && i != j implies rs[i]
            != rs[j] by {
            lemma_split_at_sign_rejoins(d[i]);
            lemma_split_at_sign_rejoins(d[j]);
        }
    }
}

/// A valid address of a list of addresses is among its valid e-mails.
proof fn lemma_valid_emails_has(a: Seq<Option<Seq<char>>>, j: int, e: Seq<char>)
    requires
        0 <= j < a.len(),
        a[j] == Some(e),
        trim(e).len() > 0,
    ensures
        valid_emails(a).contains(trim(e)),
    decreases a.len(),
{
    let t = a.drop_last();
    if j == a.len() - 1 {
        let v = valid_emails(a);
        assert(v[v.len() - 1] == trim(e));
    } else {
        assert(t[j] == a[j]);
        lemma_valid_emails_has(t, j, e);
        let k = choose|k: int| 0 <= k < valid_emails(t).len() && valid_emails(t)[k] == trim(e);
        assert(valid_emails(a)[k] == trim(e));
    }
}

/// A valid address of a group is among the valid e-mails of the groups.
proof fn lemma_group_emails_has(g: Seq<Seq<Option<Seq<char>>>>, k: int, j: int, e: Seq<char>)
    requires
        0 <= k < g.len(),
        0 <= j < g[k].len(),
        g[k][j] == Some(e),
        trim(e).len() > 0,
    ensures
        group_emails(g).contains(trim(e)),
    decreases g.len(),
{
    let t = g.drop_last();
    if k == g.len() - 1 {
        lemma_valid_emails_has(g[k], j, e);
        let m = choose|m: int| 0 <= m < valid_emails(g[k]).len() && valid_emails(g[k])[m] == trim(e);
        assert(group_emails(g)[group_emails(t).len() + m] == trim(e));
    } else {
        assert(t[k] == g[k]);
        lemma_group_emails_has(t, k, j, e);
        let m = choose|m: int| 0 <= m < group_emails(t).len() && group_emails(t)[m] == trim(e);
        assert(group_emails(g)[m] == trim(e));
    }
}

/// What one header gives is among all the recipients.
proof fn lemma_all_rcpts_has(hs: Seq<HeaderAddressesView>, i: int, x: Seq<char>)
    requires
        0 <= i < hs.len(),
        rcpt_candidates(hs[i]).contains(x),
    ensures
        all_rcpts(hs).contains(x),
    decreases hs.len(),
{
    let t = hs.drop_last();
    if i == hs.len() - 1 {
        let m = choose|m: int| 0 <= m < rcpt_candidates(hs[i]).len() && rcpt_candidates(hs[i])[m] == x;
        assert(all_rcpts(hs)[all_rcpts(t).len() + m] == x);
    } else {
        assert(t[i] == hs[i]);
        lemma_all_rcpts_has(t, i, x);
        let m = choose|m: int| 0 <= m < all_rcpts(t).len() && all_rcpts(t)[m] == x;
        assert(all_rcpts(hs)[m] == x);
    }
}

/// An e-mail that an address of a header gives: the address is there
/// (directly, or in one of the header's groups) and its trimmed e-mail is
/// not blank.
pub open spec fn header_gives(h: HeaderAddressesView, e: Seq<char>) -> bool {
    &&& trim(e).len() > 0
    &&& match h.value {
        AddressValueView::List(a) => a.contains(Some(e)),
        AddressValueView::Group(g) => exists|k: int| 0 <= k < g.len() && #[trigger] g[k].contains(Some(e)),
        AddressValueView::Other => false,
    }
}

/// Every address of a header named `To`, `Cc` or `Bcc` is sent the
/// message: the message has a recipient, and when the envelope is built,
/// the address, trimmed and split at its first `@`, is one of its forward
/// paths.
pub proof fn lemma_every_recipient_is_sent(hs: Seq<HeaderAddressesView>, i: int, e: Seq<char>)
    requires
        0 <= i < hs.len(),
        hs[i].name == "To"@ || hs[i].name == "Cc"@ || hs[i].name == "Bcc"@,
        header_gives(hs[i], e),
    ensures
        !(envelope_of(hs) is NoRecipient),
        envelope_of(hs) matches EnvelopeOutcome::Envelope(_, rs) ==> rs.contains(
            split_at_sign(trim(e)),
        ),
{
    reveal_strlit("From");
    reveal_strlit("To");
    reveal_strlit("Cc");
    reveal_strlit("Bcc");
    let h = hs[i];
    assert(h.name != "From"@) by {
        if h.name == "From"@ {
            assert(h.name.len() == 4);
            assert(h.name[0] == 'F');
        }
    }
    assert(kind_of(h.name) == HeaderKind::To || kind_of(h.name) == HeaderKind::Cc || kind_of(h.name)
        == HeaderKind::Bcc);
    match h.value {
        AddressValueView::List(a) => {
            let j = choose|j: int| 0 <= j < a.len() && a[j] == Some(e);
            lemma_valid_emails_has(a, j, e);
        },
        AddressValueView::Group(g) => {
            let k = choose|k: int| 0 <= k < g.len() && #[trigger] g[k].contains(Some(e));
            let j = choose|j: int| 0 <= j < g[k].len() && g[k][j] == Some(e);
            lemma_group_emails_has(g, k, j, e);
        },
        AddressValueView::Other => {},
    }
    assert(rcpt_candidates(h).contains(trim(e)));
    lemma_all_rcpts_has(hs, i, trim(e));
    lemma_dedup(all_rcpts(hs));
    let d = dedup(all_rcpts(hs));
    assert(d.contains(trim(e)));
    let m = choose|m: int| 0 <= m < d.len() && d[m] == trim(e);
    if envelope_of(hs) is Envelope {
        let rs = d.map_values(|r: Seq<char>| split_at_sign(r));
        assert(rs[m] == split_at_sign(trim(e)));
    }
}

/// A valid e-mail of a list comes from one of its addresses.
proof fn lemma_valid_emails_from(a: Seq<Option<Seq<char>>>, y: Seq<char>)
    requires
        valid_emails(a).contains(y),
    ensures
        exists|e: Seq<char>| a.contains(Some(e)) && trim(e).len() > 0 && y == #[trigger] trim(e),
    decreases a.len(),
{
    let t = a.drop_last();
    let v = valid_emails(t);
    if v.contains(y) {
        lemma_valid_emails_from(t, y);
        let e = choose|e: Seq<char>| t.contains(Some(e)) && trim(e).len() > 0 && y == #[trigger] trim(e);
        let j = choose|j: int| 0 <= j < t.len() && t[j] == Some(e);
        assert(a[j] == Some(e));
    } else {
        let m = choose|m: int| 0 <= m < valid_emails(a).len() && valid_emails(a)[m] == y;
        assert(m >= v.len());
        match a.last() {
            Some(e) => {
                assert(a[a.len() - 1] == Some(e));
                assert(trim(e) == y);
            },
            None => {},
        }
    }
}

/// A valid e-mail of groups comes from an address of one of them.
proof fn lemma_group_emails_from(g: Seq<Seq<Option<Seq<char>>>>, y: Seq<char>)
    requires
        group_emails(g).contains(y),
    ensures
        exists|e: Seq<char>|
            (exists|k: int| 0 <= k < g.len() && #[trigger] g[k].contains(Some(e))) && trim(e).len()
                > 0 && y == #[trigger] trim(e),
    decreases g.len(),
{
    let t = g.drop_last();
    let v = group_emails(t);
    if v.contains(y) {
        lemma_group_emails_from(t, y);
        let e = choose|e: Seq<char>|
            (exists|k: int| 0 <= k < t.len() && #[trigger] t[k].contains(Some(e))) && trim(e).len()
                > 0 && y == #[trigger] trim(e);
        let k = choose|k: int| 0 <= k < t.len() && #[trigger] t[k].contains(Some(e));
        assert(g[k] == t[k]);
    } else {
        let m = choose|m: int| 0 <= m < group_emails(g).len() && group_emails(g)[m] == y;
        assert(valid_emails(g.last())[m - v.len()] == y);
        lemma_valid_emails_from(g.last(), y);
        let e = choose|e: Seq<char>| g.last().contains(Some(e)) && trim(e).len() > 0 && y == #[trigger] trim(e);
        assert(g[g.len() - 1].contains(Some(e)));
    }
}

/// A recipient comes from one of the headers.
proof fn lemma_all_rcpts_from(hs: Seq<HeaderAddressesView>, x: Seq<char>)
    requires
        all_rcpts(hs).contains(x),
    ensures
        exists|i: int| 0 <= i < hs.len() && #[trigger] rcpt_candidates(hs[i]).contains(x),
    decreases hs.len(),
{
    let t = hs.drop_last();
    if all_rcpts(t).contains(x) {
        lemma_all_rcpts_from(t, x);
        let i = choose|i: int| 0 <= i < t.len() && #[trigger] rcpt_candidates(t[i]).contains(x);
        assert(hs[i] == t[i]);
        assert(rcpt_candidates(hs[i]).contains(x));
    } else {
        let m = choose|m: int| 0 <= m < all_rcpts(hs).len() && all_rcpts(hs)[m] == x;
        assert(rcpt_candidates(hs[hs.len() - 1])[m - all_rcpts(t).len()] == x);
        assert(rcpt_candidates(hs[hs.len() - 1]).contains(x));
    }
}

/// Nobody else is sent the message: every forward path of the envelope
/// is an address of a header named `To`, `Cc` or `Bcc`, trimmed and split
/// at its first `@`.
pub proof fn lemma_only_named_recipients(hs: Seq<HeaderAddressesView>, x: (Seq<char>, Seq<char>))
    requires
        envelope_of(hs) matches EnvelopeOutcome::Envelope(_, rs) && rs.contains(x),
    ensures
        exists|i: int, e: Seq<char>|
            0 <= i < hs.len() && (hs[i].name == "To"@ || hs[i].name == "Cc"@ || hs[i].name
                == "Bcc"@) && #[trigger] header_gives(hs[i], e) && x == split_at_sign(trim(e)),
{
    let d = dedup(all_rcpts(hs));
    lemma_dedup(all_rcpts(hs));
    let rs = d.map_values(|r: Seq<char>| split_at_sign(r));
    let m = choose|m: int| 0 <= m < rs.len() && rs[m] == x;
    let y = d[m];
    assert(d.contains(y));
    lemma_all_rcpts_from(hs, y);
    let i = choose|i: int| 0 <= i < hs.len() && #[trigger] rcpt_candidates(hs[i]).contains(y);
    let h = hs[i];
    reveal_strlit("To");
    reveal_strlit("Cc");
    reveal_strlit("Bcc");
    assert(h.name == "To"@ || h.name == "Cc"@ || h.name == "Bcc"@);
    match h.value {
        AddressValueView::List(a) => {
            lemma_valid_emails_from(a, y);
            let e = choose|e: Seq<char>| a.contains(Some(e)) && trim(e).len() > 0 && y == #[trigger] trim(e);
            assert(header_gives(h, e));
        },
        AddressValueView::Group(g) => {
            lemma_group_emails_from(g, y);
            let e = choose|e: Seq<char>|
                (exists|k: int| 0 <= k < g.len() && #[trigger] g[k].contains(Some(e))) && trim(e).len()
                    > 0 && y == #[trigger] trim(e);
            assert(header_gives(h, e));
        },
        AddressValueView::Other => {},
    }
}

/// The e-mail of the first address of a header: the first address of a
/// list, or the first address of the first group.
pub open spec fn first_address(v: AddressValueView) -> Option<Seq<char>> {
    match v {
        AddressValueView::List(a) => if a.len() > 0 {
            a[0]
        } else {
            None
        },
        AddressValueView::Group(g) => if g.len() > 0 && g[0].len() > 0 {
            g[0][0]
        } else {
            None
        },
        AddressValueView::Other => None,
    }
}

/// A header named `From` whose first address has the e-mail `e`, not
/// blank once trimmed.
pub open spec fn gives_sender(h: HeaderAddressesView, e: Seq<char>) -> bool {
    &&& h.name == "From"@
    &&& first_address(h.value) == Some(e)
    &&& trim(e).len() > 0
}

/// What one header gives as sender.
proof fn lemma_from_candidate(h: HeaderAddressesView)
    ensures
        from_candidate(h) matches Some(x) ==> exists|e: Seq<char>| #[trigger] gives_sender(h, e) && x == trim(e),
        forall|e: Seq<char>| #[trigger] gives_sender(h, e) ==> from_candidate(h) == Some(trim(e)),
{
    reveal_strlit("From");
    if let Some(x) = from_candidate(h) {
        let e = first_address(h.value)->0;
        assert(gives_sender(h, e));
    }
}

/// The sender found among the headers is what the last header giving
/// one gives.
proof fn lemma_sender(hs: Seq<HeaderAddressesView>)
    ensures
        sender(hs) matches Some(x) ==> exists|i: int, e: Seq<char>|
            0 <= i < hs.len() && #[trigger] gives_sender(hs[i], e) && x == trim(e) && (forall|j: int, f: Seq<char>|
                i < j < hs.len() ==> !#[trigger] gives_sender(hs[j], f)),
        sender(hs) is None ==> forall|i: int, e: Seq<char>| 0 <= i < hs.len() ==> !#[trigger] gives_sender(hs[i], e),
    decreases hs.len(),
{
    if hs.len() > 0 {
        let t = hs.drop_last();
        let last = hs.len() - 1;
        lemma_sender(t);
        lemma_from_candidate(hs[last]);
        match from_candidate(hs[last]) {
            Some(x) => {
                let e = choose|e: Seq<char>| #[trigger] gives_sender(hs[last], e) && x == trim(e);
                assert(gives_sender(hs[last], e));
            },
            None => {
                assert forall|j: int, f: Seq<char>| 0 <= j < hs.len() && j != last implies
                    #[trigger] gives_sender(hs[j], f) == gives_sender(t[j], f) by {
                    assert(hs[j] == t[j]);
                }
                if let Some(x) = sender(t) {
                    let (i, e) = choose|i: int, e: Seq<char>|
                        0 <= i < t.len() && #[trigger] gives_sender(t[i], e) && x == trim(e) && (forall|j: int, f: Seq<char>|
                            i < j < t.len() ==> !#[trigger] gives_sender(t[j], f));
                    assert(hs[i] == t[i]);
                    assert(gives_sender(hs[i], e));
                    assert forall|j: int, f: Seq<char>| i < j < hs.len() implies !#[trigger] gives_sender(hs[j], f) by {
                        if j < last {
                            assert(hs[j] == t[j]);
                        }
                    }
                }
            },
        }
    }
}

/// The message is sent by the last header named `From` whose first
/// address is valid: a message has a sender exactly when such a header
/// exists, and when the envelope is built its reverse path is that
/// address, trimmed and split at its first `@`.
pub proof fn lemma_sender_is_last_from(hs: Seq<HeaderAddressesView>)
    ensures
        envelope_of(hs) is NoSender <==> !exists|i: int, e: Seq<char>| 0 <= i < hs.len() && #[trigger] gives_sender(hs[i], e),
        envelope_of(hs) matches EnvelopeOutcome::Envelope(f, _) ==> exists|i: int, e: Seq<char>|
            0 <= i < hs.len() && #[trigger] gives_sender(hs[i], e) && f == split_at_sign(trim(e)) && (forall|j: int, g: Seq<char>|
                i < j < hs.len() ==> !#[trigger] gives_sender(hs[j], g)),
{
    lemma_sender(hs);
}

/// When no element lacks an `@`, every element has one.
proof fn lemma_first_without_at_none(s: Seq<Seq<char>>)
    requires
        first_without_at(s) is None,
    ensures
        forall|i: int| 0 <= i < s.len() ==> split_once(#[trigger] s[i], '@') is Some,
    decreases s.len(),
{
    if s.len() > 0 {
        lemma_first_without_at_none(s.drop_first());
        assert forall|i: int| 0 <= i < s.len() implies split_once(#[trigger] s[i], '@') is Some by {
            if i > 0 {
                assert(s[i] == s.drop_first()[i - 1]);
            }
        }
    }
}

/// An e-mail with an `@` is its local part, `@` and its domain.
proof fn lemma_split_at_sign_rejoins(e: Seq<char>)
    requires
        split_once(e, '@') is Some,
    ensures
        e == split_at_sign(e).0 + seq!['@'] + split_at_sign(e).1,
{
    lemma_find_char(e, '@');
    let i = find_char(e, '@');
    assert(e =~= e.take(i) + seq!['@'] + e.skip(i + 1));
}

/// The first element of `s` without an `@`, if any.
pub open spec fn first_without_at(s: Seq<Seq<char>>) -> Option<Seq<char>>
    decreases s.len(),
{
    if s.len() == 0 {
        None
    } else if split_once(s[0], '@') is None {
        Some(s[0])
    } else {
        first_without_at(s.drop_first())
    }
}

/// An e-mail split at its first `@`.
pub open spec fn split_at_sign(e: Seq<char>) -> (Seq<char>, Seq<char>) {
    split_once(e, '@')->0
}

/// What building the envelope of a message gives, as plain values.
pub enum EnvelopeOutcome {
    /// Sender (local part, domain) and recipients.
    Envelope((Seq<char>, Seq<char>), Seq<(Seq<char>, Seq<char>)>),
    InvalidMessage,
    NoSender,
    NoRecipient,
    InvalidSender,
    InvalidRecipient(Seq<char>),
}

/// The envelope of a message with these headers: the sender of the last
/// `From` header that gives a valid one, split at its first `@`; the
/// valid recipients of the `To`, `Cc` and `Bcc` headers, once each,
/// split the same way.
pub open spec fn envelope_of(hs: Seq<HeaderAddressesView>) -> EnvelopeOutcome {
    match sender(hs) {
        None => EnvelopeOutcome::NoSender,
        Some(from) => {
            let rcpts = dedup(all_rcpts(hs));
            if rcpts.len() == 0 {
                EnvelopeOutcome::NoRecipient
            } else if split_once(from, '@') is None {
                EnvelopeOutcome::InvalidSender
            } else {
                match first_without_at(rcpts) {
                    Some(r) => EnvelopeOutcome::InvalidRecipient(r),
                    None => EnvelopeOutcome::Envelope(
                        split_at_sign(from),
                        rcpts.map_values(|r: Seq<char>| split_at_sign(r)),
                    ),
                }
            }
        },
    }
}

/// An SMTP mailbox: the local part and the domain of an e-mail.
#[derive(Debug)]
pub struct SmtpMailbox {
    pub local_part: String,
    pub domain: String,
}

/// The SMTP envelope of a message: `MAIL FROM` and `RCPT TO` mailboxes.
#[derive(Debug)]
pub struct SmtpEnvelope {
    pub reverse_path: SmtpMailbox,
    pub forward_paths: Vec<SmtpMailbox>,
}

/// Why a message cannot be sent.
#[derive(Debug)]
pub enum SmtpEnvelopeError {
    /// The bytes hold no message headers.
    InvalidMessage,
    /// No `From` header gives a valid address.
    NoSender,
    /// No `To`, `Cc` or `Bcc` header gives a valid address.
    NoRecipient,
    /// The sender has no `@`.
    InvalidSender,
    /// This recipient has no `@`.
    InvalidRecipient(String),
}

/// The view of a mailbox.
pub open spec fn mailbox_view(m: SmtpMailbox) -> (Seq<char>, Seq<char>) {
    (m.local_part@, m.domain@)
}

/// What building an envelope returned, as plain values.
pub open spec fn outcome_of(r: Result<SmtpEnvelope, SmtpEnvelopeError>) -> EnvelopeOutcome {
    match r {
        Ok(env) => EnvelopeOutcome::Envelope(
            mailbox_view(env.reverse_path),
            env.forward_paths@.map_values(|m: SmtpMailbox| mailbox_view(m)),
        ),
        Err(SmtpEnvelopeError::InvalidMessage) => EnvelopeOutcome::InvalidMessage,
        Err(SmtpEnvelopeError::NoSender) => EnvelopeOutcome::NoSender,
        Err(SmtpEnvelopeError::NoRecipient) => EnvelopeOutcome::NoRecipient,
        Err(SmtpEnvelopeError::InvalidSender) => EnvelopeOutcome::InvalidSender,
        Err(SmtpEnvelopeError::InvalidRecipient(r)) => EnvelopeOutcome::InvalidRecipient(r@),
    }
}

impl SmtpEnvelopeError {
    /// The error's text.
    pub fn message(&self) -> (r: String)
        ensures
            r@ == match self {
                SmtpEnvelopeError::InvalidMessage => "Invalid message to send"@,
                SmtpEnvelopeError::NoSender => "The message does not contain any sender"@,
                SmtpEnvelopeError::NoRecipient => "The message does not contain any recipient"@,
                SmtpEnvelopeError::InvalidSender => "The message contains an invalid sender"@,
                SmtpEnvelopeError::InvalidRecipient(r) => "The message contains an invalid recipient: "@
                    + r@,
            },
    {
        match self {
            SmtpEnvelopeError::InvalidMessage => owned("Invalid message to send"),
            SmtpEnvelopeError::NoSender => owned("The message does not contain any sender"),
            SmtpEnvelopeError::NoRecipient => owned("The message does not contain any recipient"),
            SmtpEnvelopeError::InvalidSender => owned("The message contains an invalid sender"),
            SmtpEnvelopeError::InvalidRecipient(r) => {
                let mut v = chars_of("The message contains an invalid recipient: ");
                extend_str(&mut v, r.as_str());
                string_of(&v)
            },
        }
    }
}

/// The trimmed e-mail of an address, when it is there and not blank.
pub fn find_valid_email(addr: &Option<String>) -> (r: Option<String>)
    ensures
        opt_view(r) == valid_email(opt_view(*addr)),
{
    match addr {
        None => None,
        Some(email) => {
            let t = trim_chars(&chars_of(email.as_str()));
            if t.len() == 0 {
                None
            } else {
                Some(string_of(&t))
            }
        },
    }
}

/// The character views of a list of character vectors.
pub open spec fn char_vecs_view(v: Seq<Vec<char>>) -> Seq<Seq<char>> {
    v.map_values(|c: Vec<char>| c@)
}

/// Adds `e` to the repetition-free `rcpts` unless it is already there.
fn add_rcpt(rcpts: &mut Vec<Vec<char>>, e: Vec<char>, Ghost(acc): Ghost<Seq<Seq<char>>>)
    requires
        char_vecs_view(old(rcpts)@) == dedup(acc),
    ensures
        char_vecs_view(final(rcpts)@) == dedup(acc.push(e@)),
{
    let ghost v = char_vecs_view(rcpts@);
    let mut k: usize = 0;
    while k < rcpts.len()
        invariant
            k <= rcpts.len(),
            rcpts@ == old(rcpts)@,
            v == char_vecs_view(rcpts@),
            v == dedup(acc),
            forall|j: int| 0 <= j < k ==> v[j] != e@,
        decreases rcpts.len() - k,
    {
        if chars_eq(&rcpts[k], &e) {
            assert(v[k as int] == e@);
            assert(v.contains(e@));
            assert(acc.push(e@).drop_last() == acc);
            assert(acc.push(e@).last() == e@);
            return;
        }
        k = k + 1;
    }
    assert(acc.push(e@).drop_last() == acc);
    assert(!v.contains(e@));
    rcpts.push(e);
    assert(char_vecs_view(rcpts@) =~= v.push(e@));
}

/// Adds the valid e-mails of `addrs` to the repetition-free `rcpts`.
fn add_rcpts(
    rcpts: &mut Vec<Vec<char>>,
    addrs: &Vec<Option<String>>,
    Ghost(acc): Ghost<Seq<Seq<char>>>,
)
    requires
        char_vecs_view(old(rcpts)@) == dedup(acc),
    ensures
        char_vecs_view(final(rcpts)@) == dedup(acc + valid_emails(addrs_view(addrs@))),
{
    let ghost av = addrs_view(addrs@);
    let mut i: usize = 0;
    assert(av.take(0) =~= Seq::<Option<Seq<char>>>::empty());
    assert(acc + valid_emails(av.take(0)) =~= acc);
    while i < addrs.len()
        invariant
            i <= addrs.len(),
            av == addrs_view(addrs@),
            char_vecs_view(rcpts@) == dedup(acc + valid_emails(av.take(i as int))),
        decreases addrs.len() - i,
    {
        let ghost before = acc + valid_emails(av.take(i as int));
        assert(av.take(i + 1).drop_last() == av.take(i as int));
        assert(av.take(i + 1).last() == opt_view(addrs@[i as int]));
        match find_valid_email(&addrs[i]) {
            Some(e) => {
                let ev = chars_of(e.as_str());
                add_rcpt(rcpts, ev, Ghost(before));
                assert(acc + valid_emails(av.take(i + 1)) =~= before.push(ev@));
            },
            None => {
                assert(acc + valid_emails(av.take(i + 1)) =~= before);
            },
        }
        i = i + 1;
    }
    assert(av.take(addrs.len() as int) == av);
}

/// The envelope of a message with these headers (see [`envelope_of`]).
pub fn envelope_from_headers(headers: &Vec<HeaderAddresses>) -> (r: Result<
    SmtpEnvelope,
    SmtpEnvelopeError,
>)
    ensures
        outcome_of(r) == envelope_of(headers@.map_values(|h: HeaderAddresses| h@)),
{
    let ghost hs = headers@.map_values(|h: HeaderAddresses| h@);
    let mut mail_from: Option<Vec<char>> = None;
    let mut rcpts: Vec<Vec<char>> = Vec::new();
    let mut i: usize = 0;
    assert(hs.take(0) =~= Seq::<HeaderAddressesView>::empty());
    assert(char_vecs_view(rcpts@) =~= dedup(all_rcpts(hs.take(0))));
    while i < headers.len()
        invariant
            i <= headers.len(),
            hs == headers@.map_values(|h: HeaderAddresses| h@),
            match mail_from {
                Some(f) => sender(hs.take(i as int)) == Some(f@),
                None => sender(hs.take(i as int)) is None,
            },
            char_vecs_view(rcpts@) == dedup(all_rcpts(hs.take(i as int))),
        decreases headers.len() - i,
    {
        let h = &headers[i];
        let ghost prefix = hs.take(i as int);
        assert(hs.take(i + 1).drop_last() == prefix);
        assert(hs.take(i + 1).last() == h@);
        match header_kind(&h.name) {
            HeaderKind::From => {
                match &h.value {
                    AddressValue::List(addrs) => {
                        if addrs.len() > 0 {
                            match find_valid_email(&addrs[0]) {
                                Some(e) => {
                                    mail_from = Some(chars_of(e.as_str()));
                                },
                                None => {},
                            }
                        }
                    },
                    AddressValue::Group(groups) => {
                        if groups.len() > 0 {
                            if groups[0].len() > 0 {
                                match find_valid_email(&groups[0][0]) {
                                    Some(e) => {
                                        mail_from = Some(chars_of(e.as_str()));
                                    },
                                    None => {},
                                }
                            }
                        }
                    },
                    AddressValue::Other => {},
                }
                assert(rcpt_candidates(h@) =~= Seq::<Seq<char>>::empty());
                assert(all_rcpts(hs.take(i + 1)) =~= all_rcpts(prefix));
            },
            HeaderKind::To | HeaderKind::Cc | HeaderKind::Bcc => {
                match &h.value {
                    AddressValue::List(addrs) => {
                        add_rcpts(&mut rcpts, addrs, Ghost(all_rcpts(prefix)));
                    },
                    AddressValue::Group(groups) => {
                        let ghost gv = groups@.map_values(|v: Vec<Option<String>>| addrs_view(v@));
                        let mut g: usize = 0;
                        assert(gv.take(0) =~= Seq::<Seq<Option<Seq<char>>>>::empty());
                        assert(all_rcpts(prefix) + group_emails(gv.take(0)) =~= all_rcpts(prefix));
                        while g < groups.len()
                            invariant
                                g <= groups.len(),
                                gv == groups@.map_values(|v: Vec<Option<String>>| addrs_view(v@)),
                                char_vecs_view(rcpts@) == dedup(
                                    all_rcpts(prefix) + group_emails(gv.take(g as int)),
                                ),
                            decreases groups.len() - g,
                        {
                            let ghost before = all_rcpts(prefix) + group_emails(gv.take(g as int));
                            add_rcpts(&mut rcpts, &groups[g], Ghost(before));
                            assert(gv.take(g + 1).drop_last() == gv.take(g as int));
                            assert(gv.take(g + 1).last() == addrs_view(groups@[g as int]@));
                            assert(all_rcpts(prefix) + group_emails(gv.take(g + 1)) =~= before
                                + valid_emails(addrs_view(groups@[g as int]@)));
                            g = g + 1;
                        }
                        assert(gv.take(groups.len() as int) == gv);
                    },
                    AddressValue::Other => {
                        assert(all_rcpts(prefix) + Seq::<Seq<char>>::empty() =~= all_rcpts(
                            prefix,
                        ));
                    },
                }
                assert(from_candidate(h@) is None);
            },
            HeaderKind::Other => {
                assert(rcpt_candidates(h@) =~= Seq::<Seq<char>>::empty());
                assert(all_rcpts(hs.take(i + 1)) =~= all_rcpts(prefix));
            },
        }
        i = i + 1;
    }
    assert(hs.take(headers.len() as int) == hs);
    let from = match mail_from {
        Some(f) => f,
        None => {
            return Err(SmtpEnvelopeError::NoSender);
        },
    };
    if rcpts.len() == 0 {
        return Err(SmtpEnvelopeError::NoRecipient);
    }
    let (local, domain) = match split_once_chars(&from, '@') {
        Some(p) => p,
        None => {
            return Err(SmtpEnvelopeError::InvalidSender);
        },
    };
    let reverse_path = SmtpMailbox { local_part: string_of(&local), domain: string_of(&domain) };
    let ghost rv = char_vecs_view(rcpts@);
    let mut forward_paths: Vec<SmtpMailbox> = Vec::new();
    let mut k: usize = 0;
    assert(rv.skip(0) == rv);
    assert(forward_paths@.map_values(|m: SmtpMailbox| mailbox_view(m)) =~= rv.take(0).map_values(
        |r: Seq<char>| split_at_sign(r),
    ));
    while k < rcpts.len()
        invariant
            k <= rcpts.len(),
            rv == char_vecs_view(rcpts@),
            rv == dedup(all_rcpts(hs)),
            rv.len() > 0,
            sender(hs) == Some(from@),
            split_once(from@, '@') == Some((local@, domain@)),
            mailbox_view(reverse_path) == (local@, domain@),
            hs == headers@.map_values(|h: HeaderAddresses| h@),
            first_without_at(rv) == first_without_at(rv.skip(k as int)),
            forall|j: int| 0 <= j < k ==> split_once(#[trigger] rv[j], '@') is Some,
            forward_paths@.map_values(|m: SmtpMailbox| mailbox_view(m)) == rv.take(
                k as int,
            ).map_values(|r: Seq<char>| split_at_sign(r)),
        decreases rcpts.len() - k,
    {
        assert(rv.skip(k as int)[0] == rv[k as int]);
        assert(rv.skip(k as int).drop_first() == rv.skip(k + 1));
        match split_once_chars(&rcpts[k], '@') {
            Some((l, d)) => {
                let ghost before = forward_paths@;
                assert(rv[k as int] == rcpts@[k as int]@);
                assert(split_at_sign(rv[k as int]) == (l@, d@));
                let mb = SmtpMailbox { local_part: string_of(&l), domain: string_of(&d) };
                assert(mailbox_view(mb) == (l@, d@));
                forward_paths.push(mb);
                assert(forward_paths@.map_values(|m: SmtpMailbox| mailbox_view(m)) =~= before.map_values(
                    |m: SmtpMailbox| mailbox_view(m),
                ).push((l@, d@)));
                assert(rv.take(k + 1) == rv.take(k as int).push(rv[k as int]));
                assert(rv.take(k + 1).map_values(|r: Seq<char>| split_at_sign(r)) =~= rv.take(
                    k as int,
                ).map_values(|r: Seq<char>| split_at_sign(r)).push(split_at_sign(rv[k as int])));
                assert(forward_paths@.map_values(|m: SmtpMailbox| mailbox_view(m)) =~= rv.take(
                    k + 1,
                ).map_values(|r: Seq<char>| split_at_sign(r)));
            },
            None => {
                assert(rv[k as int] == rcpts@[k as int]@);
                assert(split_once(rv[k as int], '@') is None);
                assert(first_without_at(rv.skip(k as int)) == Some(rv[k as int]));
                return Err(SmtpEnvelopeError::InvalidRecipient(string_of(&rcpts[k])));
            },
        }
        k = k + 1;
    }
    assert(rv.take(rcpts.len() as int) == rv);
    assert(rv.skip(rcpts.len() as int) =~= Seq::<Seq<char>>::empty());
    Ok(SmtpEnvelope { reverse_path, forward_paths })
}

/// The SMTP envelope of a raw message: its headers are parsed, then read
/// as [`envelope_from_headers`] does.
pub fn into_smtp_msg(msg: &[u8]) -> (r: Result<SmtpEnvelope, SmtpEnvelopeError>)
    ensures
        match parsed_headers(msg@) {
            None => outcome_of(r) == EnvelopeOutcome::InvalidMessage,
            Some(hs) => outcome_of(r) == envelope_of(hs),
        },
{
    match parse_header_addresses(msg) {
        Some(headers) => envelope_from_headers(&headers),
        None => Err(SmtpEnvelopeError::InvalidMessage),
    }
}


// ---------------------------------------------------------------------
// The raw message sent
// ---------------------------------------------------------------------

/// What one character becomes in a message typed on the command line:
/// `\r` is dropped and `\n` becomes `\r\n`.
pub open spec fn crlf_piece(c: char) -> Seq<char> {
    if c == '\r' {
        Seq::empty()
    } else if c == '\n' {
        seq!['\r', '\n']
    } else {
        seq![c]
    }
}

/// `s.replace('\r', "").replace('\n', "\r\n")`.
pub open spec fn to_crlf(s: Seq<char>) -> Seq<char>
    decreases s.len(),
{
    if s.len() == 0 {
        Seq::empty()
    } else {
        to_crlf(s.drop_last()) + crlf_piece(s.last())
    }
}

/// Line endings of a message normalized to CRLF: every `\n` follows a
/// `\r` and every `\r` precedes a `\n`.
pub open spec fn crlf_normalized(s: Seq<char>) -> bool {
    &&& forall|i: int| 0 <= i < s.len() && #[trigger] s[i] == '\n' ==> i > 0 && s[i - 1] == '\r'
    &&& forall|i: int| 0 <= i < s.len() && #[trigger] s[i] == '\r' ==> i + 1 < s.len() && s[i + 1]
        == '\n'
}

/// A message typed on the command line is sent with CRLF line endings
/// only.
pub proof fn lemma_crlf_normalized(s: Seq<char>)
    ensures
        crlf_normalized(to_crlf(s)),
    decreases s.len(),
{
    if s.len() > 0 {
        lemma_crlf_normalized(s.drop_last());
        let a = to_crlf(s.drop_last());
        let b = crlf_piece(s.last());
        let t = a + b;
        assert(to_crlf(s) == t);
        assert forall|i: int| 0 <= i < t.len() && #[trigger] t[i] == '\n' implies i > 0 && t[i - 1]
            == '\r' by {
            if i < a.len() {
                assert(t[i] == a[i]);
                assert(t[i - 1] == a[i - 1]);
            } else {
                assert(b == seq!['\r', '\n']);
                assert(i == a.len() + 1);
            }
        }
        assert forall|i: int| 0 <= i < t.len() && #[trigger] t[i] == '\r' implies i + 1 < t.len()
            && t[i + 1] == '\n' by {
            if i < a.len() {
                assert(t[i] == a[i]);
                assert(t[i + 1] == a[i + 1]);
            } else {
                assert(b == seq!['\r', '\n']);
            }
        }
    }
}

/// Sends a message through the account's SMTP server.
#[derive(Debug)]
pub struct MessagesSendCommand {
    /// The raw message, including headers and body, as words of the
    /// command line.
    pub message: Vec<String>,
}

impl MessagesSendCommand {
    /// The message typed on the command line: its words joined by spaces,
    /// with `\r` dropped and `\n` turned into `\r\n`.
    pub fn raw_from_args(&self) -> (r: String)
        ensures
            r@ == to_crlf(join(strings_view(self.message@), " "@)),
            crlf_normalized(r@),
    {
        let joined = join_strings(&self.message, " ");
        let j = chars_of(joined.as_str());
        let mut out: Vec<char> = Vec::new();
        let mut i: usize = 0;
        assert(j@.take(0) =~= Seq::<char>::empty());
        while i < j.len()
            invariant
                i <= j.len(),
                out@ == to_crlf(j@.take(i as int)),
            decreases j.len() - i,
        {
            let c = j[i];
            if c == '\r' {
            } else if c == '\n' {
                out.push('\r');
                out.push('\n');
            } else {
                out.push(c);
            }
            assert(j@.take(i + 1).drop_last() == j@.take(i as int));
            i = i + 1;
            assert(out@ =~= to_crlf(j@.take(i as int)));
        }
        assert(j@.take(j.len() as int) == j@);
        proof {
            reveal_strlit(" ");
            lemma_crlf_normalized(j@);
        }
        string_of(&out)
    }
}

/// A message read line by line from standard input: the lines joined by
/// `\r\n`.
pub fn raw_from_lines(lines: &Vec<String>) -> (r: String)
    ensures
        r@ == join(strings_view(lines@), "\r\n"@),
{
    join_strings(lines, "\r\n")
}

// ---------------------------------------------------------------------
// Reading a message
// ---------------------------------------------------------------------

/// Fetches a message and prints it.
#[derive(Debug)]
pub struct MessagesGetCommand {
    /// Identifier of the message (IMAP UID or Maildir file id).
    pub id: String,
    /// Mailbox name or path.
    pub mailbox: String,
    /// Treat the IMAP id as a sequence number instead of a UID.
    pub sequence: bool,
}

/// A fetched message, as printed: its headers (name and printed value)
/// and its text bodies.
#[derive(Debug)]
pub struct MessageView {
    pub headers: Vec<(String, String)>,
    pub bodies: Vec<Option<String>>,
}

/// The views of header pairs.
pub open spec fn pairs_view(v: Seq<(String, String)>) -> Seq<(Seq<char>, Seq<char>)> {
    v.map_values(|p: (String, String)| (p.0@, p.1@))
}

/// The views of optional bodies.
pub open spec fn bodies_view(v: Seq<Option<String>>) -> Seq<Option<Seq<char>>> {
    v.map_values(|b: Option<String>| opt_view(b))
}

/// One line per header, `"{name}: {value}"`.
pub open spec fn headers_text(hs: Seq<(Seq<char>, Seq<char>)>) -> Seq<char>
    decreases hs.len(),
{
    if hs.len() == 0 {
        Seq::empty()
    } else {
        headers_text(hs.drop_last()) + hs.last().0 + ": "@ + hs.last().1 + seq!['\n']
    }
}

/// The text bodies, each without trailing whitespace, separated by a
/// blank line.
pub open spec fn bodies_text(bs: Seq<Option<Seq<char>>>) -> Seq<char>
    decreases bs.len(),
{
    if bs.len() == 0 {
        Seq::empty()
    } else {
        bodies_text(bs.drop_last()) + (if bs.len() > 1 {
            seq!['\n', '\n']
        } else {
            Seq::empty()
        }) + match bs.last() {
            Some(c) => trim_end(c),
            None => Seq::empty(),
        }
    }
}

/// What `mail_parser` reads of a raw message for printing, or `None`
/// when it finds no message there: each header's name with its parsed
/// value as printed by `Debug`, in order, and the text of each text body
/// (`None` for a body without text).
pub uninterp spec fn parsed_view(raw: Seq<u8>) -> Option<
    (Seq<(Seq<char>, Seq<char>)>, Seq<Option<Seq<char>>>),
>;

/// Parses a raw message into its printable headers and bodies.
///
/// Trusted: calls `mail_parser::MessageParser::parse`, then takes each
/// header of `Message::headers` as `HeaderName::as_str` and the `Debug`
/// text of its value, and each part of `Message::text_bodies` as its
/// `text_contents`. Stated: the result is a function of the bytes alone,
/// named [`parsed_view`].
#[verifier::external_body]
fn parse_message_view(raw: &[u8]) -> (r: Option<MessageView>)
    ensures
        match r {
            Some(m) => parsed_view(raw@) == Some((pairs_view(m.headers@), bodies_view(m.bodies@))),
            None => parsed_view(raw@) is None,
        },
{
    let message = mail_parser::MessageParser::new().parse(raw)?;
    let headers = message.headers().iter().map(|h| (h.name.as_str().to_string(), format!("{:?}", h.value))).collect();
    let bodies = message.text_bodies().map(|p| p.text_contents().map(str::to_owned)).collect();
    Some(MessageView { headers, bodies })
}

/// The text printed for a raw message: its header lines, a blank line
/// and its text bodies; `None` when the bytes hold no message.
pub fn message_text(raw: &[u8]) -> (r: Option<String>)
    ensures
        match parsed_view(raw@) {
            Some(p) => r matches Some(t) && t@ == headers_text(p.0) + seq!['\n'] + bodies_text(p.1),
            None => r is None,
        },
{
    match MessageView::from_raw(raw) {
        Some(view) => Some(view.render()),
        None => None,
    }
}

impl MessageView {
    /// The printable headers and bodies of a raw message, or `None` when
    /// the bytes hold no message.
    pub fn from_raw(raw: &[u8]) -> (r: Option<MessageView>)
        ensures
            match r {
                Some(m) => parsed_view(raw@) == Some((pairs_view(m.headers@), bodies_view(m.bodies@))),
                None => parsed_view(raw@) is None,
            },
    {
        parse_message_view(raw)
    }

    /// The message as text: the header lines, a blank line, the bodies.
    pub fn render(&self) -> (r: String)
        ensures
            r@ == headers_text(pairs_view(self.headers@)) + seq!['\n'] + bodies_text(
                bodies_view(self.bodies@),
            ),
    {
        let ghost hv = pairs_view(self.headers@);
        let ghost bv = bodies_view(self.bodies@);
        let mut out: Vec<char> = Vec::new();
        let mut i: usize = 0;
        assert(hv.take(0) =~= Seq::<(Seq<char>, Seq<char>)>::empty());
        while i < self.headers.len()
            invariant
                i <= self.headers.len(),
                hv == pairs_view(self.headers@),
                out@ == headers_text(hv.take(i as int)),
            decreases self.headers.len() - i,
        {
            let (name, value) = &self.headers[i];
            extend_str(&mut out, name.as_str());
            extend_str(&mut out, ": ");
            extend_str(&mut out, value.as_str());
            out.push('\n');
            proof {
                reveal_strlit(": ");
            }
            assert(hv.take(i + 1).drop_last() == hv.take(i as int));
            assert(hv.take(i + 1).last() == (name@, value@));
            i = i + 1;
            assert(out@ =~= headers_text(hv.take(i as int)));
        }
        assert(hv.take(self.headers.len() as int) == hv);
        out.push('\n');
        let ghost head = out@;
        let mut k: usize = 0;
        assert(bv.take(0) =~= Seq::<Option<Seq<char>>>::empty());
        assert(out@ =~= head + bodies_text(bv.take(0)));
        while k < self.bodies.len()
            invariant
                k <= self.bodies.len(),
                bv == bodies_view(self.bodies@),
                out@ == head + bodies_text(bv.take(k as int)),
            decreases self.bodies.len() - k,
        {
            if k > 0 {
                out.push('\n');
                out.push('\n');
            }
            match &self.bodies[k] {
                Some(c) => {
                    let t = trim_end_chars(&chars_of(c.as_str()));
                    extend_chars(&mut out, &t);
                },
                None => {},
            }
            assert(bv.take(k + 1).drop_last() == bv.take(k as int));
            assert(bv.take(k + 1).last() == opt_view(self.bodies@[k as int]));
            k = k + 1;
            assert(out@ =~= head + bodies_text(bv.take(k as int)));
        }
        assert(bv.take(self.bodies.len() as int) == bv);
        string_of(&out)
    }
}


impl MessagesGetCommand {
    /// The backend the message is fetched through: IMAP, then Maildir; an
    /// account with JMAP only is refused.
    pub fn backend(&self, c: ConfiguredBackends) -> (r: Result<Backend, BackendError>)
        ensures
            r == message_backend(c),
    {
        select_message_backend(c)
    }

    /// Whether the IMAP identifier is a UID.
    pub fn uid(&self) -> (r: bool)
        ensures
            r == !self.sequence,
    {
        !self.sequence
    }

    /// The Maildir directory of the mailbox, inside `root`.
    pub fn maildir_path(&self, root: &String) -> (r: String)
        ensures
            r@ == join_path(root@, self.mailbox@),
    {
        string_of(&join_path_chars(&chars_of(root.as_str()), &chars_of(self.mailbox.as_str())))
    }
}

impl MessagesSendCommand {
    /// The backend the message is sent through: SMTP only.
    pub fn backend(&self, c: ConfiguredBackends) -> (r: Result<Backend, BackendError>)
        ensures
            r == send_backend(c),
    {
        select_send_backend(c)
    }
}

/// Message commands of the shared API.
#[derive(Debug)]
pub enum MessageCommand {
    Get(MessagesGetCommand),
    Send(MessagesSendCommand),
}

/// Message commands of the configured backend.
#[derive(Debug)]
pub enum MessagesCommand {
    Get(MessagesGetCommand),
    Send(MessagesSendCommand),
}

impl MessageCommand {
    /// The backend the command goes through.
    pub fn backend(&self, c: ConfiguredBackends) -> (r: Result<Backend, BackendError>)
        ensures
            r == match self {
                MessageCommand::Get(_) => message_backend(c),
                MessageCommand::Send(_) => send_backend(c),
            },
    {
        match self {
            MessageCommand::Get(cmd) => cmd.backend(c),
            MessageCommand::Send(cmd) => cmd.backend(c),
        }
    }
}

impl MessagesCommand {
    /// The backend the command goes through.
    pub fn backend(&self, c: ConfiguredBackends) -> (r: Result<Backend, BackendError>)
        ensures
            r == match self {
                MessagesCommand::Get(_) => message_backend(c),
                MessagesCommand::Send(_) => send_backend(c),
            },
    {
        match self {
            MessagesCommand::Get(cmd) => cmd.backend(c),
            MessagesCommand::Send(cmd) => cmd.backend(c),
        }
    }
}

} // verus!
