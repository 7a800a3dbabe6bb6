//! Decisions of the modem bring-up sequence: what each AT response line
//! means for the command waiting on it.
//!
//! Every function here looks at one line as read from the modem (without
//! its line feed) and trims it first, as the bring-up loop does.
use vstd::prelude::*;

use crate::text::{
    bytes_eq, contains, find_byte, first_index, has_prefix, has_substring, holds_byte,
    comma_count, parse_unsigned, parse_unsigned_bytes, starts_with, trim, trim_bytes,
};

verus! {

/// Why a bring-up step failed.
#[derive(Copy, Clone, Debug)]
pub enum Error {
    Timeout(&'static str),
    Cmd(&'static str),
    Io,
    NotRegistered,
    SimLocked,
    LineTooLong,
}

/// `OK`
pub open spec fn text_ok() -> Seq<u8> {
    seq![0x4F, 0x4B]
}

/// `ERROR`
pub open spec fn text_error() -> Seq<u8> {
    seq![0x45, 0x52, 0x52, 0x4F, 0x52]
}

/// `+CME ERROR`
pub open spec fn text_cme_error() -> Seq<u8> {
    seq![0x2B, 0x43, 0x4D, 0x45, 0x20, 0x45, 0x52, 0x52, 0x4F, 0x52]
}

/// `CONNECT`
pub open spec fn text_connect() -> Seq<u8> {
    seq![0x43, 0x4F, 0x4E, 0x4E, 0x45, 0x43, 0x54]
}

/// `+CSQ:`
pub open spec fn text_csq() -> Seq<u8> {
    seq![0x2B, 0x43, 0x53, 0x51, 0x3A]
}

/// `+COPS:`
pub open spec fn text_cops() -> Seq<u8> {
    seq![0x2B, 0x43, 0x4F, 0x50, 0x53, 0x3A]
}

fn ok_bytes() -> (a: [u8; 2])
    ensures
        a@ == text_ok(),
{
    let a = [0x4F, 0x4B];
    assert(a@ =~= text_ok());
    a
}

fn error_bytes() -> (a: [u8; 5])
    ensures
        a@ == text_error(),
{
    let a = [0x45, 0x52, 0x52, 0x4F, 0x52];
    assert(a@ =~= text_error());
    a
}

fn cme_error_bytes() -> (a: [u8; 10])
    ensures
        a@ == text_cme_error(),
{
    let a = [0x2B, 0x43, 0x4D, 0x45, 0x20, 0x45, 0x52, 0x52, 0x4F, 0x52];
    assert(a@ =~= text_cme_error());
    a
}

fn connect_bytes() -> (a: [u8; 7])
    ensures
        a@ == text_connect(),
{
    let a = [0x43, 0x4F, 0x4E, 0x4E, 0x45, 0x43, 0x54];
    assert(a@ =~= text_connect());
    a
}

fn csq_bytes() -> (a: [u8; 5])
    ensures
        a@ == text_csq(),
{
    let a = [0x2B, 0x43, 0x53, 0x51, 0x3A];
    assert(a@ =~= text_csq());
    a
}

fn cops_bytes() -> (a: [u8; 6])
    ensures
        a@ == text_cops(),
{
    let a = [0x2B, 0x43, 0x4F, 0x50, 0x53, 0x3A];
    assert(a@ =~= text_cops());
    a
}

/// Whether a trimmed line reports a failure (`ERROR...` or `+CME ERROR...`).
pub open spec fn is_error_line(t: Seq<u8>) -> bool {
    has_prefix(t, text_error()) || has_prefix(t, text_cme_error())
}

fn is_error_line_exec(t: &[u8]) -> (r: bool)
    ensures
        r == is_error_line(t@),
{
    let e = error_bytes();
    let c = cme_error_bytes();
    starts_with(t, &e) || starts_with(t, &c)
}

/// The part of `s` before its first comma (all of `s` when it has none).
pub open spec fn before_comma(s: Seq<u8>) -> Seq<u8> {
    match first_index(s, 0x2C) {
        Some(i) => s.take(i),
        None => s,
    }
}

/// The part of `s` after its first comma (empty when it has none).
pub open spec fn after_comma(s: Seq<u8>) -> Seq<u8> {
    match first_index(s, 0x2C) {
        Some(i) => s.skip(i + 1),
        None => Seq::empty(),
    }
}

fn split_comma(s: &[u8]) -> (r: (&[u8], &[u8]))
    ensures
        r.0@ == before_comma(s@),
        r.1@ == after_comma(s@),
{
    let n = s.len();
    match find_byte(s, 0x2C) {
        Some(i) => (vstd::slice::slice_subrange(s, 0, i), vstd::slice::slice_subrange(s, i + 1, n)),
        None => {
            let e = vstd::slice::slice_subrange(s, 0, 0);
            assert(e@ =~= Seq::<u8>::empty());
            (s, e)
        },
    }
}

/// What a command waiting for `OK` makes of one response line: `OK` ends
/// it well, `ERROR` and `+CME ERROR...` end it with an error, and any
/// other line (blank, echo, intermediate result, unsolicited code) is
/// passed over.
pub open spec fn cmd_reply_of(line: Seq<u8>) -> Option<Result<(), Error>> {
    let t = trim(line);
    if t == text_ok() {
        Some(Ok(()))
    } else if t == text_error() {
        Some(Err(Error::Cmd("ERROR")))
    } else if has_prefix(t, text_cme_error()) {
        Some(Err(Error::Cmd("+CME ERROR")))
    } else {
        None
    }
}

/// Classify one response line of a command waiting for `OK`.
pub fn cmd_reply(line: &[u8]) -> (r: Option<Result<(), Error>>)
    ensures
        r == cmd_reply_of(line@),
{
    let t = trim_bytes(line);
    let ok = ok_bytes();
    let er = error_bytes();
    let cme = cme_error_bytes();
    if bytes_eq(t, &ok) {
        Some(Ok(()))
    } else if bytes_eq(t, &er) {
        Some(Err(Error::Cmd("ERROR")))
    } else if starts_with(t, &cme) {
        Some(Err(Error::Cmd("+CME ERROR")))
    } else {
        None
    }
}

/// What the switch of a channel to PPP data mode makes of one response
/// line: `CONNECT...` means data mode is on, an error line means it
/// failed, anything else is passed over.
pub open spec fn ppp_reply_of(line: Seq<u8>) -> Option<Result<(), Error>> {
    let t = trim(line);
    if t.len() == 0 {
        None
    } else if has_prefix(t, text_connect()) {
        Some(Ok(()))
    } else if is_error_line(t) {
        Some(Err(Error::Cmd("CGDATA")))
    } else {
        None
    }
}

/// Classify one response line after `AT+CGDATA="PPP",1`.
pub fn ppp_reply(line: &[u8]) -> (r: Option<Result<(), Error>>)
    ensures
        r == ppp_reply_of(line@),
        has_prefix(trim(line@), seq![0x43u8, 0x4F, 0x4E, 0x4E, 0x45, 0x43, 0x54]) ==> r == Some(
            Ok::<(), Error>(()),
        ),
{
    let t = trim_bytes(line);
    let connect = connect_bytes();
    if t.len() == 0 {
        None
    } else if starts_with(t, &connect) {
        Some(Ok(()))
    } else if is_error_line_exec(t) {
        Some(Err(Error::Cmd("CGDATA")))
    } else {
        None
    }
}

/// One line of a polled query: whether it ends the query.
#[derive(Copy, Clone, Debug, PartialEq, Eq, Structural)]
pub enum ResponseLine {
    /// `OK`: the query finished without the awaited text.
    Finished,
    /// The awaited text is in the line.
    Found,
    /// Any other line.
    Other,
}

/// What a query waiting for `needle` makes of one response line.
pub open spec fn response_line_of(line: Seq<u8>, needle: Seq<u8>) -> ResponseLine {
    let t = trim(line);
    if t == text_ok() {
        ResponseLine::Finished
    } else if has_substring(t, needle) {
        ResponseLine::Found
    } else {
        ResponseLine::Other
    }
}

/// Classify one response line of a query that waits for `needle`.
pub fn response_line(line: &[u8], needle: &[u8]) -> (r: ResponseLine)
    ensures
        r == response_line_of(line@, needle@),
{
    let t = trim_bytes(line);
    let ok = ok_bytes();
    if bytes_eq(t, &ok) {
        ResponseLine::Finished
    } else if contains(t, needle) {
        ResponseLine::Found
    } else {
        ResponseLine::Other
    }
}

/// Progress of a registration query (`AT+CREG?` / `AT+CGREG?`).
#[derive(Debug)]
pub enum RegStep {
    /// Keep reading; the `<stat>` seen so far.
    Next(Option<u8>),
    /// The query is over.
    Done(Result<u8, Error>),
}

/// The `<stat>` field of a registration line, given what follows its
/// prefix: the second comma-separated field of a query response
/// (`<n>,<stat>[,<lac>,<ci>]`), or the only field of the unsolicited form
/// (`<stat>`), parsed as a `u8`.
pub open spec fn reg_stat_of(rest: Seq<u8>) -> Option<u8> {
    let field = if holds_byte(rest, 0x2C) { before_comma(after_comma(rest)) } else { rest };
    match parse_unsigned(trim(field), 255) {
        Some(v) => Some(v as u8),
        None => None,
    }
}

/// A registration line that the query can take apart: one with the prefix
/// has at most five comma-separated fields.
pub open spec fn reg_line_fits(line: Seq<u8>, prefix: Seq<u8>) -> bool {
    let t = trim(line);
    (t != text_ok() && !is_error_line(t) && has_prefix(t, prefix)) ==> comma_count(
        t.skip(prefix.len() as int),
    ) <= 4
}

/// Whether `reg_reply` can take this line apart (see `reg_line_fits`).
pub fn reg_line_fits_exec(line: &[u8], prefix: &[u8]) -> (r: bool)
    ensures
        r == reg_line_fits(line@, prefix@),
{
    let t = trim_bytes(line);
    let ok = ok_bytes();
    if bytes_eq(t, &ok) || is_error_line_exec(t) || !starts_with(t, prefix) {
        return true;
    }
    let rest = vstd::slice::slice_subrange(t, prefix.len(), t.len());
    assert(rest@ =~= t@.skip(prefix@.len() as int));
    crate::text::count_commas(rest) <= 4
}

/// What a registration query makes of one response line, given the
/// `<stat>` seen so far.
pub open spec fn reg_step_done(line: Seq<u8>, prefix: Seq<u8>, stat: Option<u8>) -> Option<Result<u8, Error>> {
    let t = trim(line);
    if t == text_ok() {
        match stat {
            Some(s) => Some(Ok(s)),
            None => Some(Err(Error::Cmd("no reg line"))),
        }
    } else if is_error_line(t) {
        Some(Err(Error::Cmd("reg ERROR")))
    } else {
        None
    }
}

/// The `<stat>` a registration query holds after a line that does not end it.
pub open spec fn reg_step_stat(line: Seq<u8>, prefix: Seq<u8>, stat: Option<u8>) -> Option<u8> {
    let t = trim(line);
    if has_prefix(t, prefix) {
        reg_stat_of(t.skip(prefix.len() as int))
    } else {
        stat
    }
}

/// Classify one response line of a registration query with line prefix
/// `prefix` (`+CREG:` or `+CGREG:`). `OK` ends the query with the last
/// `<stat>` seen; an error line ends it with an error; a line with the
/// prefix replaces the `<stat>` (with `None` when its field does not parse).
pub fn reg_reply(line: &[u8], prefix: &[u8], stat: Option<u8>) -> (r: RegStep)
    requires
        reg_line_fits(line@, prefix@),
    ensures
        reg_step_done(line@, prefix@, stat) matches Some(d) ==> r == RegStep::Done(d),
        reg_step_done(line@, prefix@, stat) is None ==> r == RegStep::Next(
            reg_step_stat(line@, prefix@, stat),
        ),
{
    let t = trim_bytes(line);
    let ok = ok_bytes();
    if bytes_eq(t, &ok) {
        return match stat {
            Some(s) => RegStep::Done(Ok(s)),
            None => RegStep::Done(Err(Error::Cmd("no reg line"))),
        };
    }
    if is_error_line_exec(t) {
        return RegStep::Done(Err(Error::Cmd("reg ERROR")));
    }
    if starts_with(t, prefix) {
        let rest = vstd::slice::slice_subrange(t, prefix.len(), t.len());
        assert(rest@ =~= t@.skip(prefix@.len() as int));
        let (_, after) = split_comma(rest);
        let field = match find_byte(rest, 0x2C) {
            Some(_) => split_comma(after).0,
            None => rest,
        };
        let v = parse_unsigned_bytes(trim_bytes(field), 255);
        return match v {
            Some(x) => RegStep::Next(Some(x as u8)),
            None => RegStep::Next(None),
        };
    }
    RegStep::Next(stat)
}

/// Progress of a signal-quality query (`AT+CSQ`).
#[derive(Debug)]
pub enum CsqStep {
    /// Keep reading; the `(rssi, ber)` pair seen so far.
    Next(Option<(u8, u8)>),
    /// The query is over.
    Done(Result<(u8, u8), Error>),
}

/// The `(rssi, ber)` pair of a `+CSQ:` line, given what follows its prefix:
/// two comma-separated fields that both parse as `u8`.
pub open spec fn csq_pair_of(rest: Seq<u8>) -> Option<(u8, u8)> {
    if holds_byte(rest, 0x2C) {
        match (parse_unsigned(trim(before_comma(rest)), 255), parse_unsigned(trim(after_comma(rest)), 255)) {
            (Some(r), Some(b)) => Some((r as u8, b as u8)),
            _ => None,
        }
    } else {
        None
    }
}

/// A signal-quality line that the query can take apart: one with the
/// prefix has at most two comma-separated fields.
pub open spec fn csq_line_fits(line: Seq<u8>) -> bool {
    let t = trim(line);
    (t != text_ok() && has_prefix(t, text_csq())) ==> comma_count(t.skip(5)) <= 1
}

/// Whether `csq_reply` can take this line apart (see `csq_line_fits`).
pub fn csq_line_fits_exec(line: &[u8]) -> (r: bool)
    ensures
        r == csq_line_fits(line@),
{
    let t = trim_bytes(line);
    let ok = ok_bytes();
    let csq = csq_bytes();
    if bytes_eq(t, &ok) || !starts_with(t, &csq) {
        return true;
    }
    let rest = vstd::slice::slice_subrange(t, 5, t.len());
    assert(rest@ =~= t@.skip(5));
    crate::text::count_commas(rest) <= 1
}

/// What a signal-quality query makes of one response line, given the pair
/// seen so far: `OK` ends it, a `+CSQ:` line with a well-formed pair
/// replaces the pair, and any other line (error lines included) is passed
/// over.
pub open spec fn csq_step_of(line: Seq<u8>, out: Option<(u8, u8)>) -> CsqStep {
    let t = trim(line);
    if t == text_ok() {
        match out {
            Some(p) => CsqStep::Done(Ok(p)),
            None => CsqStep::Done(Err(Error::Cmd("no CSQ line"))),
        }
    } else if has_prefix(t, text_csq()) {
        match csq_pair_of(t.skip(5)) {
            Some(p) => CsqStep::Next(Some(p)),
            None => CsqStep::Next(out),
        }
    } else {
        CsqStep::Next(out)
    }
}

/// Classify one response line of `AT+CSQ`.
pub fn csq_reply(line: &[u8], out: Option<(u8, u8)>) -> (r: CsqStep)
    requires
        csq_line_fits(line@),
    ensures
        r == csq_step_of(line@, out),
{
    let t = trim_bytes(line);
    let ok = ok_bytes();
    let csq = csq_bytes();
    if bytes_eq(t, &ok) {
        return match out {
            Some(p) => CsqStep::Done(Ok(p)),
            None => CsqStep::Done(Err(Error::Cmd("no CSQ line"))),
        };
    }
    if starts_with(t, &csq) {
        let rest = vstd::slice::slice_subrange(t, 5, t.len());
        assert(rest@ =~= t@.skip(5));
        if find_byte(rest, 0x2C).is_some() {
            let (a, b) = split_comma(rest);
            let ra = parse_unsigned_bytes(trim_bytes(a), 255);
            let rb = parse_unsigned_bytes(trim_bytes(b), 255);
            if let (Some(x), Some(y)) = (ra, rb) {
                return CsqStep::Next(Some((x as u8, y as u8)));
            }
        }
        return CsqStep::Next(out);
    }
    CsqStep::Next(out)
}

/// One response line of an operator query (`AT+COPS?`).
#[derive(Debug)]
pub enum CopsStep<'a> {
    /// `OK`: the query is over.
    Done,
    /// A `+COPS:` line naming the operator between its first two double quotes.
    Name(&'a [u8]),
    /// Any other line.
    Next,
}

/// The operator name in what follows a `+COPS:` prefix
/// (`<mode>,<format>,"<oper>"[,<AcT>]`): the text between the first two
/// double quotes.
pub open spec fn cops_name_of(rest: Seq<u8>) -> Option<Seq<u8>> {
    match first_index(rest, 0x22) {
        Some(a) => match first_index(rest.skip(a + 1), 0x22) {
            Some(b) => Some(rest.subrange(a + 1, a + 1 + b)),
            None => None,
        },
        None => None,
    }
}

/// Classify one response line of `AT+COPS?`.
pub fn cops_reply<'a>(line: &'a [u8]) -> (r: CopsStep<'a>)
    ensures
        (r is Done) == (trim(line@) == text_ok()),
        r matches CopsStep::Name(n) ==> has_prefix(trim(line@), text_cops()) && cops_name_of(
            trim(line@).skip(6),
        ) == Some(n@),
        r is Next ==> trim(line@) != text_ok() && (has_prefix(trim(line@), text_cops())
            ==> cops_name_of(trim(line@).skip(6)) is None),
        has_prefix(trim(line@), text_cops()) && cops_name_of(trim(line@).skip(6)) is Some ==> (
        r matches CopsStep::Name(x) && cops_name_of(trim(line@).skip(6)) == Some(x@)),
{
    let t = trim_bytes(line);
    let ok = ok_bytes();
    let cops = cops_bytes();
    if bytes_eq(t, &ok) {
        return CopsStep::Done;
    }
    if starts_with(t, &cops) {
        let rest = vstd::slice::slice_subrange(t, 6, t.len());
        assert(rest@ =~= t@.skip(6));
        if let Some(a) = find_byte(rest, 0x22) {
            let tail = vstd::slice::slice_subrange(rest, a + 1, rest.len());
            assert(tail@ =~= rest@.skip(a + 1));
            if let Some(b) = find_byte(tail, 0x22) {
                let name = vstd::slice::slice_subrange(rest, a + 1, a + 1 + b);
                return CopsStep::Name(name);
            }
        }
    }
    CopsStep::Next
}

/// A line without its trailing carriage return, if it has one.
pub open spec fn strip_cr_of(line: Seq<u8>) -> Seq<u8> {
    if line.len() > 0 && line.last() == 0x0D {
        line.drop_last()
    } else {
        line
    }
}

/// Drop one trailing carriage return, as the line reader does after
/// cutting a line at its line feed.
pub fn strip_cr(line: &[u8]) -> (r: &[u8])
    ensures
        r@ == strip_cr_of(line@),
{
    let n = line.len();
    if n > 0 && line[n - 1] == 0x0D {
        vstd::slice::slice_subrange(line, 0, n - 1)
    } else {
        line
    }
}

/// Whether a `<stat>` reports registration: 1 (home network) or 5 (roaming).
pub open spec fn stat_registered(stat: u8) -> bool {
    stat == 1 || stat == 5
}

/// Registration is reached when either the circuit-switched (`+CREG`) or
/// the packet (`+CGREG`) status reports it: some networks attach GPRS only.
pub fn is_registered(creg: u8, cgreg: u8) -> (r: bool)
    ensures
        r == (stat_registered(creg) || stat_registered(cgreg)),
        r == (creg == 1 || creg == 5 || cgreg == 1 || cgreg == 5),
{
    matches!(creg, 1 | 5) || matches!(cgreg, 1 | 5)
}

/// Where the next line stands in the bytes read so far.
#[derive(Copy, Clone, Debug, PartialEq, Eq, Structural)]
pub enum LineSearch {
    /// A line feed at this index ends the next line.
    Line(usize),
    /// No line feed and no room left: the line is too long.
    Full,
    /// No line feed yet: read more.
    More,
}

/// Look for the end of the next line in the first `len` bytes of `buf`.
pub fn locate_line(buf: &[u8], len: usize) -> (r: LineSearch)
    requires
        len <= buf@.len(),
    ensures
        first_index(buf@.take(len as int), 0x0A) matches Some(i) ==> r == LineSearch::Line(i as usize),
        first_index(buf@.take(len as int), 0x0A) is None && len == buf@.len() ==> r == LineSearch::Full,
        first_index(buf@.take(len as int), 0x0A) is None && len < buf@.len() ==> r == LineSearch::More,
{
    let filled = vstd::slice::slice_subrange(buf, 0, len);
    assert(filled@ =~= buf@.take(len as int));
    match find_byte(filled, 0x0A) {
        Some(i) => LineSearch::Line(i),
        None => if len == buf.len() {
            LineSearch::Full
        } else {
            LineSearch::More
        },
    }
}

/// Registration is reported by exactly two `<stat>` values: 1 (home) and
/// 5 (roaming); 0 (not registered), 2 (searching), 3 (denied) and 4
/// (unknown) are not registration.
pub proof fn lemma_registered_stats(stat: u8)
    ensures
        stat_registered(stat) == (stat == 1 || stat == 5),
{
}

/// Every line whose trimmed text begins with `CONNECT` switches the channel
/// to data mode, whatever follows (a rate, or nothing).
pub proof fn lemma_connect_starts_ppp(line: Seq<u8>)
    requires
        has_prefix(trim(line), seq![0x43u8, 0x4F, 0x4E, 0x4E, 0x45, 0x43, 0x54]),
    ensures
        ppp_reply_of(line) == Some(Ok::<(), Error>(())),
{
    assert(seq![0x43u8, 0x4F, 0x4E, 0x4E, 0x45, 0x43, 0x54] =~= text_connect());
    assert(trim(line).len() >= 7);
}

proof fn lemma_first_index_at(s: Seq<u8>, b: u8, k: int)
    requires
        0 <= k < s.len(),
        s[k] == b,
        forall|j: int| 0 <= j < k ==> s[j] != b,
    ensures
        first_index(s, b) == Some(k),
{
    assert(holds_byte(s, b));
    let c = choose|i: int| 0 <= i < s.len() && s[i] == b && forall|j: int| 0 <= j < i ==> s[j] != b;
    assert(0 <= c < s.len() && s[c] == b && forall|j: int| 0 <= j < c ==> s[j] != b);
    if c < k {
        assert(s[c] != b);
    }
    if c > k {
        assert(s[k] != b);
    }
}

/// The operator name of a `+COPS:` line is all of the text between its
/// first two double quotes, whatever its length: for a line
/// `+COPS:` p `"` n `"` q with no double quote in p or n, the name is n.
pub proof fn lemma_cops_name(p: Seq<u8>, n: Seq<u8>, q: Seq<u8>)
    requires
        forall|i: int| 0 <= i < p.len() ==> p[i] != 0x22,
        forall|i: int| 0 <= i < n.len() ==> n[i] != 0x22,
    ensures
        ({
            let line = seq![0x2Bu8, 0x43, 0x4F, 0x50, 0x53, 0x3A] + p + seq![0x22u8] + n + seq![0x22u8] + q;
            &&& has_prefix(line, text_cops())
            &&& cops_name_of(line.skip(6)) == Some(n)
        }),
{
    let line = seq![0x2Bu8, 0x43, 0x4F, 0x50, 0x53, 0x3A] + p + seq![0x22u8] + n + seq![0x22u8] + q;
    assert(line.take(6) =~= text_cops());
    let rest = line.skip(6);
    assert(rest =~= p + seq![0x22u8] + n + seq![0x22u8] + q);
    let a = p.len() as int;
    assert(rest[a] == 0x22);
    assert forall|j: int| 0 <= j < a implies rest[j] != 0x22 by {
        assert(rest[j] == p[j]);
    }
    lemma_first_index_at(rest, 0x22, a);
    let tail = rest.skip(a + 1);
    assert(tail =~= n + seq![0x22u8] + q);
    let b = n.len() as int;
    assert(tail[b] == 0x22);
    assert forall|j: int| 0 <= j < b implies tail[j] != 0x22 by {
        assert(tail[j] == n[j]);
    }
    lemma_first_index_at(tail, 0x22, b);
    assert(rest.subrange(a + 1, a + 1 + b) =~= n);
}

proof fn lemma_split_at_comma(a: Seq<u8>, d: Seq<u8>)
    requires
        forall|i: int| 0 <= i < a.len() ==> a[i] != 0x2C,
    ensures
        holds_byte(a + seq![0x2Cu8] + d, 0x2C),
        before_comma(a + seq![0x2Cu8] + d) == a,
        after_comma(a + seq![0x2Cu8] + d) == d,
{
    let s = a + seq![0x2Cu8] + d;
    let k = a.len() as int;
    assert(s[k] == 0x2C);
    assert forall|j: int| 0 <= j < k implies s[j] != 0x2C by {
        assert(s[j] == a[j]);
    }
    lemma_first_index_at(s, 0x2C, k);
    assert(s.take(k) =~= a);
    assert(s.skip(k + 1) =~= d);
}

proof fn lemma_no_comma(a: Seq<u8>)
    requires
        forall|i: int| 0 <= i < a.len() ==> a[i] != 0x2C,
    ensures
        !holds_byte(a, 0x2C),
        before_comma(a) == a,
{
}

/// The `<stat>` of a registration query response `<n>,<stat>[,...]` is its
/// second field, trimmed and read as a decimal `u8`.
pub proof fn lemma_reg_stat_second_field(n: Seq<u8>, st: Seq<u8>, more: Seq<u8>)
    requires
        forall|i: int| 0 <= i < n.len() ==> n[i] != 0x2C,
        forall|i: int| 0 <= i < st.len() ==> st[i] != 0x2C,
        more.len() == 0 || more[0] == 0x2C,
    ensures
        reg_stat_of(n + seq![0x2Cu8] + st + more) == (match parse_unsigned(trim(st), 255) {
            Some(v) => Some(v as u8),
            None => None,
        }),
{
    let rest = n + seq![0x2Cu8] + st + more;
    lemma_second_field(n, st, more);
    lemma_reg_stat_of_field(rest, st);
}

#[verifier::rlimit(50)]
proof fn lemma_second_field(n: Seq<u8>, st: Seq<u8>, more: Seq<u8>)
    requires
        forall|i: int| 0 <= i < n.len() ==> n[i] != 0x2C,
        forall|i: int| 0 <= i < st.len() ==> st[i] != 0x2C,
        more.len() == 0 || more[0] == 0x2C,
    ensures
        holds_byte(n + seq![0x2Cu8] + st + more, 0x2C),
        before_comma(after_comma(n + seq![0x2Cu8] + st + more)) == st,
{
    let rest = n + seq![0x2Cu8] + st + more;
    assert(rest =~= n + seq![0x2Cu8] + (st + more));
    lemma_split_at_comma(n, st + more);
    if more.len() == 0 {
        assert(st + more =~= st);
        lemma_no_comma(st);
    } else {
        let tail = more.drop_first();
        assert(st + more =~= st + seq![0x2Cu8] + tail);
        lemma_split_at_comma(st, tail);
    }
}

proof fn lemma_reg_stat_of_field(rest: Seq<u8>, st: Seq<u8>)
    requires
        holds_byte(rest, 0x2C),
        before_comma(after_comma(rest)) == st,
    ensures
        reg_stat_of(rest) == (match parse_unsigned(trim(st), 255) {
            Some(v) => Some(v as u8),
            None => None,
        }),
{
}

/// The unsolicited form `<stat>` (no comma) is read whole.
pub proof fn lemma_reg_stat_single_field(st: Seq<u8>)
    requires
        forall|i: int| 0 <= i < st.len() ==> st[i] != 0x2C,
    ensures
        reg_stat_of(st) == (match parse_unsigned(trim(st), 255) {
            Some(v) => Some(v as u8),
            None => None,
        }),
{
    lemma_no_comma(st);
}

/// The pair of a `+CSQ: <rssi>,<ber>` line is its two fields, trimmed and
/// read as decimal `u8`s, when both read.
pub proof fn lemma_csq_pair(r: Seq<u8>, b: Seq<u8>)
    requires
        forall|i: int| 0 <= i < r.len() ==> r[i] != 0x2C,
        parse_unsigned(trim(r), 255) is Some,
        parse_unsigned(trim(b), 255) is Some,
    ensures
        csq_pair_of(r + seq![0x2Cu8] + b) == Some(
            (parse_unsigned(trim(r), 255).unwrap() as u8, parse_unsigned(trim(b), 255).unwrap() as u8),
        ),
{
    lemma_split_at_comma(r, b);
}

} // verus!
