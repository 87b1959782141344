//! Reading the name servers a host is configured with out of the text of
//! its `resolv.conf`.
//!
//! The lines that count are those whose first word is `nameserver`, followed
//! by white space and one more word. `#` starts a comment, so a commented
//! `nameserver` line does not count. Lines are recognised with regular
//! expressions; turning the word after `nameserver` into an address is left
//! to the caller, who hands the outcome back.

use vstd::prelude::*;
use vstd::string::StringExecFns;
use regex::Regex;
use crate::net::IpAddress;

verus! {

/// Finds the active `nameserver` lines in the text of a file. The second
/// group is the line without the white space around it.
pub const ACTIVE_NAMESERVER_PATTERN: &'static str = r"(^|\n)\s*(nameserver\s+[^\s]*)";

/// Takes the word after `nameserver` out of a line. The first group is that
/// word, up to white space or a comment.
pub const NAMESERVER_LINE_PATTERN: &'static str = r"^\s*nameserver\s+([^\s#]*)";

/// Why the name servers could not be told.
#[derive(Debug, PartialEq, Eq)]
pub enum DnsInspectionError {
    /// The file is missing, unreadable or not text; the message says which.
    InvalidConfigFile(String),
    /// A `nameserver` line does not name an address; the text is the part at fault.
    BadEntryFormat(String),
    /// The file names no server at all.
    NotConnected,
}

/// An inspection error as a mathematical value.
pub enum DnsInspectionErrorView {
    InvalidConfigFile(Seq<char>),
    BadEntryFormat(Seq<char>),
    NotConnected,
}

impl View for DnsInspectionError {
    type V = DnsInspectionErrorView;

    open spec fn view(&self) -> DnsInspectionErrorView {
        match self {
            DnsInspectionError::InvalidConfigFile(msg) => DnsInspectionErrorView::InvalidConfigFile(
                msg@,
            ),
            DnsInspectionError::BadEntryFormat(text) => DnsInspectionErrorView::BadEntryFormat(
                text@,
            ),
            DnsInspectionError::NotConnected => DnsInspectionErrorView::NotConnected,
        }
    }
}

impl Clone for DnsInspectionError {
    fn clone(&self) -> (copy: Self)
        ensures
            copy@ == self@,
    {
        match self {
            DnsInspectionError::InvalidConfigFile(msg) => DnsInspectionError::InvalidConfigFile(
                msg.clone(),
            ),
            DnsInspectionError::BadEntryFormat(text) => DnsInspectionError::BadEntryFormat(
                text.clone(),
            ),
            DnsInspectionError::NotConnected => DnsInspectionError::NotConnected,
        }
    }
}

/// The text of capture group `group` in the leftmost match of `pattern` in
/// `haystack`, as the regex crate finds it. There is none when the pattern
/// does not compile, when it matches nowhere, or when the group takes no
/// part in the match.
pub uninterp spec fn regex_first_capture(pattern: Seq<char>, haystack: Seq<char>, group: nat)
    -> Option<Seq<char>>;

/// For each of the successive matches of `pattern` in `haystack` that do not
/// overlap, in order, the text of capture group `group` and the byte offset
/// at which it starts, or nothing where the group takes no part in the
/// match. A pattern that does not compile has no matches.
pub uninterp spec fn regex_all_captures(pattern: Seq<char>, haystack: Seq<char>, group: nat)
    -> Seq<Option<(Seq<char>, nat)>>;

/// The view of a text that may be absent.
pub open spec fn text_view(text: Option<String>) -> Option<Seq<char>> {
    match text {
        Some(t) => Some(t@),
        None => None,
    }
}

/// The view of a list of captures.
pub open spec fn captures_view(found: Seq<Option<(String, usize)>>) -> Seq<
    Option<(Seq<char>, nat)>,
> {
    Seq::new(
        found.len(),
        |i: int|
            match found[i] {
                Some((text, start)) => Some((text@, start as nat)),
                None => None,
            },
    )
}

/// `Regex::new` followed by `Regex::captures` and `Captures::get` of the
/// regex crate: the text that the group matched in the leftmost match. The
/// contract only gives that result its name.
#[verifier::external_body]
fn first_capture(pattern: &str, haystack: &str, group: usize) -> (r: Option<String>)
    ensures
        text_view(r) == regex_first_capture(pattern@, haystack@, group as nat),
{
    let regex = Regex::new(pattern).ok()?;
    let captures = regex.captures(haystack)?;
    match captures.get(group) {
        Some(m) => Some(m.as_str().to_string()),
        None => None,
    }
}

/// `Regex::new` followed by `Regex::captures_iter` of the regex crate, with
/// `Captures::get`, `Match::as_str` and `Match::start` on each match: the
/// text and the starting byte offset of the group in every match. The
/// contract only gives that result its name.
#[verifier::external_body]
fn all_captures(pattern: &str, haystack: &str, group: usize) -> (r: Vec<Option<(String, usize)>>)
    ensures
        captures_view(r@) == regex_all_captures(pattern@, haystack@, group as nat),
{
    match Regex::new(pattern) {
        Ok(regex) => regex.captures_iter(haystack).map(
            |c| c.get(group).map(|m| (m.as_str().to_string(), m.start())),
        ).collect(),
        Err(_) => Vec::new(),
    }
}

/// How an attempt to open and read `resolv.conf` went.
#[derive(Debug, PartialEq, Eq)]
pub enum ResolvConfAccess {
    /// There is no such file.
    NotFound,
    /// The file may not be opened in the way that was asked for.
    PermissionDenied,
    /// What bears the name is a directory.
    IsADirectory,
    /// Opening failed for another reason; `path` and `error` are as they
    /// should appear in the message.
    OtherFailure { path: String, error: String },
    /// The file was opened, but what it holds is not UTF-8 text.
    NotUtf8,
    /// The text of the file.
    Contents(String),
}

/// How an attempt went, as a mathematical value.
pub enum ResolvConfAccessView {
    NotFound,
    PermissionDenied,
    IsADirectory,
    OtherFailure { path: Seq<char>, error: Seq<char> },
    NotUtf8,
    Contents(Seq<char>),
}

impl View for ResolvConfAccess {
    type V = ResolvConfAccessView;

    open spec fn view(&self) -> ResolvConfAccessView {
        match self {
            ResolvConfAccess::NotFound => ResolvConfAccessView::NotFound,
            ResolvConfAccess::PermissionDenied => ResolvConfAccessView::PermissionDenied,
            ResolvConfAccess::IsADirectory => ResolvConfAccessView::IsADirectory,
            ResolvConfAccess::OtherFailure { path, error } => ResolvConfAccessView::OtherFailure {
                path: path@,
                error: error@,
            },
            ResolvConfAccess::NotUtf8 => ResolvConfAccessView::NotUtf8,
            ResolvConfAccess::Contents(text) => ResolvConfAccessView::Contents(text@),
        }
    }
}

/// One active `nameserver` line: the word found after `nameserver`, or why
/// none was found, and the address which that word denotes, if it denotes one.
#[derive(Debug, PartialEq, Eq)]
pub struct NameserverEntry {
    pub token: Result<String, DnsInspectionError>,
    pub address: Option<IpAddress>,
}

/// What a function of this module yields, seen as mathematical values.
pub open spec fn text_result_view(r: Result<String, DnsInspectionError>) -> Result<
    Seq<char>,
    DnsInspectionErrorView,
> {
    match r {
        Ok(text) => Ok(text@),
        Err(e) => Err(e@),
    }
}

/// What an inspection yields, seen as mathematical values.
pub open spec fn inspection_view(r: Result<Vec<IpAddress>, DnsInspectionError>) -> Result<
    Seq<IpAddress>,
    DnsInspectionErrorView,
> {
    match r {
        Ok(addresses) => Ok(addresses@),
        Err(e) => Err(e@),
    }
}

/// The view of a list of captures that are all present.
pub open spec fn spans_view(spans: Seq<(String, usize)>) -> Seq<(Seq<char>, nat)> {
    Seq::new(spans.len(), |i: int| (spans[i].0@, spans[i].1 as nat))
}

/// The captures of a list that are present, in order.
pub open spec fn present_spans(found: Seq<Option<(Seq<char>, nat)>>) -> Seq<(Seq<char>, nat)>
    decreases found.len(),
{
    if found.len() == 0 {
        Seq::empty()
    } else {
        match found.last() {
            Some(span) => present_spans(found.drop_last()).push(span),
            None => present_spans(found.drop_last()),
        }
    }
}

/// What one entry comes to: its address, or the complaint about it. A word
/// that denotes no address is at fault itself.
pub open spec fn verdict(entry: NameserverEntry) -> Result<IpAddress, DnsInspectionErrorView> {
    match entry.token {
        Err(e) => Err(e@),
        Ok(token) => match entry.address {
            Some(address) => Ok(address),
            None => Err(DnsInspectionErrorView::BadEntryFormat(token@)),
        },
    }
}

/// The addresses of the entries that have one, in order.
pub open spec fn addresses_of(entries: Seq<NameserverEntry>) -> Seq<IpAddress>
    decreases entries.len(),
{
    if entries.len() == 0 {
        Seq::empty()
    } else {
        match verdict(entries.last()) {
            Ok(address) => addresses_of(entries.drop_last()).push(address),
            Err(_) => addresses_of(entries.drop_last()),
        }
    }
}

/// The complaint about the first entry that has no address, if there is one.
pub open spec fn first_complaint(entries: Seq<NameserverEntry>) -> Option<DnsInspectionErrorView>
    decreases entries.len(),
{
    if entries.len() == 0 {
        None
    } else {
        match first_complaint(entries.drop_last()) {
            Some(e) => Some(e),
            None => match verdict(entries.last()) {
                Ok(_) => None,
                Err(e) => Some(e),
            },
        }
    }
}

/// Reads the name servers of a host from its `resolv.conf`.
pub struct ResolvConfDnsModifier {
    /// The directory under which `etc/resolv.conf` is looked for.
    pub root: String,
}

impl Default for ResolvConfDnsModifier {
    fn default() -> (modifier: Self)
        ensures
            modifier.root@ == "/"@,
    {
        Self::new()
    }
}

impl ResolvConfDnsModifier {
    pub fn new() -> (modifier: ResolvConfDnsModifier)
        ensures
            modifier.root@ == "/"@,
    {
        ResolvConfDnsModifier { root: String::from_str("/") }
    }

    pub fn type_label(&self) -> (name: &'static str)
        ensures
            name@ == "ResolvConfDnsModifier"@,
    {
        "ResolvConfDnsModifier"
    }

    /// The message about a file that was to be written says so.
    pub open spec fn process_msg_spec(msg: Seq<char>, for_write: bool) -> Seq<char> {
        if for_write {
            msg + " and could not be modified"@
        } else {
            msg
        }
    }

    pub fn process_msg(msg: &str, for_write: bool) -> (text: String)
        ensures
            text@ == Self::process_msg_spec(msg@, for_write),
    {
        if for_write {
            String::from_str(msg).concat(" and could not be modified")
        } else {
            String::from_str(msg)
        }
    }

    /// The text of the file, or the complaint about it, given how the attempt
    /// to open and read it went.
    pub open spec fn open_resolv_conf_spec(access: ResolvConfAccessView, for_write: bool)
        -> Result<Seq<char>, DnsInspectionErrorView> {
        match access {
            ResolvConfAccessView::NotFound => Err(
                DnsInspectionErrorView::InvalidConfigFile(
                    Self::process_msg_spec("/etc/resolv.conf was not found"@, for_write),
                ),
            ),
            ResolvConfAccessView::PermissionDenied => Err(
                DnsInspectionErrorView::InvalidConfigFile(
                    Self::process_msg_spec(
                        "/etc/resolv.conf is not readable"@ + (if for_write {
                            " and writable"@
                        } else {
                            ""@
                        }),
                        for_write,
                    ),
                ),
            ),
            ResolvConfAccessView::IsADirectory => Err(
                DnsInspectionErrorView::InvalidConfigFile(
                    Self::process_msg_spec("/etc/resolv.conf is a directory"@, for_write),
                ),
            ),
            ResolvConfAccessView::OtherFailure { path, error } => Err(
                DnsInspectionErrorView::InvalidConfigFile(
                    "Unexpected error opening "@ + path + ": "@ + error,
                ),
            ),
            ResolvConfAccessView::NotUtf8 => Err(
                DnsInspectionErrorView::InvalidConfigFile(
                    Self::process_msg_spec("/etc/resolv.conf is not a UTF-8 text file"@, for_write),
                ),
            ),
            ResolvConfAccessView::Contents(text) => Ok(text),
        }
    }

    /// Decides what an attempt to open and read the file comes to. The
    /// caller makes the attempt, for reading or, with `for_write`, for
    /// reading and writing, and reports how it went.
    pub fn open_resolv_conf(&self, access: ResolvConfAccess, for_write: bool) -> (r: Result<
        String,
        DnsInspectionError,
    >)
        ensures
            text_result_view(r) == Self::open_resolv_conf_spec(access@, for_write),
    {
        match access {
            ResolvConfAccess::NotFound => Err(
                DnsInspectionError::InvalidConfigFile(
                    Self::process_msg("/etc/resolv.conf was not found", for_write),
                ),
            ),
            ResolvConfAccess::PermissionDenied => {
                let suffix = if for_write {
                    " and writable"
                } else {
                    ""
                };
                let msg = String::from_str("/etc/resolv.conf is not readable").concat(suffix);
                Err(
                    DnsInspectionError::InvalidConfigFile(
                        Self::process_msg(msg.as_str(), for_write),
                    ),
                )
            },
            ResolvConfAccess::IsADirectory => Err(
                DnsInspectionError::InvalidConfigFile(
                    Self::process_msg("/etc/resolv.conf is a directory", for_write),
                ),
            ),
            ResolvConfAccess::OtherFailure { path, error } => Err(
                DnsInspectionError::InvalidConfigFile(
                    String::from_str("Unexpected error opening ").concat(path.as_str()).concat(
                        ": ",
                    ).concat(error.as_str()),
                ),
            ),
            ResolvConfAccess::NotUtf8 => Err(
                DnsInspectionError::InvalidConfigFile(
                    Self::process_msg("/etc/resolv.conf is not a UTF-8 text file", for_write),
                ),
            ),
            ResolvConfAccess::Contents(text) => Ok(text),
        }
    }

    /// The word after `nameserver`, given what the line pattern captured in
    /// the line: a line in which it captured nothing is at fault as a whole.
    pub open spec fn ip_str_spec(nameserver_line: Seq<char>, capture: Option<Seq<char>>) -> Result<
        Seq<char>,
        DnsInspectionErrorView,
    > {
        match capture {
            Some(word) => Ok(word),
            None => Err(DnsInspectionErrorView::BadEntryFormat(nameserver_line)),
        }
    }

    /// Decides what a line comes to, given what the line pattern captured in it.
    pub fn ip_str_from_capture(nameserver_line: String, capture: Option<String>) -> (r: Result<
        String,
        DnsInspectionError,
    >)
        ensures
            text_result_view(r) == Self::ip_str_spec(nameserver_line@, text_view(capture)),
    {
        match capture {
            Some(word) => Ok(word),
            None => Err(DnsInspectionError::BadEntryFormat(nameserver_line)),
        }
    }

    /// Takes the word after `nameserver` out of a line: the stretch up to
    /// white space or a comment sign.
    pub fn nameserver_line_to_ip_str(&self, nameserver_line: String) -> (r: Result<
        String,
        DnsInspectionError,
    >)
        ensures
            text_result_view(r) == Self::ip_str_spec(
                nameserver_line@,
                regex_first_capture(NAMESERVER_LINE_PATTERN@, nameserver_line@, 1),
            ),
    {
        let capture = first_capture(NAMESERVER_LINE_PATTERN, nameserver_line.as_str(), 1);
        Self::ip_str_from_capture(nameserver_line, capture)
    }

    /// Keeps the captures that are present, in order.
    pub fn present_captures(found: &Vec<Option<(String, usize)>>) -> (spans: Vec<(String, usize)>)
        ensures
            spans_view(spans@) == present_spans(captures_view(found@)),
    {
        let ghost all = captures_view(found@);
        let mut spans: Vec<(String, usize)> = Vec::new();
        let n: usize = found.len();
        let mut i: usize = 0;
        assert(all.subrange(0, 0) =~= Seq::<Option<(Seq<char>, nat)>>::empty());
        assert(spans_view(spans@) =~= present_spans(all.subrange(0, 0)));
        while i < n
            invariant
                n == found@.len(),
                i <= n,
                all == captures_view(found@),
                spans_view(spans@) == present_spans(all.subrange(0, i as int)),
            decreases n - i,
        {
            let ghost before = spans_view(spans@);
            let ghost seen = all.subrange(0, i as int + 1);
            assert(seen.drop_last() =~= all.subrange(0, i as int));
            assert(seen.last() == all[i as int]);
            match &found[i] {
                Some((text, start)) => {
                    spans.push((text.clone(), *start));
                    assert(spans_view(spans@) =~= before.push((text@, *start as nat)));
                },
                None => {},
            }
            i += 1;
        }
        assert(all.subrange(0, n as int) =~= all);
        spans
    }

    /// Finds the active `nameserver` lines in the text of a file: each with
    /// the white space around it removed, and with the byte offset at which
    /// it starts.
    pub fn active_nameservers(&self, contents: &str) -> (lines: Vec<(String, usize)>)
        ensures
            spans_view(lines@) == present_spans(
                regex_all_captures(ACTIVE_NAMESERVER_PATTERN@, contents@, 2),
            ),
    {
        Self::present_captures(&all_captures(ACTIVE_NAMESERVER_PATTERN, contents, 2))
    }

    pub fn check_disconnected(&self, active_nameservers: &Vec<IpAddress>) -> (r: Result<
        (),
        DnsInspectionError,
    >)
        ensures
            active_nameservers@.len() == 0 ==> r == Err::<(), DnsInspectionError>(
                DnsInspectionError::NotConnected,
            ),
            active_nameservers@.len() > 0 ==> r is Ok,
    {
        if active_nameservers.len() == 0 {
            Err(DnsInspectionError::NotConnected)
        } else {
            Ok(())
        }
    }

    /// For each active `nameserver` line of the text, the word after
    /// `nameserver` or the complaint about the line.
    pub fn nameserver_tokens(&self, contents: &str) -> (tokens: Vec<
        Result<String, DnsInspectionError>,
    >)
        ensures
            ({
                let lines = present_spans(
                    regex_all_captures(ACTIVE_NAMESERVER_PATTERN@, contents@, 2),
                );
                &&& tokens@.len() == lines.len()
                &&& forall|i: int|
                    0 <= i < lines.len() ==> text_result_view(#[trigger] tokens@[i])
                        == Self::ip_str_spec(
                        lines[i].0,
                        regex_first_capture(NAMESERVER_LINE_PATTERN@, lines[i].0, 1),
                    )
            }),
    {
        let lines = self.active_nameservers(contents);
        let ghost all = spans_view(lines@);
        let mut tokens: Vec<Result<String, DnsInspectionError>> = Vec::new();
        let n: usize = lines.len();
        let mut i: usize = 0;
        while i < n
            invariant
                n == lines@.len(),
                i <= n,
                all == spans_view(lines@),
                tokens@.len() == i,
                forall|j: int|
                    0 <= j < i ==> text_result_view(#[trigger] tokens@[j]) == Self::ip_str_spec(
                        all[j].0,
                        regex_first_capture(NAMESERVER_LINE_PATTERN@, all[j].0, 1),
                    ),
            decreases n - i,
        {
            let line = lines[i].0.clone();
            assert(line@ == all[i as int].0);
            tokens.push(self.nameserver_line_to_ip_str(line));
            i += 1;
        }
        tokens
    }

    /// What the entries of a file come to: the addresses of all the lines
    /// that have one, if any has; otherwise the complaint about the first
    /// line; and with no lines at all, that the host is not connected.
    pub open spec fn inspect_contents_spec(entries: Seq<NameserverEntry>) -> Result<
        Seq<IpAddress>,
        DnsInspectionErrorView,
    > {
        let addresses = addresses_of(entries);
        if addresses.len() > 0 {
            Ok(addresses)
        } else {
            match first_complaint(entries) {
                Some(e) => Err(e),
                None => Err(DnsInspectionErrorView::NotConnected),
            }
        }
    }

    /// Decides what the active `nameserver` lines of a file come to, once
    /// the caller has tried to read an address out of each word.
    pub fn inspect_contents(&self, entries: Vec<NameserverEntry>) -> (r: Result<
        Vec<IpAddress>,
        DnsInspectionError,
    >)
        ensures
            inspection_view(r) == Self::inspect_contents_spec(entries@),
    {
        let mut ip_vec: Vec<IpAddress> = Vec::new();
        let mut failure: Option<DnsInspectionError> = None;
        let n: usize = entries.len();
        let mut i: usize = 0;
        assert(entries@.subrange(0, 0) =~= Seq::<NameserverEntry>::empty());
        while i < n
            invariant
                n == entries@.len(),
                i <= n,
                ip_vec@ == addresses_of(entries@.subrange(0, i as int)),
                match failure {
                    Some(e) => first_complaint(entries@.subrange(0, i as int)) == Some(e@),
                    None => first_complaint(entries@.subrange(0, i as int)) is None,
                },
            decreases n - i,
        {
            let ghost seen = entries@.subrange(0, i as int + 1);
            assert(seen.drop_last() =~= entries@.subrange(0, i as int));
            assert(seen.last() == entries@[i as int]);
            let entry = &entries[i];
            match &entry.token {
                Err(e) => {
                    if failure.is_none() {
                        failure = Some(e.clone());
                    }
                },
                Ok(token) => match entry.address {
                    Some(address) => {
                        ip_vec.push(address);
                    },
                    None => {
                        if failure.is_none() {
                            failure = Some(DnsInspectionError::BadEntryFormat(token.clone()));
                        }
                    },
                },
            }
            i += 1;
        }
        assert(entries@.subrange(0, n as int) =~= entries@);
        if ip_vec.len() == 0 {
            return match failure {
                Some(e) => Err(e),
                None => Err(DnsInspectionError::NotConnected),
            };
        }
        match self.check_disconnected(&ip_vec) {
            Ok(_) => Ok(ip_vec),
            Err(e) => Err(e),
        }
    }
}

} // verus!
