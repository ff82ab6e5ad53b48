//! The proxy service: its reported state, the daily schedule it keeps, and
//! the lines of its access log.
use vstd::prelude::*;
use crate::api::white_space;

verus! {

/// The state of the proxy service as its service manager reports it.
#[derive(PartialEq, Eq, Structural, Clone, Copy, Debug)]
pub enum ActiveState {
    Active,
    Deactivating,
    Inactive,
    Unknown,
}

/// The reported status of the proxy service.
#[derive(Debug)]
pub struct ServiceStatus {
    pub active: ActiveState,
}

/// The pattern of the line of a status report that gives the state.
pub const ACTIVE_LINE: &'static str = " +Active: ([^ ]+) ";

/// What capture group `group` of the first match of `pattern` in `text`
/// holds, when the pattern is valid, matches, and the group took part.
pub uninterp spec fn first_capture(pattern: Seq<char>, text: Seq<char>, group: usize) -> Option<Seq<char>>;

/// Relies on regex's `Regex::new`, `Regex::captures` and `Captures::get`:
/// the text of capture group `group` in the leftmost match of `pattern` in
/// `text`. Nothing comes back for an invalid pattern, no match, or a group
/// that did not take part in the match.
#[verifier::external_body]
fn capture(pattern: &str, text: &str, group: usize) -> (r: Option<String>)
    ensures
        r matches Some(s) ==> first_capture(pattern@, text@, group) == Some(s@),
        r is None ==> first_capture(pattern@, text@, group) is None,
{
    let re = match regex::Regex::new(pattern) {
        Ok(re) => re,
        Err(_) => return None,
    };
    let caps = re.captures(text)?;
    let m = caps.get(group)?;
    Some(m.as_str().to_string())
}

/// The state that a status word names.
pub open spec fn state_named(word: Seq<char>) -> ActiveState {
    if word == "active"@ {
        ActiveState::Active
    } else if word == "deactivating"@ {
        ActiveState::Deactivating
    } else if word == "inactive"@ {
        ActiveState::Inactive
    } else {
        ActiveState::Unknown
    }
}

/// The state that the status word captured from a report names; unknown
/// when nothing was captured.
pub open spec fn state_of_capture(word: Option<Seq<char>>) -> ActiveState {
    match word {
        Some(w) => state_named(w),
        None => ActiveState::Unknown,
    }
}

/// The state named by a status word such as `active`.
pub fn state_from_word(word: &str) -> (r: ActiveState)
    ensures
        r == state_named(word@),
{
    let w = String::from_str(word);
    if w == String::from_str("active") {
        ActiveState::Active
    } else if w == String::from_str("deactivating") {
        ActiveState::Deactivating
    } else if w == String::from_str("inactive") {
        ActiveState::Inactive
    } else {
        ActiveState::Unknown
    }
}

impl ServiceStatus {
    /// Reads the state from the output of the service manager's status
    /// command: the word after `Active:` on the first line that has one.
    pub fn from_output(output: &str) -> (r: ServiceStatus)
        ensures
            r.active == state_of_capture(first_capture(ACTIVE_LINE@, output@, 1)),
    {
        match capture(ACTIVE_LINE, output, 1) {
            Some(w) => ServiceStatus { active: state_from_word(w.as_str()) },
            None => ServiceStatus { active: ActiveState::Unknown },
        }
    }

    /// The status from a finished status command: its output is read when
    /// the exit code is one the command documents (0 to 4), and the state is
    /// unknown otherwise.
    pub fn from_exit(code: i32, stdout: &str) -> (r: ServiceStatus)
        ensures
            0 <= code <= 4 ==> r.active == state_of_capture(first_capture(ACTIVE_LINE@, stdout@, 1)),
            !(0 <= code <= 4) ==> r.active == ActiveState::Unknown,
    {
        if 0 <= code && code <= 4 {
            ServiceStatus::from_output(stdout)
        } else {
            ServiceStatus { active: ActiveState::Unknown }
        }
    }
}

/// The proxy is meant to run from 07:00 until 21:30.
pub open spec fn proxy_up_at(hour: u32, minute: u32) -> bool {
    hour >= 7 && (hour < 21 || (hour == 21 && minute < 30))
}

/// Whether the proxy should be running at the given local time of day.
pub fn proxy_should_be_up(hour: u32, minute: u32) -> (r: bool)
    ensures
        r == proxy_up_at(hour, minute),
{
    hour >= 7 && (hour < 21 || (hour == 21 && minute < 30))
}

/// What the schedule asks of the service at the given local time, given its
/// state: `Some(true)` to start it, `Some(false)` to stop it, `None` when it
/// is already as it should be.
pub fn proxy_schedule_action(hour: u32, minute: u32, state: ActiveState) -> (r: Option<bool>)
    ensures
        proxy_up_at(hour, minute) == (state == ActiveState::Active) ==> r is None,
        proxy_up_at(hour, minute) != (state == ActiveState::Active) ==> r == Some(proxy_up_at(hour, minute)),
{
    let up = proxy_should_be_up(hour, minute);
    let running = state == ActiveState::Active;
    if up != running {
        Some(up)
    } else {
        None
    }
}

/// The value of a decimal digit character.
pub open spec fn digit_value(c: char) -> int {
    (c as int) - ('0' as int)
}

pub open spec fn is_digit(c: char) -> bool {
    '0' <= c <= '9'
}

/// The number that a string of decimal digits denotes.
pub open spec fn digits_value(d: Seq<char>) -> int
    decreases d.len(),
{
    if d.len() == 0 {
        0
    } else {
        digits_value(d.drop_last()) * 10 + digit_value(d.last())
    }
}

/// The digits of an unsigned number: the text without one leading `+`.
pub open spec fn unsigned_digits(s: Seq<char>) -> Seq<char> {
    if s.len() > 0 && s[0] == '+' {
        s.drop_first()
    } else {
        s
    }
}

/// What parsing `s` as a `u64` gives: an optional `+` and then at least one
/// decimal digit, denoting a number that fits.
pub open spec fn parsed_u64(s: Seq<char>) -> Option<u64> {
    let d = unsigned_digits(s);
    if d.len() > 0 && (forall|i: int| 0 <= i < d.len() ==> is_digit(#[trigger] d[i])) && digits_value(d)
        <= u64::MAX {
        Some(digits_value(d) as u64)
    } else {
        None
    }
}

proof fn lemma_digits_value_grows(d: Seq<char>, k: int)
    requires
        0 <= k <= d.len(),
        forall|i: int| 0 <= i < d.len() ==> is_digit(#[trigger] d[i]),
    ensures
        digits_value(d.subrange(0, k)) <= digits_value(d),
        0 <= digits_value(d.subrange(0, k)),
    decreases d.len() - k,
{
    if k < d.len() {
        let next = d.subrange(0, k + 1);
        assert(next.drop_last() =~= d.subrange(0, k));
        lemma_digits_value_grows(d, k + 1);
    } else {
        assert(d.subrange(0, k) =~= d);
        lemma_digits_value_nonneg(d);
    }
}

proof fn lemma_digits_value_nonneg(d: Seq<char>)
    requires
        forall|i: int| 0 <= i < d.len() ==> is_digit(#[trigger] d[i]),
    ensures
        0 <= digits_value(d),
    decreases d.len(),
{
    if d.len() > 0 {
        assert forall|i: int| 0 <= i < d.drop_last().len() implies is_digit(#[trigger] d.drop_last()[i]) by {
            assert(d.drop_last()[i] == d[i]);
        }
        lemma_digits_value_nonneg(d.drop_last());
    }
}

/// Parses a decimal `u64`, as `str::parse` does.
pub fn parse_u64(s: &str) -> (r: Option<u64>)
    ensures
        r == parsed_u64(s@),
{
    let n = s.unicode_len();
    let mut i: usize = 0;
    if n > 0 && s.get_char(0) == '+' {
        i = 1;
    }
    let ghost d = unsigned_digits(s@);
    assert(d =~= s@.subrange(i as int, n as int));
    if i == n {
        return None;
    }
    let start = i;
    let mut acc: u64 = 0;
    while i < n
        invariant
            start <= i <= n,
            n == s@.len(),
            d == s@.subrange(start as int, n as int),
            d == unsigned_digits(s@),
            forall|m: int| 0 <= m < i - start ==> is_digit(#[trigger] d[m]),
            acc == digits_value(d.subrange(0, i - start)),
        decreases n - i,
    {
        let c = s.get_char(i);
        let ghost k = i - start;
        assert(d[k] == c);
        if !('0' <= c && c <= '9') {
            assert(!is_digit(d[k]));
            return None;
        }
        let v = (c as u32) - ('0' as u32);
        let ghost next = d.subrange(0, k + 1);
        assert(next.drop_last() =~= d.subrange(0, k));
        assert(next.last() == c);
        let m = acc.checked_mul(10);
        match m {
            None => {
                proof {
                    if forall|m: int| 0 <= m < d.len() ==> is_digit(#[trigger] d[m]) {
                        lemma_digits_value_grows(d, k + 1);
                        assert(digits_value(next) == acc * 10 + digit_value(c));
                        assert(acc * 10 > u64::MAX);
                        assert(digits_value(d) > u64::MAX);
                    }
                }
                return None;
            },
            Some(m) => {
                match m.checked_add(v as u64) {
                    None => {
                        proof {
                            if forall|m: int| 0 <= m < d.len() ==> is_digit(#[trigger] d[m]) {
                                lemma_digits_value_grows(d, k + 1);
                            }
                        }
                        return None;
                    },
                    Some(t) => {
                        acc = t;
                    },
                }
            },
        }
        i += 1;
    }
    assert(d.subrange(0, d.len() as int) =~= d);
    Some(acc)
}

/// The words of `s`: its maximal runs of characters that are not white
/// space, in order. Each character extends the last word when it follows a
/// character of a word, and starts a new word otherwise.
pub open spec fn words_of(s: Seq<char>) -> Seq<Seq<char>>
    decreases s.len(),
{
    if s.len() == 0 {
        Seq::empty()
    } else {
        let pre = words_of(s.drop_last());
        if white_space(s.last()) {
            pre
        } else if s.len() >= 2 && !white_space(s[s.len() - 2]) {
            pre.drop_last().push(pre.last().push(s.last()))
        } else {
            pre.push(seq![s.last()])
        }
    }
}

/// Relies on `str::split_whitespace`: the maximal runs of characters that are
/// not Unicode white space, in order.
#[verifier::external_body]
fn split_words(s: &str) -> (r: Vec<String>)
    ensures
        r@.map_values(|w: String| w@) == words_of(s@),
{
    s.split_whitespace().map(|w| w.to_string()).collect()
}

/// The instant that `s` gives when read with the chrono format `fmt`, in
/// milliseconds since the Unix epoch.
pub uninterp spec fn parsed_instant(s: Seq<char>, fmt: Seq<char>) -> Option<i64>;

/// Relies on chrono's `DateTime::parse_from_str` and
/// `DateTime::timestamp_millis`: the instant that `s` denotes in format `fmt`
/// (which must fix an offset), or nothing when it does not parse.
#[verifier::external_body]
fn parse_instant(s: &str, fmt: &str) -> (r: Option<i64>)
    ensures
        r == parsed_instant(s@, fmt@),
{
    match chrono::DateTime::parse_from_str(s, fmt) {
        Ok(d) => Some(d.timestamp_millis()),
        Err(_) => None,
    }
}

/// The format of the time stamp that opens an access-log line.
pub const LOG_DATE_FORMAT: &'static str = "%Y-%m-%dT%H:%M:%S%.3f%z";

/// The fields of an access-log line, in the order they appear.
#[derive(PartialEq, Eq, Structural, Clone, Copy, Debug)]
pub enum LogField {
    Date,
    ResponseTimeMillis,
    ClientIp,
    ClientFqdn,
    StatusCode,
    RequestSizeBytes,
    RequestMethod,
    RequestUrl,
    Username,
    PeerFqdn,
    MimeType,
}

/// Why an access-log line could not be read.
#[derive(PartialEq, Eq, Structural, Clone, Copy, Debug)]
pub enum LogError {
    /// The line ends before this field.
    Missing(LogField),
    /// The time stamp does not parse.
    InvalidDate,
    /// This numeric field does not parse.
    InvalidNumber(LogField),
}

/// One request recorded in the proxy's access log. `date` is in
/// milliseconds since the Unix epoch.
#[derive(PartialEq, Eq, Debug)]
pub struct LogEntry {
    pub date: i64,
    pub response_time_millis: u64,
    pub client_ip: String,
    pub client_fqdn: String,
    pub status_code: String,
    pub request_size_bytes: u64,
    pub request_method: String,
    pub request_url: String,
    pub username: String,
    pub peer_fqdn: String,
    pub mime_type: String,
}

/// Why the words `f` of a line do not make an entry, checking the fields in
/// order; `None` when they do. Words past the eleventh are ignored.
pub open spec fn log_error_of(f: Seq<Seq<char>>) -> Option<LogError> {
    if f.len() < 1 {
        Some(LogError::Missing(LogField::Date))
    } else if parsed_instant(f[0], LOG_DATE_FORMAT@) is None {
        Some(LogError::InvalidDate)
    } else if f.len() < 2 {
        Some(LogError::Missing(LogField::ResponseTimeMillis))
    } else if parsed_u64(f[1]) is None {
        Some(LogError::InvalidNumber(LogField::ResponseTimeMillis))
    } else if f.len() < 3 {
        Some(LogError::Missing(LogField::ClientIp))
    } else if f.len() < 4 {
        Some(LogError::Missing(LogField::ClientFqdn))
    } else if f.len() < 5 {
        Some(LogError::Missing(LogField::StatusCode))
    } else if f.len() < 6 {
        Some(LogError::Missing(LogField::RequestSizeBytes))
    } else if parsed_u64(f[5]) is None {
        Some(LogError::InvalidNumber(LogField::RequestSizeBytes))
    } else if f.len() < 7 {
        Some(LogError::Missing(LogField::RequestMethod))
    } else if f.len() < 8 {
        Some(LogError::Missing(LogField::RequestUrl))
    } else if f.len() < 9 {
        Some(LogError::Missing(LogField::Username))
    } else if f.len() < 10 {
        Some(LogError::Missing(LogField::PeerFqdn))
    } else if f.len() < 11 {
        Some(LogError::Missing(LogField::MimeType))
    } else {
        None
    }
}

/// `e` is the entry that the words `f` describe.
pub open spec fn entry_of(e: LogEntry, f: Seq<Seq<char>>) -> bool {
    &&& f.len() >= 11
    &&& parsed_instant(f[0], LOG_DATE_FORMAT@) == Some(e.date)
    &&& parsed_u64(f[1]) == Some(e.response_time_millis)
    &&& e.client_ip@ == f[2]
    &&& e.client_fqdn@ == f[3]
    &&& e.status_code@ == f[4]
    &&& parsed_u64(f[5]) == Some(e.request_size_bytes)
    &&& e.request_method@ == f[6]
    &&& e.request_url@ == f[7]
    &&& e.username@ == f[8]
    &&& e.peer_fqdn@ == f[9]
    &&& e.mime_type@ == f[10]
}

impl LogEntry {
    /// Builds an entry from the words of a log line.
    pub fn from_fields(fields: &Vec<String>) -> (r: Result<LogEntry, LogError>)
        ensures
            r matches Err(e) ==> log_error_of(fields@.map_values(|w: String| w@)) == Some(e),
            r matches Ok(e) ==> log_error_of(fields@.map_values(|w: String| w@)) is None && entry_of(
                e,
                fields@.map_values(|w: String| w@),
            ),
            r is Ok <==> log_error_of(fields@.map_values(|w: String| w@)) is None,
    {
        let ghost f = fields@.map_values(|w: String| w@);
        let n = fields.len();
        assert(f.len() == n);
        if n < 1 {
            return Err(LogError::Missing(LogField::Date));
        }
        let date = match parse_instant(fields[0].as_str(), LOG_DATE_FORMAT) {
            Some(d) => d,
            None => {
                return Err(LogError::InvalidDate);
            },
        };
        if n < 2 {
            return Err(LogError::Missing(LogField::ResponseTimeMillis));
        }
        let response_time_millis = match parse_u64(fields[1].as_str()) {
            Some(v) => v,
            None => {
                return Err(LogError::InvalidNumber(LogField::ResponseTimeMillis));
            },
        };
        if n < 3 {
            return Err(LogError::Missing(LogField::ClientIp));
        }
        if n < 4 {
            return Err(LogError::Missing(LogField::ClientFqdn));
        }
        if n < 5 {
            return Err(LogError::Missing(LogField::StatusCode));
        }
        if n < 6 {
            return Err(LogError::Missing(LogField::RequestSizeBytes));
        }
        let request_size_bytes = match parse_u64(fields[5].as_str()) {
            Some(v) => v,
            None => {
                return Err(LogError::InvalidNumber(LogField::RequestSizeBytes));
            },
        };
        if n < 7 {
            return Err(LogError::Missing(LogField::RequestMethod));
        }
        if n < 8 {
            return Err(LogError::Missing(LogField::RequestUrl));
        }
        if n < 9 {
            return Err(LogError::Missing(LogField::Username));
        }
        if n < 10 {
            return Err(LogError::Missing(LogField::PeerFqdn));
        }
        if n < 11 {
            return Err(LogError::Missing(LogField::MimeType));
        }
        Ok(LogEntry {
            date,
            response_time_millis,
            client_ip: fields[2].clone(),
            client_fqdn: fields[3].clone(),
            status_code: fields[4].clone(),
            request_size_bytes,
            request_method: fields[6].clone(),
            request_url: fields[7].clone(),
            username: fields[8].clone(),
            peer_fqdn: fields[9].clone(),
            mime_type: fields[10].clone(),
        })
    }

    /// Reads one line of the access log.
    pub fn parse(s: &str) -> (r: Result<LogEntry, LogError>)
        ensures
            r matches Err(e) ==> log_error_of(words_of(s@)) == Some(e),
            r matches Ok(e) ==> entry_of(e, words_of(s@)),
            r is Ok <==> log_error_of(words_of(s@)) is None,
    {
        let fields = split_words(s);
        LogEntry::from_fields(&fields)
    }
}

/// How a file of the log directory is read.
#[derive(PartialEq, Eq, Structural, Clone, Copy, Debug)]
pub enum LogFileKind {
    /// Not an access log.
    Skip,
    Plain,
    /// A compressed, rotated access log.
    Gzip,
}

/// `p` begins `s`.
pub open spec fn has_prefix(s: Seq<char>, p: Seq<char>) -> bool {
    p.len() <= s.len() && s.subrange(0, p.len() as int) == p
}

/// `p` ends `s`.
pub open spec fn has_suffix(s: Seq<char>, p: Seq<char>) -> bool {
    p.len() <= s.len() && s.subrange(s.len() - p.len(), s.len() as int) == p
}

fn starts_with(s: &str, p: &str) -> (r: bool)
    ensures
        r == has_prefix(s@, p@),
{
    let n = s.unicode_len();
    let k = p.unicode_len();
    if k > n {
        return false;
    }
    String::from_str(s.substring_char(0, k)) == String::from_str(p)
}

fn ends_with(s: &str, p: &str) -> (r: bool)
    ensures
        r == has_suffix(s@, p@),
{
    let n = s.unicode_len();
    let k = p.unicode_len();
    if k > n {
        return false;
    }
    String::from_str(s.substring_char(n - k, n)) == String::from_str(p)
}

/// How the log directory entry named `file_name` is read: files named
/// `access.log*` are access logs, compressed when the name ends in `.gz`.
pub fn log_file_kind(file_name: &str) -> (r: LogFileKind)
    ensures
        !has_prefix(file_name@, "access.log"@) ==> r == LogFileKind::Skip,
        has_prefix(file_name@, "access.log"@) && has_suffix(file_name@, ".gz"@) ==> r == LogFileKind::Gzip,
        has_prefix(file_name@, "access.log"@) && !has_suffix(file_name@, ".gz"@) ==> r == LogFileKind::Plain,
{
    if !starts_with(file_name, "access.log") {
        LogFileKind::Skip
    } else if ends_with(file_name, ".gz") {
        LogFileKind::Gzip
    } else {
        LogFileKind::Plain
    }
}

} // verus!
