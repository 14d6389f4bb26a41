//! The command protocol between the daemon and the command-line tool:
//! newline-delimited JSON, one object per line, one request and one response
//! per connection. The encoder pins the exact wire text; the decoders accept
//! a line with surrounding whitespace around that exact text.

use vstd::prelude::*;
use crate::strutil::{
    spec_dec, spec_digit, spec_trim, to_chars, from_chars, trim_chars, chars_eq, u64_to_chars,
    append_chars, matches_at, check_match_at,
};

verus! {

/// A request to the daemon.
#[derive(Debug, Clone, Copy, PartialEq, Eq, Structural)]
pub enum Command {
    /// Run one check-and-commit cycle over all enabled repositories.
    Trigger,
    /// Report uptime, interval and repository count.
    Status,
    /// Liveness check.
    Ping,
}

/// Whether a command succeeded.
#[derive(Debug, Clone, Copy, PartialEq, Eq, Structural)]
pub enum ResponseStatus {
    Okay,
    Error,
}

/// What one repository's check reported.
#[derive(Debug)]
pub struct RepoDetail {
    pub path: String,
    pub committed: bool,
    pub files_changed: Option<usize>,
    pub error: Option<String>,
}

/// Data carried by a response, depending on the command.
#[derive(Debug)]
pub enum ResponseData {
    Trigger { repos_checked: usize, repos_committed: usize, details: Vec<RepoDetail> },
    Status { uptime_seconds: u64, check_interval_seconds: u64, repositories_count: usize },
}

/// The daemon's answer to one request.
#[derive(Debug)]
pub struct Response {
    pub status: ResponseStatus,
    pub message: String,
    pub data: Option<ResponseData>,
}

/// One hexadecimal digit, lower case.
pub open spec fn spec_hex_digit(d: nat) -> char {
    if d == 0 {
        '0'
    } else if d == 1 {
        '1'
    } else if d == 2 {
        '2'
    } else if d == 3 {
        '3'
    } else if d == 4 {
        '4'
    } else if d == 5 {
        '5'
    } else if d == 6 {
        '6'
    } else if d == 7 {
        '7'
    } else if d == 8 {
        '8'
    } else if d == 9 {
        '9'
    } else if d == 10 {
        'a'
    } else if d == 11 {
        'b'
    } else if d == 12 {
        'c'
    } else if d == 13 {
        'd'
    } else if d == 14 {
        'e'
    } else {
        'f'
    }
}

/// How one character is written inside a JSON string: quote and backslash
/// are escaped, the named control characters use their short escapes, any
/// other control character uses `\u00XX`, everything else stands as itself.
pub open spec fn spec_escape_char(c: char) -> Seq<char> {
    if c == '"' {
        seq!['\\', '"']
    } else if c == '\\' {
        seq!['\\', '\\']
    } else if c == '\u{8}' {
        seq!['\\', 'b']
    } else if c == '\u{c}' {
        seq!['\\', 'f']
    } else if c == '\n' {
        seq!['\\', 'n']
    } else if c == '\r' {
        seq!['\\', 'r']
    } else if c == '\t' {
        seq!['\\', 't']
    } else if (c as u32) < 32 {
        seq!['\\', 'u', '0', '0', spec_hex_digit((c as u32 / 16) as nat), spec_hex_digit(
            (c as u32 % 16) as nat,
        )]
    } else {
        seq![c]
    }
}

/// The JSON rendering of a whole string (without the surrounding quotes).
pub open spec fn spec_json_escape(s: Seq<char>) -> Seq<char>
    decreases s.len(),
{
    if s.len() == 0 {
        Seq::<char>::empty()
    } else {
        spec_escape_char(s[0]) + spec_json_escape(s.skip(1))
    }
}

/// The JSON text of a status value.
pub open spec fn spec_status_label(s: ResponseStatus) -> Seq<char> {
    match s {
        ResponseStatus::Okay => "\"ok\""@,
        ResponseStatus::Error => "\"error\""@,
    }
}

/// The JSON text of a boolean.
pub open spec fn spec_bool_label(b: bool) -> Seq<char> {
    if b {
        "true"@
    } else {
        "false"@
    }
}

/// The JSON object for one repository detail; absent optional fields are
/// left out entirely.
pub open spec fn spec_detail_json(d: RepoDetail) -> Seq<char> {
    "{\"path\":\""@ + spec_json_escape(d.path@) + "\",\"committed\":"@ + spec_bool_label(
        d.committed,
    ) + (match d.files_changed {
        Some(n) => ",\"files_changed\":"@ + spec_dec(n as nat),
        None => Seq::<char>::empty(),
    }) + (match d.error {
        Some(e) => ",\"error\":\""@ + spec_json_escape(e@) + "\""@,
        None => Seq::<char>::empty(),
    }) + "}"@
}

/// The comma-separated JSON objects of a detail list.
pub open spec fn spec_details_json(ds: Seq<RepoDetail>) -> Seq<char>
    decreases ds.len(),
{
    if ds.len() == 0 {
        Seq::<char>::empty()
    } else if ds.len() == 1 {
        spec_detail_json(ds[0])
    } else {
        spec_detail_json(ds[0]) + ","@ + spec_details_json(ds.skip(1))
    }
}

/// The JSON object for a response's data.
#[verifier::opaque]
pub open spec fn spec_data_json(d: ResponseData) -> Seq<char> {
    match d {
        ResponseData::Trigger { repos_checked, repos_committed, details } => {
            "{\"type\":\"trigger\",\"repos_checked\":"@ + spec_dec(repos_checked as nat)
                + ",\"repos_committed\":"@ + spec_dec(repos_committed as nat) + ",\"details\":["@
                + spec_details_json(details@) + "]}"@
        },
        ResponseData::Status { uptime_seconds, check_interval_seconds, repositories_count } => {
            "{\"type\":\"status\",\"uptime_seconds\":"@ + spec_dec(uptime_seconds as nat)
                + ",\"check_interval_seconds\":"@ + spec_dec(check_interval_seconds as nat)
                + ",\"repositories_count\":"@ + spec_dec(repositories_count as nat) + "}"@
        },
    }
}

/// The JSON object for a whole response, without the trailing newline.
pub open spec fn spec_response_body(r: Response) -> Seq<char> {
    "{\"status\":"@ + spec_status_label(r.status) + ",\"message\":\""@ + spec_json_escape(
        r.message@,
    ) + "\""@ + (match r.data {
        Some(d) => ",\"data\":"@ + spec_data_json(d),
        None => Seq::<char>::empty(),
    }) + "}"@
}

/// The JSON object for a command, without the trailing newline.
pub open spec fn spec_command_body(c: Command) -> Seq<char> {
    match c {
        Command::Trigger => "{\"command\":\"trigger\"}"@,
        Command::Status => "{\"command\":\"status\"}"@,
        Command::Ping => "{\"command\":\"ping\"}"@,
    }
}

fn hex_digit_char(d: u32) -> (c: char)
    requires
        d < 16,
    ensures
        c == spec_hex_digit(d as nat),
{
    if d == 0 {
        '0'
    } else if d == 1 {
        '1'
    } else if d == 2 {
        '2'
    } else if d == 3 {
        '3'
    } else if d == 4 {
        '4'
    } else if d == 5 {
        '5'
    } else if d == 6 {
        '6'
    } else if d == 7 {
        '7'
    } else if d == 8 {
        '8'
    } else if d == 9 {
        '9'
    } else if d == 10 {
        'a'
    } else if d == 11 {
        'b'
    } else if d == 12 {
        'c'
    } else if d == 13 {
        'd'
    } else if d == 14 {
        'e'
    } else {
        'f'
    }
}

fn escape_char_onto(c: char, out: &mut Vec<char>)
    ensures
        final(out)@ == old(out)@ + spec_escape_char(c),
{
    if c == '"' {
        out.push('\\');
        out.push('"');
    } else if c == '\\' {
        out.push('\\');
        out.push('\\');
    } else if c == '\u{8}' {
        out.push('\\');
        out.push('b');
    } else if c == '\u{c}' {
        out.push('\\');
        out.push('f');
    } else if c == '\n' {
        out.push('\\');
        out.push('n');
    } else if c == '\r' {
        out.push('\\');
        out.push('r');
    } else if c == '\t' {
        out.push('\\');
        out.push('t');
    } else if (c as u32) < 32 {
        let n = c as u32;
        out.push('\\');
        out.push('u');
        out.push('0');
        out.push('0');
        out.push(hex_digit_char(n / 16));
        out.push(hex_digit_char(n % 16));
    } else {
        out.push(c);
    }
    proof {
        assert(final(out)@ =~= old(out)@ + spec_escape_char(c));
    }
}

/// The escaped JSON text of the characters of `s`.
fn escape_json_chars(s: &Vec<char>) -> (r: Vec<char>)
    ensures
        r@ == spec_json_escape(s@),
{
    let mut r: Vec<char> = Vec::new();
    let mut i: usize = 0;
    proof {
        assert(s@.skip(0) =~= s@);
    }
    while i < s.len()
        invariant
            i <= s@.len(),
            spec_json_escape(s@) == r@ + spec_json_escape(s@.skip(i as int)),
        decreases s@.len() - i,
    {
        proof {
            let rest = s@.skip(i as int);
            assert(rest[0] == s@[i as int]);
            assert(rest.skip(1) =~= s@.skip(i as int + 1));
            assert(spec_json_escape(rest) == spec_escape_char(s@[i as int]) + spec_json_escape(
                s@.skip(i as int + 1),
            ));
            assert((r@ + spec_escape_char(s@[i as int])) + spec_json_escape(s@.skip(i as int + 1))
                =~= r@ + (spec_escape_char(s@[i as int]) + spec_json_escape(s@.skip(i as int + 1))));
        }
        escape_char_onto(s[i], &mut r);
        i = i + 1;
    }
    proof {
        assert(s@.skip(s@.len() as int) =~= Seq::<char>::empty());
    }
    r
}

fn append_escaped(out: &mut String, s: &String)
    ensures
        final(out)@ == old(out)@ + spec_json_escape(s@),
{
    let chars = to_chars(s.as_str());
    let esc = escape_json_chars(&chars);
    append_chars(out, &esc);
}

fn append_usize(out: &mut String, n: usize)
    ensures
        final(out)@ == old(out)@ + spec_dec(n as nat),
{
    let digits = u64_to_chars(n as u64);
    append_chars(out, &digits);
}

fn append_u64(out: &mut String, n: u64)
    ensures
        final(out)@ == old(out)@ + spec_dec(n as nat),
{
    let digits = u64_to_chars(n);
    append_chars(out, &digits);
}

proof fn lemma_details_json_push(ds: Seq<RepoDetail>, x: RepoDetail)
    ensures
        spec_details_json(ds.push(x)) == if ds.len() == 0 {
            spec_detail_json(x)
        } else {
            spec_details_json(ds) + ","@ + spec_detail_json(x)
        },
    decreases ds.len(),
{
    if ds.len() == 0 {
        assert(ds.push(x).len() == 1);
        assert(ds.push(x)[0] == x);
    } else if ds.len() == 1 {
        assert(ds.push(x)[0] == ds[0]);
        assert(ds.push(x).skip(1) =~= seq![x]);
        assert(spec_details_json(seq![x]) == spec_detail_json(x));
        assert(spec_details_json(ds) == spec_detail_json(ds[0]));
    } else {
        assert(ds.push(x)[0] == ds[0]);
        assert(ds.push(x).skip(1) =~= ds.skip(1).push(x));
        lemma_details_json_push(ds.skip(1), x);
        assert((spec_detail_json(ds[0]) + ","@) + (spec_details_json(ds.skip(1)) + ","@
            + spec_detail_json(x)) =~= (spec_detail_json(ds[0]) + ","@ + spec_details_json(
            ds.skip(1),
        )) + ","@ + spec_detail_json(x));
    }
}

#[verifier::rlimit(60)]
fn detail_json_onto(d: &RepoDetail, out: &mut String)
    ensures
        final(out)@ == old(out)@ + spec_detail_json(*d),
{
    out.append("{\"path\":\"");
    append_escaped(out, &d.path);
    out.append("\",\"committed\":");
    if d.committed {
        out.append("true");
    } else {
        out.append("false");
    }
    match &d.files_changed {
        Some(n) => {
            out.append(",\"files_changed\":");
            append_usize(out, *n);
        },
        None => {},
    }
    match &d.error {
        Some(e) => {
            out.append(",\"error\":\"");
            append_escaped(out, e);
            out.append("\"");
        },
        None => {},
    }
    out.append("}");
}

fn data_json_onto(d: &ResponseData, out: &mut String)
    ensures
        final(out)@ == old(out)@ + spec_data_json(*d),
{
    proof {
        reveal(spec_data_json);
    }
    match d {
        ResponseData::Trigger { repos_checked, repos_committed, details } => {
            out.append("{\"type\":\"trigger\",\"repos_checked\":");
            append_usize(out, *repos_checked);
            out.append(",\"repos_committed\":");
            append_usize(out, *repos_committed);
            out.append(",\"details\":[");
            let ghost mid = out@;
            let mut i: usize = 0;
            while i < details.len()
                invariant
                    i <= details@.len(),
                    out@ == mid + spec_details_json(details@.subrange(0, i as int)),
                decreases details@.len() - i,
            {
                proof {
                    assert(details@.subrange(0, i as int).push(details@[i as int])
                        =~= details@.subrange(0, i as int + 1));
                    lemma_details_json_push(details@.subrange(0, i as int), details@[i as int]);
                }
                if i > 0 {
                    out.append(",");
                }
                detail_json_onto(&details[i], out);
                i = i + 1;
            }
            proof {
                assert(details@.subrange(0, details@.len() as int) =~= details@);
            }
            out.append("]}");
        },
        ResponseData::Status { uptime_seconds, check_interval_seconds, repositories_count } => {
            out.append("{\"type\":\"status\",\"uptime_seconds\":");
            append_u64(out, *uptime_seconds);
            out.append(",\"check_interval_seconds\":");
            append_u64(out, *check_interval_seconds);
            out.append(",\"repositories_count\":");
            append_usize(out, *repositories_count);
            out.append("}");
        },
    }
}

impl Response {
    /// A successful response with no data.
    pub fn ok(message: &str) -> (r: Response)
        ensures
            r.status == ResponseStatus::Okay,
            r.message@ == message@,
            r.data is None,
    {
        Response { status: ResponseStatus::Okay, message: String::from_str(message), data: None }
    }

    /// A successful response carrying data.
    pub fn ok_with_data(message: &str, data: ResponseData) -> (r: Response)
        ensures
            r.status == ResponseStatus::Okay,
            r.message@ == message@,
            r.data == Some(data),
    {
        Response {
            status: ResponseStatus::Okay,
            message: String::from_str(message),
            data: Some(data),
        }
    }

    /// An error response.
    pub fn error(message: &str) -> (r: Response)
        ensures
            r.status == ResponseStatus::Error,
            r.message@ == message@,
            r.data is None,
    {
        Response { status: ResponseStatus::Error, message: String::from_str(message), data: None }
    }

    /// The wire line for this response: its JSON object and a newline.
    pub fn to_json(&self) -> (r: String)
        ensures
            r@ == spec_response_body(*self) + "\n"@,
    {
        let mut out = String::new();
        out.append("{\"status\":");
        match self.status {
            ResponseStatus::Okay => out.append("\"ok\""),
            ResponseStatus::Error => out.append("\"error\""),
        }
        out.append(",\"message\":\"");
        append_escaped(&mut out, &self.message);
        out.append("\"");
        match &self.data {
            Some(d) => {
                out.append(",\"data\":");
                data_json_onto(d, &mut out);
            },
            None => {},
        }
        out.append("}");
        out.append("\n");
        out
    }
}

impl Command {
    /// The wire line for this command: its JSON object and a newline.
    pub fn to_json(&self) -> (r: String)
        ensures
            r@ == spec_command_body(*self) + "\n"@,
    {
        let mut out = match self {
            Command::Trigger => String::from_str("{\"command\":\"trigger\"}"),
            Command::Status => String::from_str("{\"command\":\"status\"}"),
            Command::Ping => String::from_str("{\"command\":\"ping\"}"),
        };
        out.append("\n");
        out
    }

    /// Parses one request line: exactly the JSON object of one command,
    /// with any surrounding whitespace tolerated.
    pub fn from_json(line: &str) -> (r: Result<Command, String>)
        ensures
            match r {
                Ok(c) => spec_trim(line@) == spec_command_body(c),
                Err(_) => forall|c: Command| spec_trim(line@) != spec_command_body(c),
            },
    {
        let chars = to_chars(line);
        let t = trim_chars(&chars);
        let trigger = to_chars("{\"command\":\"trigger\"}");
        let status = to_chars("{\"command\":\"status\"}");
        let ping = to_chars("{\"command\":\"ping\"}");
        if chars_eq(&t, &trigger) {
            Ok(Command::Trigger)
        } else if chars_eq(&t, &status) {
            Ok(Command::Status)
        } else if chars_eq(&t, &ping) {
            Ok(Command::Ping)
        } else {
            proof {
                assert forall|c: Command| spec_trim(line@) != spec_command_body(c) by {
                    match c {
                        Command::Trigger => {},
                        Command::Status => {},
                        Command::Ping => {},
                    }
                }
            }
            Err(String::from_str("Failed to parse command"))
        }
    }
}

/// The shape of one repository detail, at the level of character sequences;
/// the reference the response parser is specified against.
pub struct RepoDetailV {
    pub path: Seq<char>,
    pub committed: bool,
    pub files_changed: Option<usize>,
    pub error: Option<Seq<char>>,
}

/// The shape of a response's data at the view level.
pub enum ResponseDataV {
    Trigger { repos_checked: usize, repos_committed: usize, details: Seq<RepoDetailV> },
    Status { uptime_seconds: u64, check_interval_seconds: u64, repositories_count: usize },
}

/// The shape of a whole response at the view level.
pub struct ResponseV {
    pub status: ResponseStatus,
    pub message: Seq<char>,
    pub data: Option<ResponseDataV>,
}

/// The view of a repository detail.
pub open spec fn detail_v(d: RepoDetail) -> RepoDetailV {
    RepoDetailV {
        path: d.path@,
        committed: d.committed,
        files_changed: d.files_changed,
        error: match d.error {
            Some(e) => Some(e@),
            None => None,
        },
    }
}

/// The views of a detail list.
pub open spec fn details_view(ds: Seq<RepoDetail>) -> Seq<RepoDetailV> {
    ds.map_values(|x: RepoDetail| detail_v(x))
}

/// The view of a response's data.
pub open spec fn data_v(d: ResponseData) -> ResponseDataV {
    match d {
        ResponseData::Trigger { repos_checked, repos_committed, details } => {
            ResponseDataV::Trigger {
                repos_checked,
                repos_committed,
                details: details_view(details@),
            }
        },
        ResponseData::Status { uptime_seconds, check_interval_seconds, repositories_count } => {
            ResponseDataV::Status { uptime_seconds, check_interval_seconds, repositories_count }
        },
    }
}

/// The view of a whole response.
pub open spec fn response_v(r: Response) -> ResponseV {
    ResponseV {
        status: r.status,
        message: r.message@,
        data: match r.data {
            Some(d) => Some(data_v(d)),
            None => None,
        },
    }
}

/// Consumes `lit` at position `i`, if it is there.
pub open spec fn sp_lit(t: Seq<char>, i: int, lit: Seq<char>) -> Option<int> {
    if matches_at(t, i, lit) {
        Some(i + lit.len() as int)
    } else {
        None
    }
}

/// Prepends one character to a string-parse result.
pub open spec fn sp_cons(c: char, rest: Option<(Seq<char>, int)>) -> Option<(Seq<char>, int)> {
    match rest {
        Some((m, j)) => Some((seq![c] + m, j)),
        None => None,
    }
}

/// The value of one lower-case hexadecimal digit, or 16 for any other
/// character.
pub open spec fn spec_hex_val(c: char) -> nat {
    if '0' <= c && c <= '9' {
        (c as nat - '0' as nat) as nat
    } else if 'a' <= c && c <= 'f' {
        (c as nat - 'a' as nat + 10) as nat
    } else {
        16
    }
}

/// The control characters that use a named escape rather than `\u00XX`.
pub open spec fn spec_named_code(code: nat) -> bool {
    code == 8 || code == 9 || code == 10 || code == 12 || code == 13
}

/// Parses the tail of a JSON string, the opening quote already consumed,
/// through its closing quote; yields the unescaped text. Only the escapes
/// that the encoder writes are accepted.
pub open spec fn sp_string(t: Seq<char>, i: int) -> Option<(Seq<char>, int)>
    decreases t.len() - i,
{
    if i < 0 || i >= t.len() {
        None
    } else if t[i] == '"' {
        Some((Seq::<char>::empty(), i + 1))
    } else if t[i] == '\\' {
        if i + 1 < t.len() {
            let c = t[i + 1];
            if c == '"' {
                sp_cons('"', sp_string(t, i + 2))
            } else if c == '\\' {
                sp_cons('\\', sp_string(t, i + 2))
            } else if c == 'b' {
                sp_cons('\u{8}', sp_string(t, i + 2))
            } else if c == 'f' {
                sp_cons('\u{c}', sp_string(t, i + 2))
            } else if c == 'n' {
                sp_cons('\n', sp_string(t, i + 2))
            } else if c == 'r' {
                sp_cons('\r', sp_string(t, i + 2))
            } else if c == 't' {
                sp_cons('\t', sp_string(t, i + 2))
            } else if c == 'u' {
                if i + 5 < t.len() && t[i + 2] == '0' && t[i + 3] == '0' && spec_hex_val(t[i + 4])
                    < 16 && spec_hex_val(t[i + 5]) < 16 {
                    let code = spec_hex_val(t[i + 4]) * 16 + spec_hex_val(t[i + 5]);
                    if code < 32 && !spec_named_code(code) {
                        sp_cons(code as char, sp_string(t, i + 6))
                    } else {
                        None
                    }
                } else {
                    None
                }
            } else {
                None
            }
        } else {
            None
        }
    } else if (t[i] as u32) < 32 {
        None
    } else {
        sp_cons(t[i], sp_string(t, i + 1))
    }
}

/// A decimal digit.
pub open spec fn spec_is_digit(c: char) -> bool {
    '0' <= c && c <= '9'
}

/// The position just past the run of digits starting at `i`.
pub open spec fn sp_run_end(t: Seq<char>, i: int) -> int
    decreases t.len() - i,
{
    if 0 <= i && i < t.len() && spec_is_digit(t[i]) {
        sp_run_end(t, i + 1)
    } else {
        i
    }
}

/// The number written by a sequence of decimal digits.
pub open spec fn spec_digits_val(s: Seq<char>) -> nat
    decreases s.len(),
{
    if s.len() == 0 {
        0
    } else {
        spec_digits_val(s.drop_last()) * 10 + (s.last() as int - '0' as int) as nat
    }
}

/// Parses a run of decimal digits as a `u64`; a value over `u64::MAX`
/// fails.
pub open spec fn sp_number(t: Seq<char>, i: int) -> Option<(u64, int)> {
    if 0 <= i && i < t.len() && spec_is_digit(t[i]) {
        let j = sp_run_end(t, i);
        let v = spec_digits_val(t.subrange(i, j));
        if v <= u64::MAX {
            Some((v as u64, j))
        } else {
            None
        }
    } else {
        None
    }
}

/// Parses `true` or `false`.
pub open spec fn sp_bool(t: Seq<char>, i: int) -> Option<(bool, int)> {
    if matches_at(t, i, "true"@) {
        Some((true, i + "true"@.len() as int))
    } else if matches_at(t, i, "false"@) {
        Some((false, i + "false"@.len() as int))
    } else {
        None
    }
}

/// Parses one repository-detail object.
pub open spec fn sp_detail(t: Seq<char>, i: int) -> Option<(RepoDetailV, int)> {
    match sp_lit(t, i, "{\"path\":\""@) {
        Some(i1) => match sp_string(t, i1) {
            Some((path, i2)) => match sp_lit(t, i2, ",\"committed\":"@) {
                Some(i3) => match sp_bool(t, i3) {
                    Some((committed, i4)) => {
                        let (files_changed, i5opt) = if matches_at(
                            t,
                            i4,
                            ",\"files_changed\":"@,
                        ) {
                            match sp_number(t, i4 + ",\"files_changed\":"@.len() as int) {
                                Some((n, i5)) => if n <= usize::MAX as u64 {
                                    (Some(n as usize), Some(i5))
                                } else {
                                    (None, None)
                                },
                                None => (None, None),
                            }
                        } else {
                            (None, Some(i4))
                        };
                        match i5opt {
                            Some(i5) => {
                                let (error, i6opt) = if matches_at(t, i5, ",\"error\":\""@) {
                                    match sp_string(t, i5 + ",\"error\":\""@.len() as int) {
                                        Some((e, i6)) => (Some(e), Some(i6)),
                                        None => (None, None),
                                    }
                                } else {
                                    (None, Some(i5))
                                };
                                match i6opt {
                                    Some(i6) => match sp_lit(t, i6, "}"@) {
                                        Some(i7) => Some(
                                            (
                                                RepoDetailV { path, committed, files_changed, error },
                                                i7,
                                            ),
                                        ),
                                        None => None,
                                    },
                                    None => None,
                                }
                            },
                            None => None,
                        }
                    },
                    None => None,
                },
                None => None,
            },
            None => None,
        },
        None => None,
    }
}

/// How far a successful string parse reaches.
pub proof fn lemma_sp_string_consumes(t: Seq<char>, i: int)
    ensures
        sp_string(t, i) matches Some((m, j)) ==> i < j <= t.len(),
    decreases t.len() - i,
{
    if 0 <= i && i < t.len() {
        if t[i] == '"' {
        } else if t[i] == '\\' {
            if i + 1 < t.len() {
                lemma_sp_string_consumes(t, i + 2);
                if i + 5 < t.len() {
                    lemma_sp_string_consumes(t, i + 6);
                }
            }
        } else {
            lemma_sp_string_consumes(t, i + 1);
        }
    }
}

/// How far a digit run reaches.
pub proof fn lemma_sp_run_end_bounds(t: Seq<char>, i: int)
    requires
        0 <= i <= t.len(),
    ensures
        i <= sp_run_end(t, i) <= t.len(),
    decreases t.len() - i,
{
    if i < t.len() && spec_is_digit(t[i]) {
        lemma_sp_run_end_bounds(t, i + 1);
    }
}

/// How far a successful detail parse reaches.
pub proof fn lemma_sp_detail_consumes(t: Seq<char>, i: int)
    ensures
        sp_detail(t, i) matches Some((d, j)) ==> i < j <= t.len(),
{
    if sp_detail(t, i) is Some {
        reveal_strlit("{\"path\":\"");
        reveal_strlit(",\"committed\":");
        reveal_strlit("true");
        reveal_strlit("false");
        reveal_strlit(",\"files_changed\":");
        reveal_strlit(",\"error\":\"");
        reveal_strlit("}");
        let i1 = sp_lit(t, i, "{\"path\":\""@)->Some_0;
        lemma_sp_string_consumes(t, i1);
        let (path, i2) = sp_string(t, i1)->Some_0;
        let i3 = sp_lit(t, i2, ",\"committed\":"@)->Some_0;
        let (b, i4) = sp_bool(t, i3)->Some_0;
        if matches_at(t, i4, ",\"files_changed\":"@) {
            let i4a = i4 + ",\"files_changed\":"@.len() as int;
            lemma_sp_run_end_bounds(t, i4a);
        }
        if sp_detail(t, i) is Some {
            let i5 = if matches_at(t, i4, ",\"files_changed\":"@) {
                sp_number(t, i4 + ",\"files_changed\":"@.len() as int)->Some_0.1
            } else {
                i4
            };
            if matches_at(t, i5, ",\"error\":\""@) {
                lemma_sp_string_consumes(t, i5 + ",\"error\":\""@.len() as int);
            }
        }
    }
}

/// Parses the details after the first element: either the closing bracket
/// or a comma and one more detail, repeatedly.
pub open spec fn sp_details_more(t: Seq<char>, i: int) -> Option<(Seq<RepoDetailV>, int)>
    decreases t.len() - i,
    via sp_details_more_decreases
{
    if 0 <= i && i < t.len() && t[i] == ']' {
        Some((Seq::<RepoDetailV>::empty(), i + 1))
    } else if 0 <= i && i < t.len() && t[i] == ',' {
        match sp_detail(t, i + 1) {
            Some((d, j)) => match sp_details_more(t, j) {
                Some((ds, k)) => Some((seq![d] + ds, k)),
                None => None,
            },
            None => None,
        }
    } else {
        None
    }
}

#[via_fn]
proof fn sp_details_more_decreases(t: Seq<char>, i: int) {
    if 0 <= i && i < t.len() && t[i] != ']' && t[i] == ',' {
        lemma_sp_detail_consumes(t, i + 1);
    }
}

/// Parses a detail list after its opening bracket, through the closing
/// bracket.
pub open spec fn sp_details(t: Seq<char>, i: int) -> Option<(Seq<RepoDetailV>, int)> {
    if 0 <= i && i < t.len() && t[i] == ']' {
        Some((Seq::<RepoDetailV>::empty(), i + 1))
    } else {
        match sp_detail(t, i) {
            Some((d, j)) => match sp_details_more(t, j) {
                Some((ds, k)) => Some((seq![d] + ds, k)),
                None => None,
            },
            None => None,
        }
    }
}

/// Parses the response's status value.
pub open spec fn sp_status(t: Seq<char>, i: int) -> Option<(ResponseStatus, int)> {
    if matches_at(t, i, "\"ok\""@) {
        Some((ResponseStatus::Okay, i + "\"ok\""@.len() as int))
    } else if matches_at(t, i, "\"error\""@) {
        Some((ResponseStatus::Error, i + "\"error\""@.len() as int))
    } else {
        None
    }
}

/// Parses the data object of a response.
pub open spec fn sp_data(t: Seq<char>, i: int) -> Option<(ResponseDataV, int)> {
    if matches_at(t, i, "{\"type\":\"trigger\",\"repos_checked\":"@) {
        let i1 = i + "{\"type\":\"trigger\",\"repos_checked\":"@.len() as int;
        match sp_number(t, i1) {
            Some((rc, i2)) => if rc <= usize::MAX as u64 {
                match sp_lit(t, i2, ",\"repos_committed\":"@) {
                    Some(i3) => match sp_number(t, i3) {
                        Some((rm, i4)) => if rm <= usize::MAX as u64 {
                            match sp_lit(t, i4, ",\"details\":["@) {
                                Some(i5) => match sp_details(t, i5) {
                                    Some((ds, i6)) => match sp_lit(t, i6, "}"@) {
                                        Some(i7) => Some(
                                            (
                                                ResponseDataV::Trigger {
                                                    repos_checked: rc as usize,
                                                    repos_committed: rm as usize,
                                                    details: ds,
                                                },
                                                i7,
                                            ),
                                        ),
                                        None => None,
                                    },
                                    None => None,
                                },
                                None => None,
                            }
                        } else {
                            None
                        },
                        None => None,
                    },
                    None => None,
                }
            } else {
                None
            },
            None => None,
        }
    } else if matches_at(t, i, "{\"type\":\"status\",\"uptime_seconds\":"@) {
        let i1 = i + "{\"type\":\"status\",\"uptime_seconds\":"@.len() as int;
        match sp_number(t, i1) {
            Some((up, i2)) => match sp_lit(t, i2, ",\"check_interval_seconds\":"@) {
                Some(i3) => match sp_number(t, i3) {
                    Some((ci, i4)) => match sp_lit(t, i4, ",\"repositories_count\":"@) {
                        Some(i5) => match sp_number(t, i5) {
                            Some((n, i6)) => if n <= usize::MAX as u64 {
                                match sp_lit(t, i6, "}"@) {
                                    Some(i7) => Some(
                                        (
                                            ResponseDataV::Status {
                                                uptime_seconds: up,
                                                check_interval_seconds: ci,
                                                repositories_count: n as usize,
                                            },
                                            i7,
                                        ),
                                    ),
                                    None => None,
                                }
                            } else {
                                None
                            },
                            None => None,
                        },
                        None => None,
                    },
                    None => None,
                },
                None => None,
            },
            None => None,
        }
    } else {
        None
    }
}

/// Parses a whole response line (already trimmed): the reference the
/// executable parser is proved against.
pub open spec fn sp_response(t: Seq<char>) -> Option<ResponseV> {
    match sp_lit(t, 0, "{\"status\":"@) {
        Some(i1) => match sp_status(t, i1) {
            Some((status, i2)) => match sp_lit(t, i2, ",\"message\":\""@) {
                Some(i3) => match sp_string(t, i3) {
                    Some((message, i4)) => if matches_at(t, i4, ",\"data\":"@) {
                        let i5 = i4 + ",\"data\":"@.len() as int;
                        match sp_data(t, i5) {
                            Some((data, i6)) => match sp_lit(t, i6, "}"@) {
                                Some(i7) => if i7 == t.len() {
                                    Some(ResponseV { status, message, data: Some(data) })
                                } else {
                                    None
                                },
                                None => None,
                            },
                            None => None,
                        }
                    } else {
                        match sp_lit(t, i4, "}"@) {
                            Some(i5) => if i5 == t.len() {
                                Some(ResponseV { status, message, data: None })
                            } else {
                                None
                            },
                            None => None,
                        }
                    },
                    None => None,
                },
                None => None,
            },
            None => None,
        },
        None => None,
    }
}

/// Prepends already-parsed characters to a string-parse result.
pub open spec fn sp_cons_seq(
    prefix: Seq<char>,
    rest: Option<(Seq<char>, int)>,
) -> Option<(Seq<char>, int)> {
    match rest {
        Some((m, j)) => Some((prefix + m, j)),
        None => None,
    }
}

/// Prepends already-parsed details to a detail-list parse result.
pub open spec fn sp_app_details(
    prefix: Seq<RepoDetailV>,
    rest: Option<(Seq<RepoDetailV>, int)>,
) -> Option<(Seq<RepoDetailV>, int)> {
    match rest {
        Some((ds, k)) => Some((prefix + ds, k)),
        None => None,
    }
}

proof fn lemma_cons_seq_shift(prefix: Seq<char>, c: char, rest: Option<(Seq<char>, int)>)
    ensures
        sp_cons_seq(prefix, sp_cons(c, rest)) == sp_cons_seq(prefix.push(c), rest),
{
    match rest {
        Some((m, j)) => {
            assert(prefix + (seq![c] + m) =~= prefix.push(c) + m);
        },
        None => {},
    }
}

fn px_lit(t: &Vec<char>, i: usize, lit: &Vec<char>) -> (r: Option<usize>)
    requires
        i <= t@.len(),
    ensures
        match r {
            Some(j) => sp_lit(t@, i as int, lit@) == Some(j as int) && i + lit@.len() == j && j
                <= t@.len(),
            None => sp_lit(t@, i as int, lit@) is None,
        },
{
    let n = t.len();
    if check_match_at(t, i, lit) {
        proof {
            assert(i + lit@.len() <= n);
        }
        Some(i + lit.len())
    } else {
        None
    }
}

fn is_digit_ch(c: char) -> (r: bool)
    ensures
        r == spec_is_digit(c),
{
    let u = c as u32;
    48 <= u && u <= 57
}

fn hex_val_ch(c: char) -> (v: u32)
    ensures
        v as nat == spec_hex_val(c),
{
    let u = c as u32;
    if 48 <= u && u <= 57 {
        u - 48
    } else if 97 <= u && u <= 102 {
        u - 97 + 10
    } else {
        16
    }
}

fn px_string(t: &Vec<char>, i: usize) -> (r: Option<(Vec<char>, usize)>)
    requires
        i <= t@.len(),
    ensures
        match r {
            Some((m, j)) => sp_string(t@, i as int) == Some((m@, j as int)) && i < j <= t@.len(),
            None => sp_string(t@, i as int) is None,
        },
{
    let n = t.len();
    let mut out: Vec<char> = Vec::new();
    let mut cur = i;
    proof {
        assert(Seq::<char>::empty() + sp_string(t@, i as int)->Some_0.0 =~= sp_string(
            t@,
            i as int,
        )->Some_0.0);
        assert(sp_string(t@, i as int) == sp_cons_seq(out@, sp_string(t@, cur as int)));
    }
    loop
        invariant
            i <= cur <= n,
            n == t@.len(),
            sp_string(t@, i as int) == sp_cons_seq(out@, sp_string(t@, cur as int)),
        decreases n - cur,
    {
        if cur >= n {
            return None;
        }
        let c = t[cur];
        if c == '"' {
            proof {
                assert(out@ + Seq::<char>::empty() =~= out@);
            }
            return Some((out, cur + 1));
        } else if c == '\\' {
            if cur + 1 >= n {
                return None;
            }
            let e = t[cur + 1];
            if e == '"' {
                proof {
                    lemma_cons_seq_shift(out@, '"', sp_string(t@, cur as int + 2));
                }
                out.push('"');
                cur = cur + 2;
            } else if e == '\\' {
                proof {
                    lemma_cons_seq_shift(out@, '\\', sp_string(t@, cur as int + 2));
                }
                out.push('\\');
                cur = cur + 2;
            } else if e == 'b' {
                proof {
                    lemma_cons_seq_shift(out@, '\u{8}', sp_string(t@, cur as int + 2));
                }
                out.push('\u{8}');
                cur = cur + 2;
            } else if e == 'f' {
                proof {
                    lemma_cons_seq_shift(out@, '\u{c}', sp_string(t@, cur as int + 2));
                }
                out.push('\u{c}');
                cur = cur + 2;
            } else if e == 'n' {
                proof {
                    lemma_cons_seq_shift(out@, '\n', sp_string(t@, cur as int + 2));
                }
                out.push('\n');
                cur = cur + 2;
            } else if e == 'r' {
                proof {
                    lemma_cons_seq_shift(out@, '\r', sp_string(t@, cur as int + 2));
                }
                out.push('\r');
                cur = cur + 2;
            } else if e == 't' {
                proof {
                    lemma_cons_seq_shift(out@, '\t', sp_string(t@, cur as int + 2));
                }
                out.push('\t');
                cur = cur + 2;
            } else if e == 'u' {
                if n - cur < 6 {
                    return None;
                }
                if t[cur + 2] != '0' || t[cur + 3] != '0' {
                    return None;
                }
                let h1 = hex_val_ch(t[cur + 4]);
                let h2 = hex_val_ch(t[cur + 5]);
                if h1 >= 16 || h2 >= 16 {
                    return None;
                }
                let code = h1 * 16 + h2;
                if code >= 32 {
                    return None;
                }
                if code == 8 || code == 9 || code == 10 || code == 12 || code == 13 {
                    return None;
                }
                let parsed = (code as u8) as char;
                proof {
                    assert(parsed == (spec_hex_val(t@[cur as int + 4]) * 16 + spec_hex_val(
                        t@[cur as int + 5],
                    )) as char);
                    lemma_cons_seq_shift(out@, parsed, sp_string(t@, cur as int + 6));
                }
                out.push(parsed);
                cur = cur + 6;
            } else {
                return None;
            }
        } else if (c as u32) < 32 {
            return None;
        } else {
            proof {
                lemma_cons_seq_shift(out@, c, sp_string(t@, cur as int + 1));
            }
            out.push(c);
            cur = cur + 1;
        }
    }
}

proof fn lemma_digits_val_grows(s: Seq<char>, a: int, b: int, c: int)
    requires
        0 <= a <= b <= c <= s.len(),
    ensures
        spec_digits_val(s.subrange(a, b)) <= spec_digits_val(s.subrange(a, c)),
    decreases c - b,
{
    if b < c {
        lemma_digits_val_grows(s, a, b, c - 1);
        let w = s.subrange(a, c);
        assert(w.drop_last() =~= s.subrange(a, c - 1));
        assert(spec_digits_val(w) == spec_digits_val(s.subrange(a, c - 1)) * 10 + (w.last() as int
            - '0' as int) as nat);
        assert(spec_digits_val(s.subrange(a, c - 1)) * 10 >= spec_digits_val(
            s.subrange(a, c - 1),
        ));
    }
}

pub(crate) fn px_number(t: &Vec<char>, i: usize) -> (r: Option<(u64, usize)>)
    requires
        i <= t@.len(),
    ensures
        match r {
            Some((v, j)) => sp_number(t@, i as int) == Some((v, j as int)) && i < j <= t@.len(),
            None => sp_number(t@, i as int) is None,
        },
{
    let n = t.len();
    if i >= n {
        return None;
    }
    if !is_digit_ch(t[i]) {
        return None;
    }
    let mut j = i;
    while j < n && is_digit_ch(t[j])
        invariant
            i <= j <= n,
            n == t@.len(),
            sp_run_end(t@, i as int) == sp_run_end(t@, j as int),
            forall|q: int| i <= q < j ==> spec_is_digit(t@[q]),
        decreases n - j,
    {
        j = j + 1;
    }
    proof {
        assert(sp_run_end(t@, j as int) == j as int);
        assert(sp_run_end(t@, i as int) == j as int);
    }
    let mut acc: u64 = 0;
    let mut k = i;
    proof {
        assert(t@.subrange(i as int, i as int) =~= Seq::<char>::empty());
    }
    while k < j
        invariant
            i <= k <= j <= n,
            n == t@.len(),
            forall|q: int| i <= q < j ==> spec_is_digit(t@[q]),
            acc as nat == spec_digits_val(t@.subrange(i as int, k as int)),
            sp_run_end(t@, i as int) == j as int,
        decreases j - k,
    {
        let d: u64 = (t[k] as u32 - 48) as u64;
        proof {
            let w = t@.subrange(i as int, k as int + 1);
            assert(w.drop_last() =~= t@.subrange(i as int, k as int));
            assert(w.last() == t@[k as int]);
            assert(spec_digits_val(w) == acc as nat * 10 + d as nat);
        }
        if acc > (u64::MAX - d) / 10 {
            proof {
                assert(acc as nat * 10 + d as nat > u64::MAX) by (nonlinear_arith)
                    requires
                        acc > (u64::MAX - d) / 10,
                        d <= 9,
                ;
                lemma_digits_val_grows(t@, i as int, k as int + 1, j as int);
                assert(spec_digits_val(t@.subrange(i as int, j as int)) > u64::MAX);
            }
            return None;
        }
        proof {
            assert(acc as nat * 10 + d as nat <= u64::MAX) by (nonlinear_arith)
                requires
                    acc <= (u64::MAX - d) / 10,
                    d <= 9,
            ;
        }
        acc = acc * 10 + d;
        k = k + 1;
    }
    proof {
        assert(sp_number(t@, i as int) == Some((acc, j as int)));
    }
    Some((acc, j))
}

fn px_bool(t: &Vec<char>, i: usize) -> (r: Option<(bool, usize)>)
    requires
        i <= t@.len(),
    ensures
        match r {
            Some((b, j)) => sp_bool(t@, i as int) == Some((b, j as int)) && i < j <= t@.len(),
            None => sp_bool(t@, i as int) is None,
        },
{
    let lit_true = to_chars("true");
    let lit_false = to_chars("false");
    proof {
        reveal_strlit("true");
        reveal_strlit("false");
    }
    if let Some(j) = px_lit(t, i, &lit_true) {
        Some((true, j))
    } else if let Some(j) = px_lit(t, i, &lit_false) {
        Some((false, j))
    } else {
        None
    }
}

fn px_detail(t: &Vec<char>, i: usize) -> (r: Option<(RepoDetail, usize)>)
    requires
        i <= t@.len(),
    ensures
        match r {
            Some((d, j)) => sp_detail(t@, i as int) == Some((detail_v(d), j as int)) && i < j
                <= t@.len(),
            None => sp_detail(t@, i as int) is None,
        },
{
    let lit_open = to_chars("{\"path\":\"");
    let i1 = match px_lit(t, i, &lit_open) {
        Some(x) => x,
        None => {
            return None;
        },
    };
    let (path_chars, i2) = match px_string(t, i1) {
        Some(p) => p,
        None => {
            return None;
        },
    };
    let lit_committed = to_chars(",\"committed\":");
    let i3 = match px_lit(t, i2, &lit_committed) {
        Some(x) => x,
        None => {
            return None;
        },
    };
    let (committed, i4) = match px_bool(t, i3) {
        Some(p) => p,
        None => {
            return None;
        },
    };
    let lit_files = to_chars(",\"files_changed\":");
    let mut files_changed: Option<usize> = None;
    let i5: usize;
    if let Some(after) = px_lit(t, i4, &lit_files) {
        let (nv, i5n) = match px_number(t, after) {
            Some(p) => p,
            None => {
                return None;
            },
        };
        if nv > usize::MAX as u64 {
            return None;
        }
        files_changed = Some(nv as usize);
        i5 = i5n;
    } else {
        i5 = i4;
    }
    let lit_error = to_chars(",\"error\":\"");
    let mut error: Option<String> = None;
    let i6: usize;
    if let Some(after) = px_lit(t, i5, &lit_error) {
        let (ev, i6e) = match px_string(t, after) {
            Some(p) => p,
            None => {
                return None;
            },
        };
        error = Some(from_chars(&ev));
        i6 = i6e;
    } else {
        i6 = i5;
    }
    let lit_close = to_chars("}");
    let i7 = match px_lit(t, i6, &lit_close) {
        Some(x) => x,
        None => {
            return None;
        },
    };
    let d = RepoDetail { path: from_chars(&path_chars), committed, files_changed, error };
    proof {
        reveal_strlit("{\"path\":\"");
        assert(i < i7 <= t@.len());
        assert(sp_detail(t@, i as int) == Some((detail_v(d), i7 as int)));
    }
    Some((d, i7))
}

fn px_details(t: &Vec<char>, i: usize) -> (r: Option<(Vec<RepoDetail>, usize)>)
    requires
        i <= t@.len(),
    ensures
        match r {
            Some((ds, j)) => sp_details(t@, i as int) == Some((details_view(ds@), j as int)) && j
                <= t@.len(),
            None => sp_details(t@, i as int) is None,
        },
{
    let n = t.len();
    if i < n && t[i] == ']' {
        let ds: Vec<RepoDetail> = Vec::new();
        proof {
            assert(details_view(ds@) =~= Seq::<RepoDetailV>::empty());
        }
        return Some((ds, i + 1));
    }
    let (d0, j0) = match px_detail(t, i) {
        Some(p) => p,
        None => {
            return None;
        },
    };
    let mut ds: Vec<RepoDetail> = Vec::new();
    ds.push(d0);
    let mut cur = j0;
    proof {
        assert(details_view(ds@) =~= seq![detail_v(d0)]);
        assert(sp_details(t@, i as int) == sp_app_details(
            details_view(ds@),
            sp_details_more(t@, cur as int),
        ));
    }
    loop
        invariant
            cur <= n,
            n == t@.len(),
            sp_details(t@, i as int) == sp_app_details(
                details_view(ds@),
                sp_details_more(t@, cur as int),
            ),
        decreases n - cur,
    {
        if cur >= n {
            return None;
        }
        let c = t[cur];
        if c == ']' {
            proof {
                assert(details_view(ds@) + Seq::<RepoDetailV>::empty() =~= details_view(ds@));
            }
            return Some((ds, cur + 1));
        } else if c == ',' {
            let (d, j) = match px_detail(t, cur + 1) {
                Some(p) => p,
                None => {
                    return None;
                },
            };
            proof {
                let prefix = details_view(ds@);
                let dv = detail_v(d);
                let rest = sp_details_more(t@, j as int);
                assert(sp_details_more(t@, cur as int) == sp_app_details(seq![dv], rest));
                match rest {
                    Some((more, k)) => {
                        assert(prefix + (seq![dv] + more) =~= prefix.push(dv) + more);
                    },
                    None => {},
                }
                assert(details_view(ds@.push(d)) =~= details_view(ds@).push(dv));
            }
            ds.push(d);
            cur = j;
        } else {
            return None;
        }
    }
}

fn px_status(t: &Vec<char>, i: usize) -> (r: Option<(ResponseStatus, usize)>)
    requires
        i <= t@.len(),
    ensures
        match r {
            Some((s, j)) => sp_status(t@, i as int) == Some((s, j as int)) && j <= t@.len(),
            None => sp_status(t@, i as int) is None,
        },
{
    let lit_ok = to_chars("\"ok\"");
    let lit_error = to_chars("\"error\"");
    if let Some(j) = px_lit(t, i, &lit_ok) {
        Some((ResponseStatus::Okay, j))
    } else if let Some(j) = px_lit(t, i, &lit_error) {
        Some((ResponseStatus::Error, j))
    } else {
        None
    }
}

fn px_data(t: &Vec<char>, i: usize) -> (r: Option<(ResponseData, usize)>)
    requires
        i <= t@.len(),
    ensures
        match r {
            Some((d, j)) => sp_data(t@, i as int) == Some((data_v(d), j as int)) && j <= t@.len(),
            None => sp_data(t@, i as int) is None,
        },
{
    let lit_trigger = to_chars("{\"type\":\"trigger\",\"repos_checked\":");
    let lit_status = to_chars("{\"type\":\"status\",\"uptime_seconds\":");
    if let Some(i1) = px_lit(t, i, &lit_trigger) {
        let (rc, i2) = match px_number(t, i1) {
            Some(p) => p,
            None => {
                return None;
            },
        };
        if rc > usize::MAX as u64 {
            return None;
        }
        let lit_committed = to_chars(",\"repos_committed\":");
        let i3 = match px_lit(t, i2, &lit_committed) {
            Some(x) => x,
            None => {
                return None;
            },
        };
        let (rm, i4) = match px_number(t, i3) {
            Some(p) => p,
            None => {
                return None;
            },
        };
        if rm > usize::MAX as u64 {
            return None;
        }
        let lit_details = to_chars(",\"details\":[");
        let i5 = match px_lit(t, i4, &lit_details) {
            Some(x) => x,
            None => {
                return None;
            },
        };
        let (details, i6) = match px_details(t, i5) {
            Some(p) => p,
            None => {
                return None;
            },
        };
        let lit_close = to_chars("}");
        let i7 = match px_lit(t, i6, &lit_close) {
            Some(x) => x,
            None => {
                return None;
            },
        };
        let d = ResponseData::Trigger {
            repos_checked: rc as usize,
            repos_committed: rm as usize,
            details,
        };
        proof {
            assert(sp_data(t@, i as int) == Some((data_v(d), i7 as int)));
        }
        Some((d, i7))
    } else if let Some(i1) = px_lit(t, i, &lit_status) {
        let (up, i2) = match px_number(t, i1) {
            Some(p) => p,
            None => {
                return None;
            },
        };
        let lit_interval = to_chars(",\"check_interval_seconds\":");
        let i3 = match px_lit(t, i2, &lit_interval) {
            Some(x) => x,
            None => {
                return None;
            },
        };
        let (ci, i4) = match px_number(t, i3) {
            Some(p) => p,
            None => {
                return None;
            },
        };
        let lit_count = to_chars(",\"repositories_count\":");
        let i5 = match px_lit(t, i4, &lit_count) {
            Some(x) => x,
            None => {
                return None;
            },
        };
        let (rn, i6) = match px_number(t, i5) {
            Some(p) => p,
            None => {
                return None;
            },
        };
        if rn > usize::MAX as u64 {
            return None;
        }
        let lit_close = to_chars("}");
        let i7 = match px_lit(t, i6, &lit_close) {
            Some(x) => x,
            None => {
                return None;
            },
        };
        let d = ResponseData::Status {
            uptime_seconds: up,
            check_interval_seconds: ci,
            repositories_count: rn as usize,
        };
        proof {
            assert(sp_data(t@, i as int) == Some((data_v(d), i7 as int)));
        }
        Some((d, i7))
    } else {
        None
    }
}

fn px_response(t: &Vec<char>) -> (r: Option<Response>)
    ensures
        match r {
            Some(resp) => sp_response(t@) == Some(response_v(resp)),
            None => sp_response(t@) is None,
        },
{
    let lit_status = to_chars("{\"status\":");
    let i1 = match px_lit(t, 0, &lit_status) {
        Some(x) => x,
        None => {
            return None;
        },
    };
    let (status, i2) = match px_status(t, i1) {
        Some(p) => p,
        None => {
            return None;
        },
    };
    let lit_message = to_chars(",\"message\":\"");
    let i3 = match px_lit(t, i2, &lit_message) {
        Some(x) => x,
        None => {
            return None;
        },
    };
    let (message_chars, i4) = match px_string(t, i3) {
        Some(p) => p,
        None => {
            return None;
        },
    };
    let lit_data = to_chars(",\"data\":");
    let lit_close = to_chars("}");
    if let Some(i5) = px_lit(t, i4, &lit_data) {
        let (data, i6) = match px_data(t, i5) {
            Some(p) => p,
            None => {
                return None;
            },
        };
        let i7 = match px_lit(t, i6, &lit_close) {
            Some(x) => x,
            None => {
                return None;
            },
        };
        if i7 != t.len() {
            return None;
        }
        let resp = Response { status, message: from_chars(&message_chars), data: Some(data) };
        proof {
            assert(sp_response(t@) == Some(response_v(resp)));
        }
        Some(resp)
    } else {
        let i5 = match px_lit(t, i4, &lit_close) {
            Some(x) => x,
            None => {
                return None;
            },
        };
        if i5 != t.len() {
            return None;
        }
        let resp = Response { status, message: from_chars(&message_chars), data: None };
        proof {
            assert(sp_response(t@) == Some(response_v(resp)));
        }
        Some(resp)
    }
}

proof fn lemma_subrange_parts(t: Seq<char>, i: int, a: Seq<char>, b: Seq<char>)
    requires
        0 <= i,
        i + a.len() + b.len() <= t.len(),
        t.subrange(i, i + a.len() + b.len()) == a + b,
    ensures
        t.subrange(i, i + a.len()) == a,
        t.subrange(i + a.len(), i + a.len() + b.len()) == b,
{
    let whole = t.subrange(i, i + a.len() + b.len());
    assert forall|k: int| 0 <= k < a.len() implies t.subrange(i, i + a.len())[k] == a[k] by {
        assert(whole[k] == (a + b)[k]);
    }
    assert(t.subrange(i, i + a.len()) =~= a);
    assert forall|k: int| 0 <= k < b.len() implies t.subrange(
        i + a.len(),
        i + a.len() + b.len(),
    )[k] == b[k] by {
        assert(whole[a.len() + k] == (a + b)[a.len() + k]);
    }
    assert(t.subrange(i + a.len(), i + a.len() + b.len()) =~= b);
}

proof fn lemma_lit_here(t: Seq<char>, i: int, lit: Seq<char>)
    requires
        0 <= i,
        i + lit.len() <= t.len(),
        t.subrange(i, i + lit.len()) == lit,
    ensures
        matches_at(t, i, lit),
        sp_lit(t, i, lit) == Some(i + lit.len()),
{
}

proof fn lemma_digit_roundtrip(d: nat)
    requires
        d < 10,
    ensures
        spec_is_digit(spec_digit(d)),
        (spec_digit(d) as int - '0' as int) as nat == d,
{
}

proof fn lemma_dec_digits_only(n: nat)
    ensures
        spec_dec(n).len() >= 1,
        forall|i: int| 0 <= i < spec_dec(n).len() ==> spec_is_digit(#[trigger] spec_dec(n)[i]),
        spec_is_digit(spec_dec(n)[0]),
    decreases n,
{
    if n < 10 {
        lemma_digit_roundtrip(n);
    } else {
        lemma_dec_digits_only(n / 10);
        lemma_digit_roundtrip(n % 10);
        assert forall|i: int| 0 <= i < spec_dec(n).len() implies spec_is_digit(
            #[trigger] spec_dec(n)[i],
        ) by {
            if i < spec_dec(n / 10).len() {
                assert(spec_dec(n)[i] == spec_dec(n / 10)[i]);
            }
        }
    }
}

proof fn lemma_digits_val_of_dec(n: nat)
    ensures
        spec_digits_val(spec_dec(n)) == n,
    decreases n,
{
    if n < 10 {
        lemma_digit_roundtrip(n);
        let s = spec_dec(n);
        assert(s == seq![spec_digit(n)]);
        assert(s.len() == 1);
        assert(s.drop_last() =~= Seq::<char>::empty());
        assert(spec_digits_val(s.drop_last()) == 0);
        assert(s.last() == spec_digit(n));
        assert(spec_digits_val(s) == spec_digits_val(s.drop_last()) * 10 + (s.last() as int
            - '0' as int) as nat);
    } else {
        lemma_digits_val_of_dec(n / 10);
        lemma_digit_roundtrip(n % 10);
        assert(spec_dec(n).drop_last() =~= spec_dec(n / 10));
        assert(spec_dec(n).last() == spec_digit(n % 10));
        assert(spec_digits_val(spec_dec(n)) == n / 10 * 10 + n % 10);
        assert(n / 10 * 10 + n % 10 == n) by {
            vstd::arithmetic::div_mod::lemma_fundamental_div_mod(n as int, 10);
        }
    }
}

proof fn lemma_run_end_at(t: Seq<char>, i: int, j: int)
    requires
        0 <= i <= j <= t.len(),
        forall|k: int| i <= k < j ==> spec_is_digit(#[trigger] t[k]),
        j == t.len() || !spec_is_digit(t[j]),
    ensures
        sp_run_end(t, i) == j,
    decreases j - i,
{
    if i < j {
        lemma_run_end_at(t, i + 1, j);
    }
}

proof fn lemma_sp_number_complete(t: Seq<char>, i: int, n: u64)
    requires
        0 <= i,
        i + spec_dec(n as nat).len() <= t.len(),
        t.subrange(i, i + spec_dec(n as nat).len() as int) == spec_dec(n as nat),
        i + spec_dec(n as nat).len() == t.len() || !spec_is_digit(
            t[i + spec_dec(n as nat).len() as int],
        ),
    ensures
        sp_number(t, i) == Some((n, i + spec_dec(n as nat).len() as int)),
{
    let digits = spec_dec(n as nat);
    let len = digits.len() as int;
    lemma_dec_digits_only(n as nat);
    assert forall|k: int| i <= k < i + len implies spec_is_digit(#[trigger] t[k]) by {
        assert(t.subrange(i, i + len)[k - i] == t[k]);
        assert(spec_is_digit(digits[k - i]));
    }
    assert(t[i] == digits[0]);
    lemma_run_end_at(t, i, i + len);
    lemma_digits_val_of_dec(n as nat);
    assert(spec_digits_val(t.subrange(i, i + len)) == n as nat);
}

proof fn lemma_hex_roundtrip(d: nat)
    requires
        d < 16,
    ensures
        spec_hex_val(spec_hex_digit(d)) == d,
{
}

proof fn lemma_sp_string_complete(t: Seq<char>, i: int, m: Seq<char>)
    requires
        0 <= i,
        i + spec_json_escape(m).len() + 1 <= t.len(),
        t.subrange(i, i + spec_json_escape(m).len() + 1) == spec_json_escape(m) + seq!['"'],
    ensures
        sp_string(t, i) == Some((m, i + spec_json_escape(m).len() + 1)),
    decreases m.len(),
{
    let e = spec_json_escape(m);
    if m.len() == 0 {
        assert(e =~= Seq::<char>::empty());
        assert(t.subrange(i, i + 1)[0] == (e + seq!['"'])[0]);
        assert(t[i] == '"');
        assert(m =~= Seq::<char>::empty());
    } else {
        let c = m[0];
        let ec = spec_escape_char(c);
        let rest = spec_json_escape(m.skip(1));
        assert(e == ec + rest);
        let after = i + ec.len() as int;
        assert(ec + (rest + seq!['"']) =~= e + seq!['"']);
        lemma_subrange_parts(t, i, ec, rest + seq!['"']);
        assert forall|k: int| 0 <= k < ec.len() implies t[i + k] == ec[k] by {
            assert(t.subrange(i, after)[k] == ec[k]);
        }
        lemma_sp_string_complete(t, after, m.skip(1));
        assert(seq![c] + m.skip(1) =~= m);
        if c == '"' || c == '\\' || c == '\u{8}' || c == '\u{c}' || c == '\n' || c == '\r' || c
            == '\t' {
            assert(t[i] == '\\');
            assert(sp_string(t, i) == sp_cons(c, sp_string(t, i + 2)));
        } else if (c as u32) < 32 {
            assert(t[i] == '\\' && t[i + 1] == 'u' && t[i + 2] == '0' && t[i + 3] == '0');
            assert(t[i + 4] == spec_hex_digit((c as u32 / 16) as nat));
            assert(t[i + 5] == spec_hex_digit((c as u32 % 16) as nat));
            lemma_hex_roundtrip((c as u32 / 16) as nat);
            lemma_hex_roundtrip((c as u32 % 16) as nat);
            let code = spec_hex_val(t[i + 4]) * 16 + spec_hex_val(t[i + 5]);
            assert(code == c as u32);
            assert(code < 32);
            vstd::utf8::char_u32_cast(c, c as u32);
            assert(!spec_named_code(code)) by {
                if spec_named_code(code) {
                    if code == 8 {
                        vstd::utf8::char_u32_cast('\u{8}', 8u32);
                    } else if code == 9 {
                        vstd::utf8::char_u32_cast('\t', 9u32);
                    } else if code == 10 {
                        vstd::utf8::char_u32_cast('\n', 10u32);
                    } else if code == 12 {
                        vstd::utf8::char_u32_cast('\u{c}', 12u32);
                    } else {
                        vstd::utf8::char_u32_cast('\r', 13u32);
                    }
                }
            }
            assert(code as char == c);
            assert(sp_string(t, i) == sp_cons(c, sp_string(t, i + 6)));
        } else {
            assert(ec =~= seq![c]);
            assert(t[i] == c);
            assert(sp_string(t, i) == sp_cons(c, sp_string(t, i + 1)));
        }
    }
}

proof fn lemma_no_match_at(t: Seq<char>, i: int, lit: Seq<char>, k: int)
    requires
        0 <= k < lit.len(),
        0 <= i,
        i + k < t.len(),
        t[i + k] != lit[k],
    ensures
        !matches_at(t, i, lit),
{
    if matches_at(t, i, lit) {
        assert(t.subrange(i, i + lit.len())[k] == lit[k]);
    }
}

proof fn lemma_take_lit(t: Seq<char>, i: int, lit: Seq<char>, rest: Seq<char>)
    requires
        0 <= i,
        i + lit.len() + rest.len() <= t.len(),
        t.subrange(i, i + lit.len() + rest.len()) == lit + rest,
    ensures
        matches_at(t, i, lit),
        sp_lit(t, i, lit) == Some(i + lit.len()),
        t.subrange(i + lit.len(), i + lit.len() + rest.len()) == rest,
        forall|k: int| 0 <= k < rest.len() ==> t[i + lit.len() + k] == rest[k],
    decreases 0int,
{
    lemma_subrange_parts(t, i, lit, rest);
    assert forall|k: int| 0 <= k < rest.len() implies t[i + lit.len() + k] == rest[k] by {
        assert(t.subrange(i + lit.len(), i + lit.len() + rest.len())[k] == rest[k]);
    }
}

proof fn lemma_take_string(t: Seq<char>, i: int, m: Seq<char>, rest: Seq<char>)
    requires
        0 <= i,
        i + spec_json_escape(m).len() + 1 + rest.len() <= t.len(),
        t.subrange(i, i + spec_json_escape(m).len() + 1 + rest.len()) == (spec_json_escape(m)
            + seq!['"']) + rest,
    ensures
        sp_string(t, i) == Some((m, i + spec_json_escape(m).len() + 1)),
        t.subrange(
            i + spec_json_escape(m).len() + 1,
            i + spec_json_escape(m).len() + 1 + rest.len(),
        ) == rest,
        forall|k: int|
            0 <= k < rest.len() ==> t[i + spec_json_escape(m).len() + 1 + k] == rest[k],
{
    let quoted = spec_json_escape(m) + seq!['"'];
    lemma_subrange_parts(t, i, quoted, rest);
    lemma_sp_string_complete(t, i, m);
    assert forall|k: int| 0 <= k < rest.len() implies t[i + quoted.len() + k] == rest[k] by {
        assert(t.subrange(i + quoted.len(), i + quoted.len() + rest.len())[k] == rest[k]);
    }
}

proof fn lemma_take_number(t: Seq<char>, i: int, n: u64, rest: Seq<char>)
    requires
        0 <= i,
        rest.len() > 0,
        !spec_is_digit(rest[0]),
        i + spec_dec(n as nat).len() + rest.len() <= t.len(),
        t.subrange(i, i + spec_dec(n as nat).len() + rest.len()) == spec_dec(n as nat) + rest,
    ensures
        sp_number(t, i) == Some((n, i + spec_dec(n as nat).len() as int)),
        t.subrange(
            i + spec_dec(n as nat).len(),
            i + spec_dec(n as nat).len() + rest.len(),
        ) == rest,
        forall|k: int| 0 <= k < rest.len() ==> t[i + spec_dec(n as nat).len() + k] == rest[k],
{
    let digits = spec_dec(n as nat);
    lemma_subrange_parts(t, i, digits, rest);
    assert forall|k: int| 0 <= k < rest.len() implies t[i + digits.len() + k] == rest[k] by {
        assert(t.subrange(i + digits.len(), i + digits.len() + rest.len())[k] == rest[k]);
    }
    lemma_sp_number_complete(t, i, n);
}

proof fn lemma_take_bool(t: Seq<char>, i: int, b: bool, rest: Seq<char>)
    requires
        0 <= i,
        i + spec_bool_label(b).len() + rest.len() <= t.len(),
        t.subrange(i, i + spec_bool_label(b).len() + rest.len()) == spec_bool_label(b) + rest,
    ensures
        sp_bool(t, i) == Some((b, i + spec_bool_label(b).len() as int)),
        t.subrange(
            i + spec_bool_label(b).len(),
            i + spec_bool_label(b).len() + rest.len(),
        ) == rest,
        forall|k: int| 0 <= k < rest.len() ==> t[i + spec_bool_label(b).len() + k] == rest[k],
{
    reveal_strlit("true");
    reveal_strlit("false");
    let label = spec_bool_label(b);
    lemma_take_lit(t, i, label, rest);
    if b {
    } else {
        assert(t[i] == 'f') by {
            assert(t.subrange(i, i + label.len())[0] == label[0]);
        }
        lemma_no_match_at(t, i, "true"@, 0);
    }
}

proof fn lemma_take_status(t: Seq<char>, i: int, s: ResponseStatus, rest: Seq<char>)
    requires
        0 <= i,
        i + spec_status_label(s).len() + rest.len() <= t.len(),
        t.subrange(i, i + spec_status_label(s).len() + rest.len()) == spec_status_label(s) + rest,
    ensures
        sp_status(t, i) == Some((s, i + spec_status_label(s).len() as int)),
        t.subrange(
            i + spec_status_label(s).len(),
            i + spec_status_label(s).len() + rest.len(),
        ) == rest,
        forall|k: int| 0 <= k < rest.len() ==> t[i + spec_status_label(s).len() + k] == rest[k],
{
    reveal_strlit("\"ok\"");
    reveal_strlit("\"error\"");
    let label = spec_status_label(s);
    lemma_take_lit(t, i, label, rest);
    match s {
        ResponseStatus::Okay => {},
        ResponseStatus::Error => {
            assert(t[i + 1] == 'e') by {
                assert(t.subrange(i, i + label.len())[1] == label[1]);
            }
            lemma_no_match_at(t, i, "\"ok\""@, 1);
        },
    }
}

#[verifier::rlimit(60)]
proof fn lemma_sp_detail_complete(t: Seq<char>, i: int, d: RepoDetail, rest: Seq<char>)
    requires
        0 <= i,
        rest.len() > 0,
        i + spec_detail_json(d).len() + rest.len() <= t.len(),
        t.subrange(i, i + spec_detail_json(d).len() + rest.len()) == spec_detail_json(d) + rest,
    ensures
        sp_detail(t, i) == Some((detail_v(d), i + spec_detail_json(d).len() as int)),
        t.subrange(i + spec_detail_json(d).len(), i + spec_detail_json(d).len() + rest.len())
            == rest,
        forall|k: int| 0 <= k < rest.len() ==> t[i + spec_detail_json(d).len() + k] == rest[k],
{
    reveal_strlit("{\"path\":\"");
    reveal_strlit("\",\"committed\":");
    reveal_strlit(",\"committed\":");
    reveal_strlit(",\"files_changed\":");
    reveal_strlit(",\"error\":\"");
    reveal_strlit("\"");
    reveal_strlit("}");
    let body = spec_detail_json(d);
    let b0 = "{\"path\":\""@;
    let b1 = spec_json_escape(d.path@) + seq!['"'];
    let b2 = ",\"committed\":"@;
    let b3 = spec_bool_label(d.committed);
    let b4 = match d.files_changed {
        Some(n) => ",\"files_changed\":"@ + spec_dec(n as nat),
        None => Seq::<char>::empty(),
    };
    let b5 = match d.error {
        Some(e) => ",\"error\":\""@ + spec_json_escape(e@) + seq!['"'],
        None => Seq::<char>::empty(),
    };
    let b6 = "}"@;
    let t6 = b6 + rest;
    let t5 = b5 + t6;
    let t4 = b4 + t5;
    let t3 = b3 + t4;
    let t2 = b2 + t3;
    let t1 = b1 + t2;
    assert(body + rest =~= b0 + t1);
    lemma_take_lit(t, i, b0, t1);
    let i1 = i + b0.len() as int;
    lemma_take_string(t, i1, d.path@, t2);
    let i2 = i1 + b1.len() as int;
    lemma_take_lit(t, i2, b2, t3);
    let i3 = i2 + b2.len() as int;
    lemma_take_bool(t, i3, d.committed, t4);
    let i4 = i3 + b3.len() as int;
    let ghost i5: int;
    match d.files_changed {
        Some(n) => {
            assert(t4 =~= ",\"files_changed\":"@ + (spec_dec(n as nat) + t5));
            lemma_take_lit(t, i4, ",\"files_changed\":"@, spec_dec(n as nat) + t5);
            let ia = i4 + ",\"files_changed\":"@.len() as int;
            assert(t5.len() > 0 && !spec_is_digit(t5[0])) by {
                match d.error {
                    Some(e) => {
                        assert(t5[0] == ',');
                    },
                    None => {
                        assert(t5 =~= t6);
                        assert(t5[0] == '}');
                    },
                }
            }
            lemma_take_number(t, ia, n as u64, t5);
            i5 = ia + spec_dec(n as nat).len() as int;
        },
        None => {
            assert(t4 =~= t5);
            match d.error {
                Some(e) => {
                    assert(t4[2] == 'e');
                    assert(t[i4 + 2] == t4[2]);
                    lemma_no_match_at(t, i4, ",\"files_changed\":"@, 2);
                },
                None => {
                    assert(t4 =~= t6);
                    assert(t4[0] == '}');
                    assert(t[i4 + 0] == t4[0]);
                    lemma_no_match_at(t, i4, ",\"files_changed\":"@, 0);
                },
            }
            i5 = i4;
        },
    }
    assert(t.subrange(i5, i5 + t5.len() as int) == t5);
    assert(forall|k: int| 0 <= k < t5.len() ==> t[i5 + k] == t5[k]);
    let ghost i6: int;
    match d.error {
        Some(e) => {
            assert(t5 =~= ",\"error\":\""@ + ((spec_json_escape(e@) + seq!['"']) + t6));
            lemma_take_lit(t, i5, ",\"error\":\""@, (spec_json_escape(e@) + seq!['"']) + t6);
            let ib = i5 + ",\"error\":\""@.len() as int;
            lemma_take_string(t, ib, e@, t6);
            i6 = ib + spec_json_escape(e@).len() + 1;
        },
        None => {
            assert(t5 =~= t6);
            assert(t5[0] == '}');
            assert(t[i5 + 0] == t5[0]);
            lemma_no_match_at(t, i5, ",\"error\":\""@, 0);
            i6 = i5;
        },
    }
    assert(t.subrange(i6, i6 + t6.len() as int) == t6);
    lemma_take_lit(t, i6, b6, rest);
    assert(i6 + 1 == i + body.len());
    assert(sp_detail(t, i) == Some((detail_v(d), i + body.len() as int)));
}

/// What follows the first element of a detail list: for each further
/// element a comma and its object, then the closing bracket.
spec fn spec_details_tail_json(ds: Seq<RepoDetail>) -> Seq<char>
    decreases ds.len(),
{
    if ds.len() == 0 {
        "]"@
    } else {
        ","@ + spec_detail_json(ds[0]) + spec_details_tail_json(ds.skip(1))
    }
}

proof fn lemma_details_json_split(ds: Seq<RepoDetail>)
    ensures
        spec_details_json(ds) + "]"@ == if ds.len() == 0 {
            "]"@
        } else {
            spec_detail_json(ds[0]) + spec_details_tail_json(ds.skip(1))
        },
    decreases ds.len(),
{
    if ds.len() == 0 {
        assert(Seq::<char>::empty() + "]"@ =~= "]"@);
    } else if ds.len() == 1 {
        assert(ds.skip(1).len() == 0);
        assert(spec_detail_json(ds[0]) + ("]"@) =~= spec_detail_json(ds[0])
            + spec_details_tail_json(ds.skip(1)));
    } else {
        lemma_details_json_split(ds.skip(1));
        assert(ds.skip(1)[0] == ds[1]);
        assert(ds.skip(1).skip(1) =~= ds.skip(2));
        assert((spec_detail_json(ds[0]) + ","@ + spec_details_json(ds.skip(1))) + "]"@
            =~= spec_detail_json(ds[0]) + (","@ + (spec_details_json(ds.skip(1)) + "]"@)));
        assert(spec_detail_json(ds[0]) + (","@ + (spec_detail_json(ds.skip(1)[0])
            + spec_details_tail_json(ds.skip(1).skip(1)))) =~= spec_detail_json(ds[0])
            + spec_details_tail_json(ds.skip(1)));
    }
}

proof fn lemma_sp_details_more_complete(t: Seq<char>, i: int, ds: Seq<RepoDetail>, rest: Seq<char>)
    requires
        0 <= i,
        i + spec_details_tail_json(ds).len() + rest.len() <= t.len(),
        t.subrange(i, i + spec_details_tail_json(ds).len() + rest.len())
            == spec_details_tail_json(ds) + rest,
    ensures
        sp_details_more(t, i) == Some(
            (details_view(ds), i + spec_details_tail_json(ds).len() as int),
        ),
        t.subrange(
            i + spec_details_tail_json(ds).len(),
            i + spec_details_tail_json(ds).len() + rest.len(),
        ) == rest,
        forall|k: int|
            0 <= k < rest.len() ==> t[i + spec_details_tail_json(ds).len() + k] == rest[k],
    decreases ds.len(),
{
    reveal_strlit("]");
    reveal_strlit(",");
    if ds.len() == 0 {
        lemma_take_lit(t, i, "]"@, rest);
        assert(t[i] == ']') by {
            assert(t.subrange(i, i + 1)[0] == ']');
        }
        assert(details_view(ds) =~= Seq::<RepoDetailV>::empty());
    } else {
        let dj0 = spec_detail_json(ds[0]);
        let tail1 = spec_details_tail_json(ds.skip(1));
        assert(spec_details_tail_json(ds) + rest =~= ","@ + (dj0 + (tail1 + rest)));
        lemma_take_lit(t, i, ","@, dj0 + (tail1 + rest));
        assert(t[i] == ',') by {
            assert(t.subrange(i, i + spec_details_tail_json(ds).len() + rest.len())[0] == ',');
        }
        assert(tail1.len() >= 1);
        lemma_sp_detail_complete(t, i + 1, ds[0], tail1 + rest);
        let j = i + 1 + dj0.len() as int;
        assert(t.subrange(j, j + tail1.len() + rest.len()) == tail1 + rest);
        lemma_sp_details_more_complete(t, j, ds.skip(1), rest);
        assert(seq![detail_v(ds[0])] + details_view(ds.skip(1)) =~= details_view(ds));
    }
}

proof fn lemma_sp_details_complete(t: Seq<char>, i: int, ds: Seq<RepoDetail>, rest: Seq<char>)
    requires
        0 <= i,
        i + spec_details_json(ds).len() + 1 + rest.len() <= t.len(),
        t.subrange(i, i + spec_details_json(ds).len() + 1 + rest.len()) == (spec_details_json(ds)
            + "]"@) + rest,
    ensures
        sp_details(t, i) == Some((details_view(ds), i + spec_details_json(ds).len() + 1)),
        t.subrange(
            i + spec_details_json(ds).len() + 1,
            i + spec_details_json(ds).len() + 1 + rest.len(),
        ) == rest,
        forall|k: int|
            0 <= k < rest.len() ==> t[i + spec_details_json(ds).len() + 1 + k] == rest[k],
{
    reveal_strlit("]");
    reveal_strlit("{\"path\":\"");
    lemma_details_json_split(ds);
    if ds.len() == 0 {
        assert((spec_details_json(ds) + "]"@) =~= "]"@);
        assert(("]"@) + rest =~= (spec_details_json(ds) + "]"@) + rest);
        lemma_take_lit(t, i, "]"@, rest);
        assert(t[i] == ']') by {
            assert(t.subrange(i, i + 1 + rest.len())[0] == ']');
        }
        assert(details_view(ds) =~= Seq::<RepoDetailV>::empty());
    } else {
        let dj0 = spec_detail_json(ds[0]);
        let tail1 = spec_details_tail_json(ds.skip(1));
        assert((spec_details_json(ds) + "]"@) + rest =~= dj0 + (tail1 + rest));
        assert(t[i] == '{') by {
            assert(t.subrange(i, i + spec_details_json(ds).len() + 1 + rest.len())[0] == (dj0 + (
            tail1 + rest))[0]);
            assert(dj0[0] == '{');
        }
        lemma_sp_detail_complete(t, i, ds[0], tail1 + rest);
        let j = i + dj0.len() as int;
        assert(t.subrange(j, j + tail1.len() + rest.len()) == tail1 + rest);
        lemma_sp_details_more_complete(t, j, ds.skip(1), rest);
        assert(seq![detail_v(ds[0])] + details_view(ds.skip(1)) =~= details_view(ds));
        assert(dj0.len() + tail1.len() == spec_details_json(ds).len() + 1);
    }
}

#[verifier::rlimit(100)]
proof fn lemma_sp_data_complete_trigger(t: Seq<char>, i: int, dt: &ResponseData, rest: Seq<char>)
    requires
        0 <= i,
        dt is Trigger,
        rest.len() > 0,
        !spec_is_digit(rest[0]),
        i + spec_data_json(*dt).len() + rest.len() <= t.len(),
        t.subrange(i, i + spec_data_json(*dt).len() + rest.len()) == spec_data_json(*dt) + rest,
    ensures
        sp_data(t, i) == Some((data_v(*dt), i + spec_data_json(*dt).len() as int)),
        t.subrange(i + spec_data_json(*dt).len(), i + spec_data_json(*dt).len() + rest.len())
            == rest,
        forall|k: int| 0 <= k < rest.len() ==> t[i + spec_data_json(*dt).len() + k] == rest[k],
{
    reveal(spec_data_json);
    reveal_strlit("{\"type\":\"trigger\",\"repos_checked\":");
    reveal_strlit("{\"type\":\"status\",\"uptime_seconds\":");
    reveal_strlit(",\"repos_committed\":");
    reveal_strlit(",\"details\":[");
    reveal_strlit(",\"check_interval_seconds\":");
    reveal_strlit(",\"repositories_count\":");
    reveal_strlit("]}");
    reveal_strlit("]");
    reveal_strlit("}");
    let body = spec_data_json(*dt);
    match dt {
        ResponseData::Trigger { repos_checked, repos_committed, details } => {
            let lit0 = "{\"type\":\"trigger\",\"repos_checked\":"@;
            let lit1 = ",\"repos_committed\":"@;
            let lit2 = ",\"details\":["@;
            let d0 = spec_dec(*repos_checked as nat);
            let d1 = spec_dec(*repos_committed as nat);
            let dj = spec_details_json(details@);
            assert("]}"@ =~= "]"@ + "}"@);
            let t5 = "}"@ + rest;
            let t4 = (dj + "]"@) + t5;
            let t3 = lit2 + t4;
            let t2 = d1 + t3;
            let t1 = lit1 + t2;
            let t0 = d0 + t1;
            assert(body + rest =~= lit0 + t0);
            lemma_take_lit(t, i, lit0, t0);
            let i0 = i + lit0.len() as int;
            lemma_take_number(t, i0, *repos_checked as u64, t1);
            let i1 = i0 + d0.len() as int;
            lemma_take_lit(t, i1, lit1, t2);
            let i2 = i1 + lit1.len() as int;
            lemma_take_number(t, i2, *repos_committed as u64, t3);
            let i3 = i2 + d1.len() as int;
            lemma_take_lit(t, i3, lit2, t4);
            let i4 = i3 + lit2.len() as int;
            lemma_sp_details_complete(t, i4, details@, t5);
            let i5 = i4 + dj.len() + 1;
            assert(t.subrange(i5, i5 + t5.len() as int) == t5);
            lemma_take_lit(t, i5, "}"@, rest);
            assert(i5 + 1 == i + body.len());
            assert(sp_data(t, i) == Some((data_v(*dt), i + body.len() as int)));
        },
        _ => {},
    }
}

#[verifier::rlimit(100)]
proof fn lemma_sp_data_complete_status(t: Seq<char>, i: int, dt: &ResponseData, rest: Seq<char>)
    requires
        0 <= i,
        dt is Status,
        rest.len() > 0,
        !spec_is_digit(rest[0]),
        i + spec_data_json(*dt).len() + rest.len() <= t.len(),
        t.subrange(i, i + spec_data_json(*dt).len() + rest.len()) == spec_data_json(*dt) + rest,
    ensures
        sp_data(t, i) == Some((data_v(*dt), i + spec_data_json(*dt).len() as int)),
        t.subrange(i + spec_data_json(*dt).len(), i + spec_data_json(*dt).len() + rest.len())
            == rest,
        forall|k: int| 0 <= k < rest.len() ==> t[i + spec_data_json(*dt).len() + k] == rest[k],
{
    reveal(spec_data_json);
    reveal_strlit("{\"type\":\"trigger\",\"repos_checked\":");
    reveal_strlit("{\"type\":\"status\",\"uptime_seconds\":");
    reveal_strlit(",\"repos_committed\":");
    reveal_strlit(",\"details\":[");
    reveal_strlit(",\"check_interval_seconds\":");
    reveal_strlit(",\"repositories_count\":");
    reveal_strlit("]}");
    reveal_strlit("]");
    reveal_strlit("}");
    let body = spec_data_json(*dt);
    match dt {
        ResponseData::Status { uptime_seconds, check_interval_seconds, repositories_count } => {
            let lit0 = "{\"type\":\"status\",\"uptime_seconds\":"@;
            let lit1 = ",\"check_interval_seconds\":"@;
            let lit2 = ",\"repositories_count\":"@;
            let d0 = spec_dec(*uptime_seconds as nat);
            let d1 = spec_dec(*check_interval_seconds as nat);
            let d2 = spec_dec(*repositories_count as nat);
            let t5 = "}"@ + rest;
            let t4 = d2 + t5;
            let t3 = lit2 + t4;
            let t2 = d1 + t3;
            let t1 = lit1 + t2;
            let t0 = d0 + t1;
            assert(body + rest =~= lit0 + t0);
            assert(!matches_at(t, i, "{\"type\":\"trigger\",\"repos_checked\":"@)) by {
                assert(t.subrange(i, i + body.len() + rest.len())[9] == (lit0 + t0)[9]);
                assert(t[i + 9] == 's');
                lemma_no_match_at(t, i, "{\"type\":\"trigger\",\"repos_checked\":"@, 9);
            }
            lemma_take_lit(t, i, lit0, t0);
            let i0 = i + lit0.len() as int;
            lemma_take_number(t, i0, *uptime_seconds, t1);
            let i1 = i0 + d0.len() as int;
            lemma_take_lit(t, i1, lit1, t2);
            let i2 = i1 + lit1.len() as int;
            lemma_take_number(t, i2, *check_interval_seconds, t3);
            let i3 = i2 + d1.len() as int;
            lemma_take_lit(t, i3, lit2, t4);
            let i4 = i3 + lit2.len() as int;
            lemma_take_number(t, i4, *repositories_count as u64, t5);
            let i5 = i4 + d2.len() as int;
            lemma_take_lit(t, i5, "}"@, rest);
            assert(i5 + 1 == i + body.len());
            assert(sp_data(t, i) == Some((data_v(*dt), i + body.len() as int)));
        },
        _ => {},
    }
}

proof fn lemma_sp_data_complete(t: Seq<char>, i: int, dt: &ResponseData, rest: Seq<char>)
    requires
        0 <= i,
        rest.len() > 0,
        !spec_is_digit(rest[0]),
        i + spec_data_json(*dt).len() + rest.len() <= t.len(),
        t.subrange(i, i + spec_data_json(*dt).len() + rest.len()) == spec_data_json(*dt) + rest,
    ensures
        sp_data(t, i) == Some((data_v(*dt), i + spec_data_json(*dt).len() as int)),
        t.subrange(i + spec_data_json(*dt).len(), i + spec_data_json(*dt).len() + rest.len())
            == rest,
        forall|k: int| 0 <= k < rest.len() ==> t[i + spec_data_json(*dt).len() + k] == rest[k],
{
    match dt {
        ResponseData::Trigger { .. } => lemma_sp_data_complete_trigger(t, i, dt, rest),
        ResponseData::Status { .. } => lemma_sp_data_complete_status(t, i, dt, rest),
    }
}

#[verifier::rlimit(100)]
proof fn lemma_response_prefix_with_data(r: &Response)
    requires
        r.data is Some,
    ensures
        ({
            let t = spec_response_body(*r);
            let i0 = "{\"status\":"@.len() as int;
            let i1 = i0 + spec_status_label(r.status).len() as int;
            let i2 = i1 + ",\"message\":\""@.len() as int;
            let i3 = i2 + spec_json_escape(r.message@).len() + 1;
            let i4 = i3 + ",\"data\":"@.len() as int;
            let dj = spec_data_json(r.data->0);
            &&& t.len() == i4 + dj.len() + 1
            &&& sp_lit(t, 0, "{\"status\":"@) == Some(i0)
            &&& sp_status(t, i0) == Some((r.status, i1))
            &&& sp_lit(t, i1, ",\"message\":\""@) == Some(i2)
            &&& sp_string(t, i2) == Some((r.message@, i3))
            &&& sp_lit(t, i3, ",\"data\":"@) == Some(i4)
            &&& t.subrange(i4, i4 + dj.len() + 1) == dj + "}"@
            &&& sp_lit(t, i4 + dj.len(), "}"@) == Some(t.len() as int)
        }),
{
    reveal_strlit("}");
    reveal_strlit("\"");
    let t = spec_response_body(*r);
    let lit0 = "{\"status\":"@;
    let s0 = spec_status_label(r.status);
    let lit1 = ",\"message\":\""@;
    let m0 = spec_json_escape(r.message@) + seq!['"'];
    let dj = spec_data_json(r.data->0);
    let t5 = "}"@;
    let t4a = dj + t5;
    let t4 = ",\"data\":"@ + t4a;
    let t3 = m0 + t4;
    let t2 = lit1 + t3;
    let t1 = s0 + t2;
    assert(t =~= lit0 + t1);
    assert(t.subrange(0, t.len() as int) =~= t);
    lemma_take_lit(t, 0, lit0, t1);
    let i0 = lit0.len() as int;
    lemma_take_status(t, i0, r.status, t2);
    let i1 = i0 + s0.len() as int;
    lemma_take_lit(t, i1, lit1, t3);
    let i2 = i1 + lit1.len() as int;
    lemma_take_string(t, i2, r.message@, t4);
    let i3 = i2 + m0.len() as int;
    lemma_take_lit(t, i3, ",\"data\":"@, t4a);
    let i4 = i3 + ",\"data\":"@.len() as int;
    assert(t.subrange(i4, i4 + t4a.len() as int) == t4a);
    lemma_subrange_parts(t, i4, dj, t5);
    assert(t.subrange(i4 + dj.len(), i4 + dj.len() + 1) == "}"@);
    lemma_lit_here(t, i4 + dj.len(), "}"@);
}

#[verifier::rlimit(100)]
proof fn lemma_response_parse_back_with_data(r: &Response)
    requires
        r.data is Some,
    ensures
        sp_response(spec_response_body(*r)) == Some(response_v(*r)),
{
    reveal_strlit("}");
    lemma_response_prefix_with_data(r);
    let t = spec_response_body(*r);
    let i0 = "{\"status\":"@.len() as int;
    let i1 = i0 + spec_status_label(r.status).len() as int;
    let i2 = i1 + ",\"message\":\""@.len() as int;
    let i3 = i2 + spec_json_escape(r.message@).len() + 1;
    let i4 = i3 + ",\"data\":"@.len() as int;
    let d = r.data->0;
    let dj = spec_data_json(d);
    assert(("}"@).len() == 1 && ("}"@)[0] == '}');
    assert(!spec_is_digit('}'));
    lemma_sp_data_complete(t, i4, &d, "}"@);
    assert(sp_response(t) == Some(response_v(*r)));
}

#[verifier::rlimit(100)]
proof fn lemma_response_parse_back_no_data(r: &Response)
    requires
        r.data is None,
    ensures
        sp_response(spec_response_body(*r)) == Some(response_v(*r)),
{
    reveal_strlit("{\"status\":");
    reveal_strlit(",\"message\":\"");
    reveal_strlit(",\"data\":");
    reveal_strlit("}");
    reveal_strlit("\"");
    let t = spec_response_body(*r);
    let lit0 = "{\"status\":"@;
    let s0 = spec_status_label(r.status);
    let lit1 = ",\"message\":\""@;
    let m0 = spec_json_escape(r.message@) + seq!['"'];
    let datapart = match r.data {
        Some(d) => ",\"data\":"@ + spec_data_json(d),
        None => Seq::<char>::empty(),
    };
    let empty_rest = Seq::<char>::empty();
    let t5 = "}"@ + empty_rest;
    let t4 = datapart + t5;
    let t3 = m0 + t4;
    let t2 = lit1 + t3;
    let t1 = s0 + t2;
    assert(t =~= lit0 + t1);
    assert(t.subrange(0, t.len() as int) =~= t);
    lemma_take_lit(t, 0, lit0, t1);
    let i0 = lit0.len() as int;
    lemma_take_status(t, i0, r.status, t2);
    let i1 = i0 + s0.len() as int;
    lemma_take_lit(t, i1, lit1, t3);
    let i2 = i1 + lit1.len() as int;
    lemma_take_string(t, i2, r.message@, t4);
    let i3 = i2 + m0.len() as int;
    assert(t4 =~= t5);
    assert(t[i3] == '}');
    lemma_no_match_at(t, i3, ",\"data\":"@, 0);
    lemma_take_lit(t, i3, "}"@, empty_rest);
    assert(i3 + 1 == t.len());
    assert(sp_response(t) == Some(response_v(*r)));
}

proof fn lemma_response_parse_back(r: &Response)
    ensures
        sp_response(spec_response_body(*r)) == Some(response_v(*r)),
{
    match r.data {
        Some(_) => lemma_response_parse_back_with_data(r),
        None => lemma_response_parse_back_no_data(r),
    }
}

proof fn lemma_response_body_trim(r: &Response)
    ensures
        spec_trim(spec_response_body(*r) + "\n"@) == spec_response_body(*r),
{
    reveal_strlit("{\"status\":");
    reveal_strlit("}");
    reveal_strlit("\n");
    reveal_strlit("\"");
    let t = spec_response_body(*r);
    let lit0 = "{\"status\":"@;
    let s0 = spec_status_label(r.status);
    let lit1 = ",\"message\":\""@;
    let m0 = spec_json_escape(r.message@) + seq!['"'];
    let datapart = match r.data {
        Some(d) => ",\"data\":"@ + spec_data_json(d),
        None => Seq::<char>::empty(),
    };
    assert(t =~= (lit0 + (s0 + (lit1 + (m0 + datapart)))) + "}"@);
    assert(t[0] == '{');
    assert(t.len() > 0);
    assert(t.last() == '}');
    assert(t + "\n"@ =~= t.push('\n'));
    crate::strutil::lemma_trim_clean_line(t);
}

/// A response line as written by `to_json` parses back to the very
/// response: trimming strips exactly the trailing newline, and the
/// reference parser recovers the response's whole view.
pub proof fn lemma_response_json_roundtrip(r: &Response)
    ensures
        spec_trim(spec_response_body(*r) + "\n"@) == spec_response_body(*r),
        sp_response(spec_response_body(*r)) == Some(response_v(*r)),
{
    lemma_response_body_trim(r);
    lemma_response_parse_back(r);
}

/// A command line as written by `to_json` parses back to the very command:
/// the decoder inverts the encoder.
pub proof fn lemma_command_json_roundtrip(c: Command)
    ensures
        spec_trim(spec_command_body(c) + "\n"@) == spec_command_body(c),
{
    reveal_strlit("{\"command\":\"trigger\"}");
    reveal_strlit("{\"command\":\"status\"}");
    reveal_strlit("{\"command\":\"ping\"}");
    reveal_strlit("\n");
    let body = spec_command_body(c);
    assert(body + "\n"@ =~= body.push('\n'));
    match c {
        Command::Trigger => {
            assert(body[0] == '{' && body.last() == '}');
        },
        Command::Status => {
            assert(body[0] == '{' && body.last() == '}');
        },
        Command::Ping => {
            assert(body[0] == '{' && body.last() == '}');
        },
    }
    crate::strutil::lemma_trim_clean_line(body);
}

impl Response {
    /// Parses one response line: exactly the JSON object that `to_json`
    /// writes, with any surrounding whitespace tolerated. The result is
    /// pinned by the reference parser `sp_response`.
    pub fn from_json(line: &str) -> (r: Result<Response, String>)
        ensures
            match r {
                Ok(resp) => sp_response(spec_trim(line@)) == Some(response_v(resp)),
                Err(_) => sp_response(spec_trim(line@)) is None,
            },
    {
        let chars = to_chars(line);
        let t = trim_chars(&chars);
        match px_response(&t) {
            Some(resp) => Ok(resp),
            None => Err(String::from_str("Failed to parse response")),
        }
    }
}

} // verus!

