//! The output of `gh api --include`: headers, a blank line and a body.

use vstd::prelude::*;
use crate::github::{GhError, GhErrorModel, MetadataModel, ResponseMetadata};
use crate::number::{parse_unsigned, parse_u64, read_unsigned};
use crate::text::{
    debug_text, find, lines, lower, opt_text, split, split_once, starts_with, str_debug, str_eq,
    str_find, str_lines, str_skip, str_split, str_split_once, str_starts_with, str_strip_prefix,
    str_strip_suffix, str_take, str_to_lower, str_trim, str_trim_end_matches, str_words,
    strip_prefix, strip_suffix, texts, trim, trim_end_matches, words,
};
use crate::time::Duration;

verus! {

// ---------------------------------------------------------------------------
// Headers
// ---------------------------------------------------------------------------

/// Header names in small letters, each with its values joined by commas.
#[derive(Debug, PartialEq, Eq)]
pub struct Headers {
    pub entries: Vec<(String, String)>,
}

impl View for Headers {
    type V = Seq<(Seq<char>, Seq<char>)>;

    open spec fn view(&self) -> Seq<(Seq<char>, Seq<char>)> {
        self.entries@.map_values(|e: (String, String)| (e.0@, e.1@))
    }
}

/// The position, from `from` on, of a header.
pub open spec fn header_at(headers: Seq<(Seq<char>, Seq<char>)>, name: Seq<char>, from: int) -> Option<
    int,
>
    decreases headers.len() - from,
{
    if from < 0 || from >= headers.len() {
        None
    } else if headers[from].0 == name {
        Some(from)
    } else {
        header_at(headers, name, from + 1)
    }
}

/// The value of a header.
pub open spec fn header_value(headers: Seq<(Seq<char>, Seq<char>)>, name: Seq<char>) -> Option<
    Seq<char>,
> {
    match header_at(headers, name, 0) {
        Some(i) => Some(headers[i].1),
        None => None,
    }
}

/// The headers with one more line. A name that was there before gets a further
/// value.
pub open spec fn with_header(
    headers: Seq<(Seq<char>, Seq<char>)>,
    name: Seq<char>,
    value: Seq<char>,
) -> Seq<(Seq<char>, Seq<char>)> {
    match header_at(headers, name, 0) {
        Some(i) => headers.update(i, (name, headers[i].1 + ", "@ + value)),
        None => headers.push((name, value)),
    }
}

impl Headers {
    fn position(&self, name: &str) -> (r: Option<usize>)
        ensures
            match r {
                Some(i) => header_at(self@, name@, 0) == Some(i as int) && i < self@.len()
                    && self@[i as int].0 == name@,
                None => header_at(self@, name@, 0) is None,
            },
    {
        let mut i: usize = 0;
        while i < self.entries.len()
            invariant
                i <= self.entries@.len(),
                header_at(self@, name@, 0) == header_at(self@, name@, i as int),
            decreases self.entries@.len() - i,
        {
            assert(self@[i as int] == (self.entries@[i as int].0@, self.entries@[i as int].1@));
            if str_eq(self.entries[i].0.as_str(), name) {
                return Some(i);
            }
            i += 1;
        }
        None
    }

    pub fn get(&self, name: &str) -> (r: Option<&String>)
        ensures
            match r {
                Some(value) => header_value(self@, name@) == Some(value@),
                None => header_value(self@, name@) is None,
            },
    {
        match self.position(name) {
            Some(i) => {
                assert(self@[i as int] == (self.entries@[i as int].0@, self.entries@[i as int].1@));
                Some(&self.entries[i].1)
            },
            None => None,
        }
    }

    fn insert(&mut self, name: String, value: &str)
        ensures
            final(self)@ == with_header(old(self)@, name@, value@),
    {
        let ghost before = self@;
        match self.position(name.as_str()) {
            Some(i) => {
                assert(self@[i as int] == (self.entries@[i as int].0@, self.entries@[i as int].1@));
                let mut joined = self.entries[i].1.clone();
                joined.append(", ");
                joined.append(value);
                self.entries[i] = (name, joined);
                assert(self@ =~= with_header(before, name@, value@));
            },
            None => {
                self.entries.push((name, value.to_owned()));
                assert(self@ =~= before.push((name@, value@)));
            },
        }
    }
}

// ---------------------------------------------------------------------------
// Responses
// ---------------------------------------------------------------------------

/// The position behind the blank lines at `from`.
pub open spec fn behind_blank(s: Seq<char>, from: int) -> int
    decreases s.len() - from,
{
    if from < 0 || from >= s.len() {
        from
    } else if s[from] == '\n' {
        behind_blank(s, from + 1)
    } else if s[from] == '\r' && from + 1 < s.len() && s[from + 1] == '\n' {
        behind_blank(s, from + 2)
    } else {
        from
    }
}

/// Where the headers end, and the length of the blank line behind them.
pub open spec fn header_end(s: Seq<char>) -> Option<(int, int)> {
    match find(s, "\r\n\r\n"@) {
        Some(at) => Some((at, 4)),
        None => match find(s, "\n\n"@) {
            Some(at) => Some((at, 2)),
            None => None,
        },
    }
}

/// The status in a status line.
pub open spec fn status_of(line: Seq<char>) -> Result<nat, Seq<char>> {
    let parts = words(line);
    if parts.len() == 0 || !starts_with(parts[0], "HTTP/"@) {
        Err("expected HTTP status line, got "@ + debug_text(line))
    } else if parts.len() == 1 {
        Err("status code missing from "@ + debug_text(line))
    } else {
        match read_unsigned(parts[1], u16::MAX as nat) {
            Ok(status) => Ok(status),
            Err(_) => Err("invalid status line "@ + debug_text(line)),
        }
    }
}

/// The headers in the lines from `from` on.
pub open spec fn headers_of(
    block: Seq<Seq<char>>,
    from: int,
    headers: Seq<(Seq<char>, Seq<char>)>,
) -> Result<Seq<(Seq<char>, Seq<char>)>, Seq<char>>
    decreases block.len() - from,
{
    if from < 0 || from >= block.len() {
        Ok(headers)
    } else {
        let line = trim_end_matches(block[from], '\r');
        match split_once(line, ':') {
            None => Err("malformed response header "@ + debug_text(line)),
            Some((name, value)) => headers_of(
                block,
                from + 1,
                with_header(headers, lower(trim(name)), trim(value)),
            ),
        }
    }
}

/// Status, headers and body of a response.
pub struct ResponseModel {
    pub status: nat,
    pub headers: Seq<(Seq<char>, Seq<char>)>,
    pub body: Seq<char>,
}

/// The response in a text that starts with a status line. Of several blocks of
/// headers the last one counts.
pub open spec fn response_in(s: Seq<char>) -> Result<ResponseModel, Seq<char>>
    decreases s.len(),
{
    match header_end(s) {
        None => Err("missing blank line after response headers"@),
        Some((at, width)) => {
            let block = lines(s.take(at));
            let rest = s.skip(at + width);
            if block.len() == 0 {
                Err("missing HTTP status line"@)
            } else {
                match status_of(trim_end_matches(block[0], '\r')) {
                    Err(message) => Err(message),
                    Ok(status) => match headers_of(block, 1, seq![]) {
                        Err(message) => Err(message),
                        Ok(headers) => if starts_with(rest, "HTTP/"@) && rest.len() < s.len() {
                            response_in(rest)
                        } else {
                            Ok(ResponseModel { status, headers, body: rest })
                        },
                    },
                }
            }
        },
    }
}

/// The response in the output of `gh api --include`.
pub open spec fn response_of(s: Seq<char>) -> Result<ResponseModel, Seq<char>> {
    response_in(s.skip(behind_blank(s, 0)))
}

proof fn find_in_range(s: Seq<char>, pat: Seq<char>, from: int)
    ensures
        crate::text::find_from(s, pat, from) matches Some(i) ==> 0 <= i && i + pat.len() <= s.len(),
    decreases s.len() + 1 - from,
{
    if 0 <= from && from + pat.len() <= s.len() && s.subrange(from, from + pat.len()) != pat {
        find_in_range(s, pat, from + 1);
    }
}

fn skip_blank(input: &str) -> (r: String)
    ensures
        r@ == input@.skip(behind_blank(input@, 0)),
{
    let x = crate::text::chars_of(input);
    let mut from: usize = 0;
    while from < x.len() && (x[from] == '\n' || (x[from] == '\r' && x.len() - from > 1 && x[from
        + 1] == '\n'))
        invariant
            x@ == input@,
            from <= x@.len(),
            behind_blank(input@, 0) == behind_blank(input@, from as int),
        decreases x@.len() - from,
    {
        if x[from] == '\n' {
            from += 1;
        } else {
            from += 2;
        }
    }
    str_skip(input, from)
}

fn find_header_end(s: &str) -> (r: Option<(usize, usize)>)
    ensures
        match r {
            Some((at, width)) => header_end(s@) == Some((at as int, width as int)) && at + width
                <= s@.len() && width > 0 && at + width <= usize::MAX,
            None => header_end(s@) is None,
        },
{
    let total: usize = s.unicode_len();
    proof {
        reveal_strlit("\r\n\r\n");
        reveal_strlit("\n\n");
        find_in_range(s@, "\r\n\r\n"@, 0);
        find_in_range(s@, "\n\n"@, 0);
    }
    match str_find(s, "\r\n\r\n") {
        Some(at) => Some((at, 4)),
        None => match str_find(s, "\n\n") {
            Some(at) => Some((at, 2)),
            None => None,
        },
    }
}

fn with_debug(start: &str, line: &str) -> (r: String)
    ensures
        r@ == start@ + debug_text(line@),
{
    let mut r = start.to_owned();
    r.append(str_debug(line).as_str());
    r
}

fn parse_status(line: &str) -> (r: Result<u16, String>)
    ensures
        match r {
            Ok(status) => status_of(line@) == Ok::<nat, Seq<char>>(status as nat),
            Err(message) => status_of(line@) == Err::<nat, Seq<char>>(message@),
        },
{
    let parts = str_words(line);
    assert(texts(parts@).len() == parts@.len());
    if parts.len() == 0 {
        return Err(with_debug("expected HTTP status line, got ", line));
    }
    assert(texts(parts@)[0] == parts@[0]@);
    if !str_starts_with(parts[0].as_str(), "HTTP/") {
        return Err(with_debug("expected HTTP status line, got ", line));
    }
    if parts.len() == 1 {
        return Err(with_debug("status code missing from ", line));
    }
    assert(texts(parts@)[1] == parts@[1]@);
    match parse_unsigned(parts[1].as_str(), u16::MAX as u64) {
        Ok(status) => Ok(status as u16),
        Err(_) => Err(with_debug("invalid status line ", line)),
    }
}

fn parse_headers(block: &Vec<String>) -> (r: Result<Headers, String>)
    requires
        block@.len() > 0,
    ensures
        match r {
            Ok(headers) => headers_of(texts(block@), 1, seq![]) == Ok::<
                Seq<(Seq<char>, Seq<char>)>,
                Seq<char>,
            >(headers@),
            Err(message) => headers_of(texts(block@), 1, seq![]) == Err::<
                Seq<(Seq<char>, Seq<char>)>,
                Seq<char>,
            >(message@),
        },
{
    let ghost all = texts(block@);
    let mut headers = Headers { entries: Vec::new() };
    assert(headers@ =~= seq![]);
    let mut i: usize = 1;
    while i < block.len()
        invariant
            1 <= i <= block@.len(),
            all == texts(block@),
            all.len() == block@.len(),
            headers_of(all, 1, seq![]) == headers_of(all, i as int, headers@),
        decreases block@.len() - i,
    {
        assert(all[i as int] == block@[i as int]@);
        let line = str_trim_end_matches(block[i].as_str(), '\r');
        match str_split_once(line.as_str(), ':') {
            None => {
                return Err(with_debug("malformed response header ", line.as_str()));
            },
            Some((name, value)) => {
                let key = str_to_lower(str_trim(name.as_str()).as_str());
                let trimmed = str_trim(value.as_str());
                headers.insert(key, trimmed.as_str());
            },
        }
        i += 1;
    }
    Ok(headers)
}

/// Reads the output of `gh api --include`. The body stays as it is.
pub fn parse_http_response(input: &str) -> (r: Result<(u16, Headers, String), String>)
    ensures
        match r {
            Ok((status, headers, body)) => response_of(input@) == Ok::<ResponseModel, Seq<char>>(
                ResponseModel { status: status as nat, headers: headers@, body: body@ },
            ),
            Err(message) => response_of(input@) == Err::<ResponseModel, Seq<char>>(message@),
        },
{
    let mut text = skip_blank(input);
    loop
        invariant
            response_of(input@) == response_in(text@),
        decreases text@.len(),
    {
        let (at, width) = match find_header_end(text.as_str()) {
            Some(end) => end,
            None => {
                return Err("missing blank line after response headers".to_owned());
            },
        };
        let block = str_lines(str_take(text.as_str(), at).as_str());
        assert(texts(block@).len() == block@.len());
        if block.len() == 0 {
            return Err("missing HTTP status line".to_owned());
        }
        assert(texts(block@)[0] == block@[0]@);
        let status: u16 = match parse_status(
            str_trim_end_matches(block[0].as_str(), '\r').as_str(),
        ) {
            Ok(status) => status,
            Err(message) => {
                return Err(message);
            },
        };
        let headers = match parse_headers(&block) {
            Ok(headers) => headers,
            Err(message) => {
                return Err(message);
            },
        };
        let rest = str_skip(text.as_str(), at + width);
        if str_starts_with(rest.as_str(), "HTTP/") {
            text = rest;
        } else {
            return Ok((status, headers, rest));
        }
    }
}

// ---------------------------------------------------------------------------
// Metadata
// ---------------------------------------------------------------------------

/// The number that a header holds.
pub open spec fn number_in(headers: Seq<(Seq<char>, Seq<char>)>, name: Seq<char>) -> Option<u64> {
    match header_value(headers, name) {
        Some(value) => match read_unsigned(trim(value), u64::MAX as nat) {
            Ok(n) => Some(n as u64),
            Err(_) => None,
        },
        None => None,
    }
}

/// The number of seconds that a header holds.
pub open spec fn seconds_in(headers: Seq<(Seq<char>, Seq<char>)>, name: Seq<char>) -> Option<
    Duration,
> {
    match number_in(headers, name) {
        Some(seconds) => Some(Duration { seconds, nanos: 0 }),
        None => None,
    }
}

/// The parameter says that the target is the next page.
pub open spec fn is_next(parameter: Seq<char>) -> bool {
    trim(parameter) == "rel=\"next\""@ || trim(parameter) == "rel=next"@
}

/// The target of one entry of a link header, where it is the next page.
pub open spec fn next_target(part: Seq<char>) -> Option<Seq<char>> {
    let pieces = split(trim(part), ';');
    if exists|i: int| 1 <= i < pieces.len() && is_next(#[trigger] pieces[i]) {
        match strip_prefix(trim(pieces[0]), "<"@) {
            Some(rest) => strip_suffix(rest, ">"@),
            None => None,
        }
    } else {
        None
    }
}

/// The first next page among the entries from `from` on.
pub open spec fn next_among(parts: Seq<Seq<char>>, from: int) -> Option<Seq<char>>
    decreases parts.len() - from,
{
    if from < 0 || from >= parts.len() {
        None
    } else {
        match next_target(parts[from]) {
            Some(target) => Some(target),
            None => next_among(parts, from + 1),
        }
    }
}

/// The next page that a link header names.
pub open spec fn next_in(header: Seq<char>) -> Option<Seq<char>> {
    next_among(split(header, ','), 0)
}

pub open spec fn metadata_of(status: u16, headers: Seq<(Seq<char>, Seq<char>)>) -> MetadataModel {
    MetadataModel {
        status,
        last_modified: header_value(headers, "last-modified"@),
        poll_interval: seconds_in(headers, "x-poll-interval"@),
        retry_after: seconds_in(headers, "retry-after"@),
        rate_limit_remaining: number_in(headers, "x-ratelimit-remaining"@),
        rate_limit_reset: number_in(headers, "x-ratelimit-reset"@),
        next: match header_value(headers, "link"@) {
            Some(value) => next_in(value),
            None => None,
        },
    }
}

pub fn integer_header(headers: &Headers, name: &str) -> (r: Option<u64>)
    ensures
        r == number_in(headers@, name@),
{
    match headers.get(name) {
        Some(value) => match parse_u64(str_trim(value.as_str()).as_str()) {
            Ok(n) => Some(n),
            Err(_) => None,
        },
        None => None,
    }
}

pub fn duration_header(headers: &Headers, name: &str) -> (r: Option<Duration>)
    ensures
        r == seconds_in(headers@, name@),
{
    match integer_header(headers, name) {
        Some(seconds) => Some(Duration::from_secs(seconds)),
        None => None,
    }
}

fn parse_next_target(part: &str) -> (r: Option<String>)
    ensures
        opt_text(r) == next_target(part@),
{
    let pieces = str_split(str_trim(part).as_str(), ';');
    let ghost all = texts(pieces@);
    assert(all.len() == pieces@.len());
    let mut found = false;
    let mut i: usize = 1;
    while i < pieces.len()
        invariant
            1 <= i <= pieces@.len(),
            all == texts(pieces@),
            all.len() == pieces@.len(),
            found == (exists|j: int| 1 <= j < i && is_next(#[trigger] all[j])),
        decreases pieces@.len() - i,
    {
        assert(all[i as int] == pieces@[i as int]@);
        let parameter = str_trim(pieces[i].as_str());
        if str_eq(parameter.as_str(), "rel=\"next\"") || str_eq(parameter.as_str(), "rel=next") {
            assert(is_next(all[i as int]));
            found = true;
        }
        i += 1;
    }
    if !found {
        return None;
    }
    assert(all[0] == pieces@[0]@);
    let target = str_trim(pieces[0].as_str());
    match str_strip_prefix(target.as_str(), "<") {
        Some(rest) => str_strip_suffix(rest.as_str(), ">"),
        None => None,
    }
}

pub fn next_link(header: &str) -> (r: Option<String>)
    ensures
        opt_text(r) == next_in(header@),
{
    let parts = str_split(header, ',');
    let ghost all = texts(parts@);
    assert(all.len() == parts@.len());
    let mut i: usize = 0;
    while i < parts.len()
        invariant
            i <= parts@.len(),
            all == texts(parts@),
            all == split(header@, ','),
            all.len() == parts@.len(),
            next_among(all, 0) == next_among(all, i as int),
        decreases parts@.len() - i,
    {
        assert(all[i as int] == parts@[i as int]@);
        if let Some(target) = parse_next_target(parts[i].as_str()) {
            return Some(target);
        }
        i += 1;
    }
    None
}

pub fn metadata_from_headers(status: u16, headers: &Headers) -> (r: ResponseMetadata)
    ensures
        r@ == metadata_of(status, headers@),
{
    ResponseMetadata {
        status,
        last_modified: match headers.get("last-modified") {
            Some(value) => Some(value.clone()),
            None => None,
        },
        poll_interval: duration_header(headers, "x-poll-interval"),
        retry_after: duration_header(headers, "retry-after"),
        rate_limit_remaining: integer_header(headers, "x-ratelimit-remaining"),
        rate_limit_reset: integer_header(headers, "x-ratelimit-reset"),
        next: match headers.get("link") {
            Some(value) => next_link(value.as_str()),
            None => None,
        },
    }
}

// ---------------------------------------------------------------------------
// Output of gh
// ---------------------------------------------------------------------------

/// A response, and how `gh` ended.
#[derive(Debug, PartialEq, Eq)]
pub struct ApiResponse {
    pub metadata: ResponseMetadata,
    pub body: String,
    pub stderr: String,
    pub command_success: bool,
}

#[verifier::ext_equal]
pub struct ApiModel {
    pub metadata: MetadataModel,
    pub body: Seq<char>,
    pub stderr: Seq<char>,
    pub command_success: bool,
}

impl View for ApiResponse {
    type V = ApiModel;

    open spec fn view(&self) -> ApiModel {
        ApiModel {
            metadata: self.metadata@,
            body: self.body@,
            stderr: self.stderr@,
            command_success: self.command_success,
        }
    }
}

/// The text that std makes of bytes, with a replacement for what is no UTF-8.
pub uninterp spec fn lossy_text(bytes: Seq<u8>) -> Seq<char>;

/// `String::from_utf8_lossy`. The text is named, not described.
#[verifier::external_body]
fn from_utf8_lossy(bytes: &Vec<u8>) -> (r: String)
    ensures
        r@ == lossy_text(bytes@),
{
    String::from_utf8_lossy(bytes).into_owned()
}

/// The response in what `gh` printed.
pub open spec fn output_of(
    endpoint: Seq<char>,
    stdout: Seq<char>,
    stderr: Seq<char>,
    success: bool,
) -> Result<ApiModel, GhErrorModel> {
    match response_of(stdout) {
        Ok(response) => Ok(
            ApiModel {
                metadata: metadata_of(response.status as u16, response.headers),
                body: response.body,
                stderr,
                command_success: success,
            },
        ),
        Err(message) => Err(
            GhErrorModel::Protocol(endpoint + ": "@ + message + "; stderr: "@ + trim(stderr)),
        ),
    }
}

/// Reads what `gh` printed, as text.
pub fn parse_output_text(endpoint: &str, stdout: &str, stderr: String, success: bool) -> (r: Result<
    ApiResponse,
    GhError,
>)
    ensures
        GhError::result_model(r) == output_of(endpoint@, stdout@, stderr@, success),
{
    match parse_http_response(stdout) {
        Ok((status, headers, body)) => Ok(
            ApiResponse {
                metadata: metadata_from_headers(status, &headers),
                body,
                stderr,
                command_success: success,
            },
        ),
        Err(message) => {
            let mut text = endpoint.to_owned();
            text.append(": ");
            text.append(message.as_str());
            text.append("; stderr: ");
            text.append(str_trim(stderr.as_str()).as_str());
            Err(GhError::Protocol(text))
        },
    }
}

/// Reads what `gh` printed.
pub fn parse_output(endpoint: &str, stdout: &Vec<u8>, stderr: &Vec<u8>, success: bool) -> (r: Result<
    ApiResponse,
    GhError,
>)
    ensures
        GhError::result_model(r) == output_of(
            endpoint@,
            lossy_text(stdout@),
            lossy_text(stderr@),
            success,
        ),
{
    let text = from_utf8_lossy(stdout);
    let errors = from_utf8_lossy(stderr);
    parse_output_text(endpoint, text.as_str(), errors, success)
}

/// The response is one of success, and `gh` ended well.
pub open spec fn succeeded(response: ApiModel) -> bool {
    200 <= response.metadata.status < 300 && response.command_success
}

pub open spec fn refused(endpoint: Seq<char>, response: ApiModel) -> GhErrorModel {
    GhErrorModel::Status {
        endpoint,
        metadata: response.metadata,
        body: response.body,
        stderr: response.stderr,
    }
}

pub fn ensure_success(endpoint: &str, response: &ApiResponse) -> (r: Result<(), GhError>)
    ensures
        r is Ok <==> succeeded(response@),
        r matches Err(error) ==> error@ == refused(endpoint@, response@),
{
    if 200 <= response.metadata.status && response.metadata.status < 300
        && response.command_success {
        return Ok(());
    }
    Err(
        GhError::Status {
            endpoint: endpoint.to_owned(),
            metadata: response.metadata.clone(),
            body: response.body.clone(),
            stderr: response.stderr.clone(),
        },
    )
}

} // verus!
