//! What the requests to GitHub and its answers say.

use vstd::prelude::*;
use crate::github::client::{
    bootstrap_endpoint, bootstrap_poll, global_poll, header_args, repository_endpoint, request_args,
    PollStepModel, PollingModel, ReceivedModel, WalkModel, WalkStepModel,
};
use crate::github::http::{
    behind_blank, header_at, header_end, header_value, headers_of, is_next, metadata_of, next_among,
    next_in, next_target, number_in, output_of, response_in, response_of, status_of, succeeded,
    with_header, ApiModel,
};
use crate::github::{
    crosses_overlap, endpoint_of, pull_request_of, valid_full_name, GhErrorModel, MetadataModel,
};
use crate::model::NotificationModel;
use crate::number::{decimal, decimal_has_no, decimal_reads_back};
use crate::text::laws::{
    ends_are_cut_off, is_word, pieces_come_one_by_one, pieces_make_the_text,
    texts_are_cut_at_a_separator, trimmed_texts_stay, words_come_one_by_one,
};
use crate::text::{
    find, find_char_from, find_char_in_range, found_where_it_stands, is_char, is_digit,
    is_white_space, join, lines, lower, split, split_once, starts_with, strip_prefix, trim,
    trim_end_matches, trim_end_where, trim_matches, trim_start_where, words,
};
use crate::time::{Duration, Timestamp, MAX_SECONDS, MIN_SECONDS};

verus! {

// ---------------------------------------------------------------------------
// Names and addresses
// ---------------------------------------------------------------------------

/// A name of a repository is an owner and a name with one slash between them.
pub proof fn full_names_have_two_parts(owner: Seq<char>, name: Seq<char>, full: Seq<char>)
    ensures
        !owner.contains('/') && !name.contains('/') ==> (valid_full_name(
            owner + seq!['/'] + name,
        ) <==> owner.len() > 0 && name.len() > 0),
        valid_full_name(full) ==> split(full, '/').len() == 2 && split(full, '/')[0].len() > 0
            && split(full, '/')[1].len() > 0 && full == split(full, '/')[0] + seq!['/'] + split(
            full,
            '/',
        )[1],
        !full.contains('/') ==> !valid_full_name(full),
{
    if !owner.contains('/') && !name.contains('/') {
        pieces_come_one_by_one(owner, name, '/');
        pieces_come_one_by_one(name, seq![], '/');
        let parts = split(owner + seq!['/'] + name, '/');
        assert(parts =~= seq![owner, name]);
    }
    if valid_full_name(full) {
        pieces_make_the_text(full, '/');
        let parts = split(full, '/');
        assert(parts.drop_last() =~= seq![parts[0]]);
        assert(join(parts.drop_last(), seq!['/']) == parts[0]);
        assert(join(parts, seq!['/']) == parts[0] + seq!['/'] + parts[1]);
    }
    if !full.contains('/') {
        pieces_come_one_by_one(full, seq![], '/');
    }
}

/// The API address of a pull request leads back to its repository and number.
pub proof fn addresses_lead_to_their_pull_request(
    owner: Seq<char>,
    name: Seq<char>,
    number: u64,
)
    requires
        !owner.contains('/'),
        !name.contains('/'),
        !owner.contains('?'),
        !name.contains('?'),
        owner.len() > 0,
    ensures
        ({
            let full_name = owner + "/"@ + name;
            let endpoint = repository_endpoint(full_name) + "/pulls/"@ + decimal(number as nat);
            &&& pull_request_of("https://api.github.com"@ + endpoint) == Ok::<
                (Seq<char>, nat),
                GhErrorModel,
            >((full_name, number as nat))
        }),
{
    reveal_strlit("/");
    reveal_strlit("/repos/");
    reveal_strlit("/pulls/");
    reveal_strlit("repos");
    reveal_strlit("pulls");
    let digits = decimal(number as nat);
    let full_name = owner + "/"@ + name;
    let path = repository_endpoint(full_name) + "/pulls/"@ + digits;
    let url = "https://api.github.com"@ + path;
    ends_are_cut_off(url, "https://api.github.com"@, path);
    decimal_has_no(number as nat, '?');
    decimal_has_no(number as nat, '/');
    decimal_reads_back(number as nat, u64::MAX as nat);
    assert(digits.len() >= 1);
    let inner = "repos"@ + seq!['/'] + (owner + seq!['/'] + (name + seq!['/'] + ("pulls"@ + seq![
        '/',
    ] + digits)));
    assert(path =~= seq!['/'] + inner);
    assert(!path.contains('?')) by {
        assert forall|i: int| 0 <= i < path.len() implies path[i] != '?' by {
            let a: int = 7;
            let b = a + owner.len();
            let c = b + 1 + name.len();
            let d = c + 7;
            if i < a {
            } else if i < b {
                assert(path[i] == owner[i - a]);
                assert(owner.contains(owner[i - a]));
            } else if i == b {
            } else if i < c {
                assert(path[i] == name[i - b - 1]);
                assert(name.contains(name[i - b - 1]));
            } else if i < d {
            } else {
                assert(path[i] == digits[i - d]);
                assert(digits.contains(digits[i - d]));
            }
        }
    }
    find_char_in_range(path, '?', 0);
    assert(split_once(path, '?') is None);
    // The slash at the start goes, and nothing else.
    let f = is_char('/');
    assert(f(path[0]));
    assert(path.skip(1) =~= inner);
    assert(!f(inner[0]));
    assert(trim_start_where(path, f) == inner) by {
        assert(trim_start_where(path, f) == trim_start_where(path.skip(1), f));
        assert(trim_start_where(inner, f) == inner);
    }
    assert(inner.last() == digits.last());
    assert(digits.contains(digits.last()));
    assert(!f(inner.last()));
    assert(trim_end_where(inner, f) == inner);
    assert(trim_matches(path, '/') == inner);
    let rest4 = digits;
    let rest3 = "pulls"@ + seq!['/'] + rest4;
    let rest2 = name + seq!['/'] + rest3;
    let rest1 = owner + seq!['/'] + rest2;
    assert(!"repos"@.contains('/'));
    assert(!"pulls"@.contains('/'));
    pieces_come_one_by_one("repos"@, rest1, '/');
    pieces_come_one_by_one(owner, rest2, '/');
    pieces_come_one_by_one(name, rest3, '/');
    pieces_come_one_by_one("pulls"@, rest4, '/');
    pieces_come_one_by_one(digits, seq![], '/');
    let parts = split(inner, '/');
    assert(parts =~= seq!["repos"@, owner, name, "pulls"@, digits]);
    assert(parts[1] + "/"@ + parts[2] =~= full_name);
}

/// A link is followed exactly where it is a path, or one of the API.
pub proof fn links_stay_within_the_api(link: Seq<char>, path: Seq<char>)
    ensures
        starts_with(path, "/"@) ==> endpoint_of("https://api.github.com"@ + path) == Ok::<
            Seq<char>,
            GhErrorModel,
        >(path),
        starts_with(link, "/"@) ==> endpoint_of(link) == Ok::<Seq<char>, GhErrorModel>(link),
        !starts_with(link, "/"@) && !starts_with(link, "https://api.github.com/"@) ==> endpoint_of(
            link,
        ) is Err,
{
    reveal_strlit("/");
    reveal_strlit("https://api.github.com");
    reveal_strlit("https://api.github.com/");
    ends_are_cut_off(link, "https://api.github.com"@, path);
    if starts_with(link, "/"@) {
        assert(link[0] == link.take(1)[0]);
        if starts_with(link, "https://api.github.com"@) {
            assert(link[0] == link.take("https://api.github.com"@.len() as int)[0]);
        }
    }
    if !starts_with(link, "/"@) && !starts_with(link, "https://api.github.com/"@) {
        if let Some(tail) = strip_prefix(link, "https://api.github.com"@) {
            if starts_with(tail, "/"@) {
                assert(link =~= "https://api.github.com"@ + tail);
                assert(tail[0] == tail.take(1)[0]);
                assert(link.take(23) =~= "https://api.github.com/"@);
            }
        }
    }
}

// ---------------------------------------------------------------------------
// Errors
// ---------------------------------------------------------------------------

/// Only an answer has a status, and it has its own.
pub proof fn statuses_are_those_of_answers(error: GhErrorModel, status: u16)
    ensures
        error.has_status(status) <==> (error matches GhErrorModel::Status { metadata, .. }
            && metadata.status == status),
        error.not_found() <==> error is NotFound || (error matches GhErrorModel::Status {
            metadata,
            ..
        } && metadata.status == 404),
        error.metadata() matches Some(metadata) ==> error matches GhErrorModel::Status {
            metadata: own,
            ..
        } && own == metadata,
        error is Status ==> error.metadata() is Some,
{
}

/// An answer is one of success where its status is from 200 to 299 and the command
/// ended well.
pub proof fn success_is_from_200_to_299(response: ApiModel)
    ensures
        succeeded(response) <==> response.command_success && response.metadata.status >= 200
            && response.metadata.status <= 299,
{
}

// ---------------------------------------------------------------------------
// Headers
// ---------------------------------------------------------------------------

proof fn header_stands(headers: Seq<(Seq<char>, Seq<char>)>, name: Seq<char>, from: int)
    requires
        0 <= from,
    ensures
        header_at(headers, name, from) matches Some(i) ==> from <= i < headers.len()
            && headers[i].0 == name && forall|j: int| from <= j < i ==> (
        #[trigger] headers[j]).0 != name,
        header_at(headers, name, from) is None ==> forall|j: int|
            from <= j < headers.len() ==> (#[trigger] headers[j]).0 != name,
    decreases headers.len() - from,
{
    if from < headers.len() && headers[from].0 != name {
        header_stands(headers, name, from + 1);
    }
}

/// A header holds the value that was set, behind those set before, and no other header
/// changes.
pub proof fn headers_are_set_by_name(
    headers: Seq<(Seq<char>, Seq<char>)>,
    name: Seq<char>,
    value: Seq<char>,
    other: Seq<char>,
)
    ensures
        header_value(with_header(headers, name, value), name) == Some(
            match header_value(headers, name) {
                Some(before) => before + ", "@ + value,
                None => value,
            },
        ),
        other != name ==> header_value(with_header(headers, name, value), other) == header_value(
            headers,
            other,
        ),
        header_value(headers, name) is Some <==> exists|i: int|
            0 <= i < headers.len() && (#[trigger] headers[i]).0 == name,
{
    let after = with_header(headers, name, value);
    header_stands(headers, name, 0);
    header_stands(after, name, 0);
    header_stands(headers, other, 0);
    header_stands(after, other, 0);
    match header_at(headers, name, 0) {
        Some(i) => {
            assert(after[i].0 == name);
            assert forall|j: int| 0 <= j < i implies (#[trigger] after[j]).0 != name by {
                assert(after[j] == headers[j]);
            }
            assert(header_at(after, name, 0) == Some(i));
            same_place(headers, after, other);
        },
        None => {
            let n = headers.len() as int;
            assert(after[n].0 == name);
            assert forall|j: int| 0 <= j < n implies (#[trigger] after[j]).0 != name by {
                assert(after[j] == headers[j]);
            }
            assert(header_at(after, name, 0) == Some(n));
            if other != name {
                match header_at(headers, other, 0) {
                    Some(k) => {
                        assert(after[k] == headers[k]);
                        assert forall|j: int| 0 <= j < k implies (
                        #[trigger] after[j]).0 != other by {
                            assert(after[j] == headers[j]);
                        }
                        assert(header_at(after, other, 0) == Some(k));
                    },
                    None => {
                        assert forall|j: int| 0 <= j < after.len() implies (
                        #[trigger] after[j]).0 != other by {
                            if j < n {
                                assert(after[j] == headers[j]);
                            }
                        }
                        assert(header_at(after, other, 0) is None);
                    },
                }
            }
        },
    }
}

proof fn same_place(
    headers: Seq<(Seq<char>, Seq<char>)>,
    after: Seq<(Seq<char>, Seq<char>)>,
    name: Seq<char>,
)
    requires
        after.len() == headers.len(),
        forall|j: int| 0 <= j < headers.len() ==> (#[trigger] after[j]).0 == headers[j].0,
    ensures
        header_at(after, name, 0) == header_at(headers, name, 0),
{
    header_stands(headers, name, 0);
    header_stands(after, name, 0);
    if let Some(k) = header_at(headers, name, 0) {
        assert(after[k].0 == name);
        if let Some(m) = header_at(after, name, 0) {
            if m < k {
                assert(headers[m].0 == after[m].0);
            }
        }
    } else if let Some(m) = header_at(after, name, 0) {
        assert(headers[m].0 == after[m].0);
    }
}

/// Of an answer's headers, each number is read from its own: a header that is set to a
/// number tells that number, and nothing else that is told changes.
pub proof fn numbers_are_read_from_their_header(
    status: u16,
    headers: Seq<(Seq<char>, Seq<char>)>,
    n: u64,
)
    ensures
        ({
            let before = metadata_of(status, headers);
            let text = decimal(n as nat);
            let span = Some(Duration { seconds: n, nanos: 0 });
            &&& header_value(headers, "retry-after"@) is None ==> metadata_of(
                status,
                with_header(headers, "retry-after"@, text),
            ) == (MetadataModel { retry_after: span, ..before })
            &&& header_value(headers, "x-poll-interval"@) is None ==> metadata_of(
                status,
                with_header(headers, "x-poll-interval"@, text),
            ) == (MetadataModel { poll_interval: span, ..before })
            &&& header_value(headers, "x-ratelimit-remaining"@) is None ==> metadata_of(
                status,
                with_header(headers, "x-ratelimit-remaining"@, text),
            ) == (MetadataModel { rate_limit_remaining: Some(n), ..before })
            &&& header_value(headers, "x-ratelimit-reset"@) is None ==> metadata_of(
                status,
                with_header(headers, "x-ratelimit-reset"@, text),
            ) == (MetadataModel { rate_limit_reset: Some(n), ..before })
        }),
{
    names_differ();
    let text = decimal(n as nat);
    number_is_told(headers, "retry-after"@, n);
    number_is_told(headers, "x-poll-interval"@, n);
    number_is_told(headers, "x-ratelimit-remaining"@, n);
    number_is_told(headers, "x-ratelimit-reset"@, n);
    others_stay(headers, "retry-after"@, text);
    others_stay(headers, "x-poll-interval"@, text);
    others_stay(headers, "x-ratelimit-remaining"@, text);
    others_stay(headers, "x-ratelimit-reset"@, text);
}

/// The validator is the value of its header, and a header that says nothing to the
/// daemon changes nothing.
pub proof fn validators_are_read_from_their_header(
    status: u16,
    headers: Seq<(Seq<char>, Seq<char>)>,
    name: Seq<char>,
    value: Seq<char>,
)
    ensures
        ({
            let before = metadata_of(status, headers);
            &&& before.status == status
            &&& header_value(headers, "last-modified"@) is None ==> metadata_of(
                status,
                with_header(headers, "last-modified"@, value),
            ) == (MetadataModel { last_modified: Some(value), ..before })
            &&& name != "last-modified"@ && name != "x-poll-interval"@ && name != "retry-after"@
                && name != "x-ratelimit-remaining"@ && name != "x-ratelimit-reset"@ && name
                != "link"@ ==> metadata_of(status, with_header(headers, name, value)) == before
            &&& header_value(headers, "link"@) is None ==> before.next is None
        }),
{
    names_differ();
    others_stay(headers, "last-modified"@, value);
    others_stay(headers, name, value);
}

proof fn names_differ()
    ensures
        "last-modified"@.len() == 13,
        "x-poll-interval"@.len() == 15,
        "retry-after"@.len() == 11,
        "x-ratelimit-remaining"@.len() == 21,
        "x-ratelimit-reset"@.len() == 17,
        "link"@.len() == 4,
{
    reveal_strlit("last-modified");
    reveal_strlit("x-poll-interval");
    reveal_strlit("retry-after");
    reveal_strlit("x-ratelimit-remaining");
    reveal_strlit("x-ratelimit-reset");
    reveal_strlit("link");
}

proof fn digits_are_no_white_space(n: nat)
    ensures
        forall|i: int| 0 <= i < decimal(n).len() ==> !is_white_space(#[trigger] decimal(n)[i]),
{
    reveal(is_white_space);
    let text = decimal(n);
    assert forall|i: int| 0 <= i < text.len() implies !is_white_space(#[trigger] text[i]) by {
        if is_white_space(text[i]) {
            assert(!is_digit(text[i]));
            decimal_has_no(n, text[i]);
            assert(text.contains(text[i]));
        }
    }
}

proof fn number_is_told(headers: Seq<(Seq<char>, Seq<char>)>, name: Seq<char>, n: u64)
    ensures
        header_value(headers, name) is None ==> number_in(
            with_header(headers, name, decimal(n as nat)),
            name,
        ) == Some(n),
{
    let text = decimal(n as nat);
    headers_are_set_by_name(headers, name, text, name);
    decimal_reads_back(n as nat, u64::MAX as nat);
    digits_are_no_white_space(n as nat);
    assert(text.len() > 0);
    trimmed_texts_stay(text, '/');
}

proof fn others_stay(headers: Seq<(Seq<char>, Seq<char>)>, name: Seq<char>, value: Seq<char>)
    ensures
        ({
            let after = with_header(headers, name, value);
            &&& header_value(headers, name) is None ==> header_value(after, name) == Some(value)
            &&& name != "last-modified"@ ==> header_value(after, "last-modified"@) == header_value(
                headers,
                "last-modified"@,
            )
            &&& name != "x-poll-interval"@ ==> header_value(after, "x-poll-interval"@)
                == header_value(headers, "x-poll-interval"@)
            &&& name != "retry-after"@ ==> header_value(after, "retry-after"@) == header_value(
                headers,
                "retry-after"@,
            )
            &&& name != "x-ratelimit-remaining"@ ==> header_value(after, "x-ratelimit-remaining"@)
                == header_value(headers, "x-ratelimit-remaining"@)
            &&& name != "x-ratelimit-reset"@ ==> header_value(after, "x-ratelimit-reset"@)
                == header_value(headers, "x-ratelimit-reset"@)
            &&& name != "link"@ ==> header_value(after, "link"@) == header_value(headers, "link"@)
        }),
{
    headers_are_set_by_name(headers, name, value, "last-modified"@);
    headers_are_set_by_name(headers, name, value, "x-poll-interval"@);
    headers_are_set_by_name(headers, name, value, "retry-after"@);
    headers_are_set_by_name(headers, name, value, "x-ratelimit-remaining"@);
    headers_are_set_by_name(headers, name, value, "x-ratelimit-reset"@);
    headers_are_set_by_name(headers, name, value, "link"@);
}

// ---------------------------------------------------------------------------
// Answers
// ---------------------------------------------------------------------------

/// The body of an answer is the end of the text, behind a blank line, and is not itself
/// an answer.
pub proof fn bodies_stand_behind_the_headers(s: Seq<char>)
    ensures
        response_in(s) matches Ok(response) ==> {
            let at = s.len() - response.body.len();
            &&& at >= 2
            &&& s.skip(at) == response.body
            &&& s[at - 1] == '\n'
            &&& s[at - 2] == '\n' || (at >= 4 && s[at - 2] == '\r' && s[at - 3] == '\n' && s[at - 4]
                == '\r')
            &&& !starts_with(response.body, "HTTP/"@)
        },
    decreases s.len(),
{
    reveal_strlit("\r\n\r\n");
    reveal_strlit("\n\n");
    found_where_it_stands(s, "\r\n\r\n"@);
    found_where_it_stands(s, "\n\n"@);
    if let Some((at, width)) = header_end(s) {
        let rest = s.skip(at + width);
        let gap = s.subrange(at, at + width);
        assert(s[at + width - 1] == gap[width - 1]);
        assert(s[at + width - 2] == gap[width - 2]);
        if width == 4 {
            assert(s[at] == gap[0] && s[at + 1] == gap[1]);
        }
        if let Ok(response) = response_in(s) {
            if starts_with(rest, "HTTP/"@) && rest.len() < s.len() {
                bodies_stand_behind_the_headers(rest);
                let k = rest.len() - response.body.len();
                assert(rest.skip(k) =~= s.skip(at + width + k));
                assert(rest[k - 1] == s[at + width + k - 1]);
                assert(rest[k - 2] == s[at + width + k - 2]);
                if k >= 4 {
                    assert(rest[k - 3] == s[at + width + k - 3]);
                    assert(rest[k - 4] == s[at + width + k - 4]);
                }
            }
        }
    }
}

/// The status of an answer is the number behind the protocol in its first line.
pub proof fn statuses_stand_behind_the_protocol(
    version: Seq<char>,
    status: u16,
    phrase: Seq<char>,
)
    requires
        is_word("HTTP/"@ + version),
    ensures
        status_of("HTTP/"@ + version + seq![' '] + decimal(status as nat)) == Ok::<
            nat,
            Seq<char>,
        >(status as nat),
        status_of(
            "HTTP/"@ + version + seq![' '] + (decimal(status as nat) + seq![' '] + phrase),
        ) == Ok::<nat, Seq<char>>(status as nat),
{
    let protocol = "HTTP/"@ + version;
    let text = decimal(status as nat);
    assert(is_white_space(' ')) by {
        reveal(is_white_space);
    }
    digits_are_no_white_space(status as nat);
    decimal_reads_back(status as nat, u16::MAX as nat);
    ends_are_cut_off(protocol, "HTTP/"@, version);
    words_come_one_by_one(protocol, ' ', text);
    words_come_one_by_one(text, ' ', phrase);
    words_come_one_by_one(protocol, ' ', text + seq![' '] + phrase);
    let plain = words(protocol + seq![' '] + text);
    assert(plain =~= seq![protocol, text]);
    let long = words(protocol + seq![' '] + (text + seq![' '] + phrase));
    assert(long[0] == protocol);
    assert(long[1] == (seq![text] + words(phrase))[0]);
}

proof fn next_header(
    block: Seq<Seq<char>>,
    line: Seq<char>,
    from: int,
    headers: Seq<(Seq<char>, Seq<char>)>,
)
    requires
        0 <= from <= block.len(),
    ensures
        match headers_of(block, from, headers) {
            Ok(known) => headers_of(block.push(line), from, headers) == headers_of(
                block.push(line),
                block.len() as int,
                known,
            ),
            Err(message) => headers_of(block.push(line), from, headers) == Err::<
                Seq<(Seq<char>, Seq<char>)>,
                Seq<char>,
            >(message),
        },
    decreases block.len() - from,
{
    if from < block.len() {
        let own = trim_end_matches(block[from], '\r');
        assert(block.push(line)[from] == block[from]);
        if let Some((name, value)) = split_once(own, ':') {
            next_header(
                block,
                line,
                from + 1,
                with_header(headers, lower(trim(name)), trim(value)),
            );
        }
    }
}

/// A further line sets the header before its first colon to what follows, both without
/// white space around them and the name in small letters. A line without a colon is no
/// header.
pub proof fn header_lines_set_one_header(
    block: Seq<Seq<char>>,
    name: Seq<char>,
    value: Seq<char>,
    malformed: Seq<char>,
)
    requires
        block.len() > 0,
        !name.contains(':'),
        value.len() > 0 ==> value.last() != '\r',
        !malformed.contains(':'),
    ensures
        headers_of(block, 1, seq![]) matches Ok(known) ==> {
            &&& headers_of(block.push(name + seq![':'] + value), 1, seq![]) == Ok::<
                Seq<(Seq<char>, Seq<char>)>,
                Seq<char>,
            >(with_header(known, lower(trim(name)), trim(value)))
            &&& headers_of(block.push(malformed), 1, seq![]) is Err
        },
{
    let line = name + seq![':'] + value;
    let n = block.len() as int;
    next_header(block, line, 1, seq![]);
    next_header(block, malformed, 1, seq![]);
    if let Ok(known) = headers_of(block, 1, seq![]) {
        assert(line.len() > 0);
        assert(line.last() == if value.len() > 0 {
            value.last()
        } else {
            ':'
        });
        trimmed_texts_stay(line, '\r');
        assert(block.push(line)[n] == line);
        texts_are_cut_at_a_separator(line, ':');
        find_char_in_range(line, ':', 0);
        assert(line[name.len() as int] == ':');
        if let Some((a, b)) = split_once(line, ':') {
            let k = find_char_from(line, ':', 0)->0;
            if k < name.len() {
                assert(line[k] == name[k]);
                assert(name.contains(name[k]));
            }
            assert(k == name.len());
            assert(a =~= name);
            assert(b =~= value);
        }
        let after = with_header(known, lower(trim(name)), trim(value));
        assert(headers_of(block.push(line), n + 1, after) == Ok::<
            Seq<(Seq<char>, Seq<char>)>,
            Seq<char>,
        >(after));
        assert(headers_of(block.push(line), n, known) == headers_of(block.push(line), n + 1, after));
        let own = trim_end_matches(malformed, '\r');
        assert(block.push(malformed)[n] == malformed);
        end_is_kept(malformed);
        find_char_in_range(own, ':', 0);
        assert(split_once(own, ':') is None);
        assert(headers_of(block.push(malformed), n, known) is Err);
    }
}

proof fn end_is_kept(s: Seq<char>)
    requires
        !s.contains(':'),
    ensures
        !trim_end_matches(s, '\r').contains(':'),
    decreases s.len(),
{
    if s.len() > 0 && s.last() == '\r' {
        let front = s.drop_last();
        assert(!front.contains(':')) by {
            if front.contains(':') {
                let k = front.index_of(':');
                assert(s[k] == ':');
            }
        }
        assert(is_char('\r')(s.last()));
        end_is_kept(front);
        assert(trim_end_matches(s, '\r') == trim_end_matches(front, '\r'));
    } else {
        trimmed_texts_stay(s, '\r');
    }
}

/// An answer is made of a head, a blank line and a body: the first line of the head
/// tells the status, the others tell the headers.
pub proof fn answers_have_a_head_and_a_body(head: Seq<char>, body: Seq<char>)
    requires
        find(head + "\r\n\r\n"@ + body, "\r\n\r\n"@) == Some(head.len() as int),
        !starts_with(body, "HTTP/"@),
        lines(head).len() > 0,
    ensures
        match response_in(head + "\r\n\r\n"@ + body) {
            Ok(response) => {
                &&& response.body == body
                &&& status_of(trim_end_matches(lines(head)[0], '\r')) == Ok::<nat, Seq<char>>(
                    response.status,
                )
                &&& headers_of(lines(head), 1, seq![]) == Ok::<
                    Seq<(Seq<char>, Seq<char>)>,
                    Seq<char>,
                >(response.headers)
            },
            Err(_) => status_of(trim_end_matches(lines(head)[0], '\r')) is Err || headers_of(
                lines(head),
                1,
                seq![],
            ) is Err,
        },
{
    reveal_strlit("\r\n\r\n");
    let s = head + "\r\n\r\n"@ + body;
    assert(s.take(head.len() as int) =~= head);
    assert(s.skip(head.len() as int + 4) =~= body);
}

/// An answer that holds another one behind its head, as of a proxy, is that other one.
pub proof fn last_answers_count(head: Seq<char>, rest: Seq<char>)
    requires
        find(head + "\r\n\r\n"@ + rest, "\r\n\r\n"@) == Some(head.len() as int),
        starts_with(rest, "HTTP/"@),
        lines(head).len() > 0,
        status_of(trim_end_matches(lines(head)[0], '\r')) is Ok,
        headers_of(lines(head), 1, seq![]) is Ok,
    ensures
        response_in(head + "\r\n\r\n"@ + rest) == response_in(rest),
{
    reveal_strlit("\r\n\r\n");
    let s = head + "\r\n\r\n"@ + rest;
    assert(s.take(head.len() as int) =~= head);
    assert(s.skip(head.len() as int + 4) =~= rest);
}

/// The entry of a link header leads to `target`, as the next page.
pub open spec fn names_next(part: Seq<char>, target: Seq<char>) -> bool {
    let pieces = split(trim(part), ';');
    &&& trim(pieces[0]) == "<"@ + target + ">"@
    &&& exists|k: int|
        1 <= k < pieces.len() && (trim(#[trigger] pieces[k]) == "rel=\"next\""@ || trim(pieces[k])
            == "rel=next"@)
}

/// The next page is the target in angle brackets of the first entry that is marked so.
pub proof fn links_name_the_next_page(header: Seq<char>)
    ensures
        match next_in(header) {
            Some(target) => exists|i: int|
                0 <= i < split(header, ',').len() && names_next(
                    #[trigger] split(header, ',')[i],
                    target,
                ),
            None => forall|i: int, target: Seq<char>|
                0 <= i < split(header, ',').len() ==> !#[trigger] names_next(
                    split(header, ',')[i],
                    target,
                ),
        },
{
    next_entry(split(header, ','), 0);
}

proof fn next_entry(parts: Seq<Seq<char>>, from: int)
    requires
        0 <= from,
    ensures
        match next_among(parts, from) {
            Some(target) => exists|i: int|
                from <= i < parts.len() && names_next(#[trigger] parts[i], target),
            None => forall|i: int, target: Seq<char>|
                from <= i < parts.len() ==> !#[trigger] names_next(parts[i], target),
        },
    decreases parts.len() - from,
{
    if from < parts.len() {
        let part = parts[from];
        let pieces = split(trim(part), ';');
        let first = trim(pieces[0]);
        reveal_strlit("<");
        reveal_strlit(">");
        match next_target(part) {
            Some(target) => {
                ends_are_cut_off(first, "<"@, seq![]);
                let rest = strip_prefix(first, "<"@)->0;
                ends_are_cut_off(rest, ">"@, seq![]);
                assert(first =~= "<"@ + target + ">"@);
                let k = choose|k: int| 1 <= k < pieces.len() && is_next(#[trigger] pieces[k]);
                assert(is_next(pieces[k]));
                assert(names_next(part, target));
            },
            None => {
                next_entry(parts, from + 1);
                assert forall|target: Seq<char>| !names_next(part, target) by {
                    if names_next(part, target) {
                        let k = choose|k: int|
                            1 <= k < pieces.len() && (trim(#[trigger] pieces[k])
                                == "rel=\"next\""@ || trim(pieces[k]) == "rel=next"@);
                        assert(is_next(pieces[k]));
                        assert(first =~= "<"@ + (target + ">"@));
                        ends_are_cut_off(first, "<"@, target + ">"@);
                        ends_are_cut_off(first, ">"@, target);
                    }
                }
            },
        }
    }
}

// ---------------------------------------------------------------------------
// Requests
// ---------------------------------------------------------------------------

/// The header stands among the arguments from `start` on, behind its flag.
pub open spec fn passes_header(
    args: Seq<Seq<char>>,
    start: int,
    headers: Seq<Seq<char>>,
    i: int,
) -> bool {
    args[start + 2 * i] == "-H"@ && args[start + 2 * i + 1] == headers[i]
}

proof fn headers_as_arguments(headers: Seq<Seq<char>>)
    ensures
        header_args(headers).len() == 2 * headers.len(),
        forall|i: int|
            0 <= i < headers.len() ==> #[trigger] passes_header(
                header_args(headers),
                0,
                headers,
                i,
            ),
    decreases headers.len(),
{
    if headers.len() > 0 {
        let front = headers.drop_last();
        let args = header_args(headers);
        let before = header_args(front);
        headers_as_arguments(front);
        assert(args == before.push("-H"@).push(headers.last()));
        assert forall|i: int| 0 <= i < headers.len() implies #[trigger] passes_header(
            args,
            0,
            headers,
            i,
        ) by {
            if i < front.len() {
                assert(passes_header(before, 0, front, i));
                assert(front[i] == headers[i]);
                assert(args[2 * i] == before[2 * i]);
                assert(args[2 * i + 1] == before[2 * i + 1]);
            } else {
                assert(args[2 * i] == "-H"@);
                assert(args[2 * i + 1] == headers.last());
            }
        }
    }
}

/// A request reads from github.com: the endpoint comes last, and each header behind its
/// flag.
pub proof fn requests_only_read(endpoint: Seq<char>, headers: Seq<Seq<char>>)
    ensures
        ({
            let args = request_args(endpoint, headers);
            &&& args.len() == 11 + 2 * headers.len()
            &&& args.last() == endpoint
            &&& args[0] == "api"@
            &&& args[1] == "--hostname"@ && args[2] == "github.com"@
            &&& args[3] == "--include"@
            &&& args[4] == "--method"@ && args[5] == "GET"@
            &&& args[6] == "-H"@ && args[7] == "Accept: application/vnd.github+json"@
            &&& args[8] == "-H"@ && args[9] == "X-GitHub-Api-Version: 2022-11-28"@
            &&& forall|i: int|
                0 <= i < headers.len() ==> #[trigger] passes_header(args, 10, headers, i)
        }),
{
    headers_as_arguments(headers);
    let args = request_args(endpoint, headers);
    let extra = header_args(headers);
    assert forall|i: int| 0 <= i < headers.len() implies #[trigger] passes_header(
        args,
        10,
        headers,
        i,
    ) by {
        assert(passes_header(extra, 0, headers, i));
        assert(args[10 + 2 * i] == extra[2 * i]);
        assert(args[10 + 2 * i + 1] == extra[2 * i + 1]);
    }
}

/// The notifications of a repository are all asked for, read or not, at its address.
pub proof fn bootstraps_ask_for_all(full_name: Seq<char>)
    ensures
        bootstrap_endpoint(full_name) == "/repos/"@ + full_name
            + "/notifications?all=true&per_page=100"@,
        starts_with(bootstrap_endpoint(full_name), repository_endpoint(full_name)),
        repository_endpoint(full_name) == "/repos/"@ + full_name,
{
    assert(bootstrap_endpoint(full_name).take(repository_endpoint(full_name).len() as int)
        =~= repository_endpoint(full_name));
}

// ---------------------------------------------------------------------------
// Pages
// ---------------------------------------------------------------------------

/// A poll starts with its first page and with its headers, and has found nothing yet.
pub proof fn polls_start_empty(
    endpoint: Seq<char>,
    headers: Seq<Seq<char>>,
    allow: bool,
    mark: Option<Timestamp>,
)
    ensures
        ({
            let polling = PollingModel::start(endpoint, headers, allow, mark);
            &&& polling.found is None
            &&& polling.endpoint == endpoint
            &&& polling.visited.contains(endpoint)
            &&& polling.allow_not_modified == allow
            &&& polling.high_water == mark
            &&& polling.request() == request_args(endpoint, headers)
        }),
{
    assert(PollingModel::start(endpoint, headers, allow, mark).visited[0] == endpoint);
}

/// Nothing has changed exactly where the first page says so and a validator was sent;
/// any other answer than one of success is an error.
pub proof fn unchanged_answers_are_told_apart(polling: PollingModel, response: ApiModel)
    ensures
        ({
            let unchanged = polling.found is None && polling.allow_not_modified
                && response.metadata.status == 304;
            match polling.received(response) {
                Ok(ReceivedModel::NotModified(poll)) => unchanged && poll.not_modified
                    && poll.notifications.len() == 0 && poll.metadata == response.metadata,
                Ok(ReceivedModel::Page) => !unchanged && response.command_success && 200
                    <= response.metadata.status <= 299,
                Err(error) => !unchanged && !(response.command_success && 200
                    <= response.metadata.status <= 299) && (error matches GhErrorModel::Status {
                    endpoint,
                    metadata,
                    body,
                    stderr,
                } && endpoint == polling.endpoint && metadata == response.metadata && body
                    == response.body && stderr == response.stderr),
            }
        }),
{
}

/// A notification of the page is a minute or more older than the mark.
pub open spec fn reaches_back(page: Seq<NotificationModel>, mark: Timestamp) -> bool {
    exists|i: int|
        0 <= i < page.len() && {
            let changed = (#[trigger] page[i]).updated_at;
            changed.seconds < mark.seconds - 60 || (changed.seconds == mark.seconds - 60
                && changed.nanos <= mark.nanos)
        }
}

/// Paging goes on while there is a further page and the last one does not reach back
/// over a minute before the mark. All notifications of all pages are kept in order,
/// with the metadata of the first page and the tightest limit of all.
pub proof fn pages_are_read_back_to_the_mark(
    polling: PollingModel,
    page: Seq<NotificationModel>,
    metadata: MetadataModel,
)
    requires
        polling.high_water matches Some(mark) ==> mark.nanos < 1_000_000_000 && MIN_SECONDS + 60
            <= mark.seconds <= MAX_SECONDS,
    ensures
        ({
            let ends = metadata.next is None || (polling.high_water matches Some(mark)
                && reaches_back(page, mark));
            let before = match polling.found {
                Some(found) => found.notifications,
                None => seq![],
            };
            match polling.advanced(page, metadata) {
                Ok(PollStepModel::Done(poll)) => ends && poll.notifications == before + page && (
                polling.found is None ==> !poll.not_modified && poll.metadata == metadata),
                Ok(PollStepModel::Request(next)) => {
                    &&& !ends
                    &&& next.found matches Some(poll) && poll.notifications == before + page
                    &&& endpoint_of(metadata.next->0) == Ok::<Seq<char>, GhErrorModel>(
                        next.endpoint,
                    )
                    &&& !polling.visited.contains(next.endpoint)
                    &&& next.visited.contains(next.endpoint)
                    &&& next.high_water == polling.high_water
                },
                Err(error) => !ends && (endpoint_of(metadata.next->0) is Err || (endpoint_of(
                    metadata.next->0,
                ) matches Ok(endpoint) && polling.visited.contains(endpoint))),
            }
        }),
{
    if let Some(mark) = polling.high_water {
        let edge = mark.back(60);
        assert(edge.seconds == mark.seconds - 60 && edge.nanos == mark.nanos);
        if crosses_overlap(page, polling.high_water) {
            let k = choose|i: int|
                0 <= i < page.len() && (#[trigger] page[i]).updated_at.no_later_than(edge);
            assert(reaches_back(page, mark));
        }
        if reaches_back(page, mark) {
            let k = choose|i: int|
                0 <= i < page.len() && {
                    let changed = (#[trigger] page[i]).updated_at;
                    changed.seconds < mark.seconds - 60 || (changed.seconds == mark.seconds - 60
                        && changed.nanos <= mark.nanos)
                };
            assert(page[k].updated_at.no_later_than(edge));
        }
    }
    if let Ok(PollStepModel::Request(next)) = polling.advanced(page, metadata) {
        assert(next.visited.last() == next.endpoint);
    }
    match polling.found {
        Some(found) => {
            assert(polling.with_page(page, metadata).notifications =~= found.notifications + page);
        },
        None => {
            assert(seq![] + page =~= page);
        },
    }
}

/// The limits of a further page count: the smaller remainder, and its word on the rest
/// where it has one. Everything else is that of the first page.
pub proof fn further_pages_tell_their_limits(first: MetadataModel, page: MetadataModel)
    ensures
        ({
            let both = first.merged(page);
            &&& both.status == first.status
            &&& both.last_modified == first.last_modified
            &&& both.poll_interval == first.poll_interval
            &&& both.next == first.next
            &&& page.retry_after is Some ==> both.retry_after == page.retry_after
            &&& page.retry_after is None ==> both.retry_after == first.retry_after
            &&& page.rate_limit_reset is Some ==> both.rate_limit_reset == page.rate_limit_reset
            &&& page.rate_limit_reset is None ==> both.rate_limit_reset == first.rate_limit_reset
            &&& both.rate_limit_remaining is None <==> first.rate_limit_remaining is None
                && page.rate_limit_remaining is None
            &&& both.rate_limit_remaining == first.rate_limit_remaining || both.rate_limit_remaining
                == page.rate_limit_remaining
            &&& first.rate_limit_remaining matches Some(n) ==> both.rate_limit_remaining->0 <= n
            &&& page.rate_limit_remaining matches Some(n) ==> both.rate_limit_remaining->0 <= n
        }),
{
}

/// A list that comes in pages holds what every page held, in order.
pub proof fn lists_hold_every_page(walk: WalkModel, page: Seq<i64>, next: Option<Seq<char>>)
    ensures
        match walk.advanced(page, next) {
            Ok(WalkStepModel::Done(ids)) => next is None && ids == walk.ids + page,
            Ok(WalkStepModel::Request(further)) => next is Some && further.ids == walk.ids + page
                && endpoint_of(next->0) == Ok::<Seq<char>, GhErrorModel>(further.endpoint)
                && !walk.visited.contains(further.endpoint),
            Err(_) => next is Some && (endpoint_of(next->0) is Err || (endpoint_of(
                next->0,
            ) matches Ok(endpoint) && walk.visited.contains(endpoint))),
        },
{
}

/// All notifications are asked for, read or not, and the validator is sent as it was
/// given. The notifications of a repository that was just registered are asked for
/// without one, and without a mark at which to stop.
pub proof fn polls_ask_for_read_and_unread(
    last_modified: Option<Seq<char>>,
    mark: Option<Timestamp>,
    full_name: Seq<char>,
)
    ensures
        ({
            let poll = global_poll(last_modified, mark);
            let args = poll.request();
            &&& args.last() == "/notifications?all=true&per_page=50"@
            &&& last_modified is None ==> args.len() == 11
            &&& last_modified matches Some(value) ==> args.len() == 13 && args[10] == "-H"@
                && args[11] == "If-Modified-Since: "@ + value
            &&& poll.allow_not_modified
            &&& poll.high_water == mark
            &&& poll.found is None
        }),
        ({
            let poll = bootstrap_poll(full_name);
            let args = poll.request();
            &&& args.len() == 11
            &&& args.last() == "/repos/"@ + full_name + "/notifications?all=true&per_page=100"@
            &&& !poll.allow_not_modified
            &&& poll.high_water is None
            &&& poll.found is None
        }),
{
    let poll = global_poll(last_modified, mark);
    requests_only_read(poll.endpoint, poll.headers);
    requests_only_read(bootstrap_poll(full_name).endpoint, seq![]);
    if last_modified is Some {
        assert(passes_header(poll.request(), 10, poll.headers, 0));
    }
}

// ---------------------------------------------------------------------------
// Output of gh
// ---------------------------------------------------------------------------

proof fn blank_lines_shift(a: Seq<char>, s: Seq<char>, from: int)
    requires
        0 <= from <= s.len(),
    ensures
        behind_blank(a + s, a.len() + from) == a.len() + behind_blank(s, from),
        from <= behind_blank(s, from) <= s.len(),
    decreases s.len() - from,
{
    if from < s.len() {
        assert((a + s)[a.len() + from] == s[from]);
        if s[from] == '\n' {
            blank_lines_shift(a, s, from + 1);
        } else if s[from] == '\r' && from + 1 < s.len() {
            assert((a + s)[a.len() + from + 1] == s[from + 1]);
            if s[from + 1] == '\n' {
                blank_lines_shift(a, s, from + 2);
            }
        }
    }
}

/// Blank lines before an answer say nothing.
pub proof fn blank_lines_come_before_an_answer(s: Seq<char>)
    ensures
        response_of(seq!['\n'] + s) == response_of(s),
        response_of(seq!['\r', '\n'] + s) == response_of(s),
        s.len() > 0 && s[0] != '\n' && s[0] != '\r' ==> response_of(s) == response_in(s),
{
    let one = seq!['\n'];
    let two = seq!['\r', '\n'];
    blank_lines_shift(one, s, 0);
    blank_lines_shift(two, s, 0);
    let k = behind_blank(s, 0);
    assert((one + s)[0] == '\n');
    assert(behind_blank(one + s, 0) == behind_blank(one + s, 1));
    assert((one + s).skip(1 + k) =~= s.skip(k));
    assert((two + s)[0] == '\r' && (two + s)[1] == '\n');
    assert(behind_blank(two + s, 0) == behind_blank(two + s, 2));
    assert((two + s).skip(2 + k) =~= s.skip(k));
    if s.len() > 0 && s[0] != '\n' && s[0] != '\r' {
        assert(s.skip(0) =~= s);
    }
}

/// What `gh` printed is an answer where it can be read as one, with what its headers
/// say and with what `gh` said of its end; otherwise it is an error of the protocol.
pub proof fn outputs_hold_an_answer(
    endpoint: Seq<char>,
    stdout: Seq<char>,
    stderr: Seq<char>,
    success: bool,
)
    ensures
        match (output_of(endpoint, stdout, stderr, success), response_of(stdout)) {
            (Ok(answer), Ok(response)) => {
                &&& answer.body == response.body
                &&& answer.stderr == stderr
                &&& answer.command_success == success
                &&& answer.metadata == metadata_of(response.status as u16, response.headers)
            },
            (Err(error), Err(_)) => error is Protocol,
            _ => false,
        },
{
}

} // verus!
