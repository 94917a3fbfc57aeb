//! What the local clones are asked, and what is made of the answers.

use vstd::prelude::*;
use crate::git::steps::{
    after_command, fetch_after, fetch_start, first_line, still_registered, DiscoverModel,
    DiscoverStepModel, FetchState, FetchStepModel, LocalModel,
};
use crate::git::{
    alias_of, forbidden_in_ref, hostname_in, origin_of, output_of, parsed_origin, parts_of,
    repo_path, root_command, valid_oid, valid_ref, CommandModel, FetchSpec, GitErrorModel,
    OriginModel, ParsedModel, RevisionKind,
};
use crate::number::decimal;
use crate::paths::paths_equal;
use crate::text::laws::{
    ends_are_cut_off, pieces_come_one_by_one, texts_are_cut_at_a_separator, trimmed_texts_stay,
};
use crate::text::{
    ends_with, find, found_where_it_stands, is_control, is_hex_digit, is_white_space, lines, lower,
    rsplit_once, split, split_once, starts_with, trim, words,
};
use crate::time::Duration;

verus! {

// ---------------------------------------------------------------------------
// Addresses of clones
// ---------------------------------------------------------------------------

/// A part of an address: not empty, and without what separates the parts.
pub open spec fn is_part(s: Seq<char>) -> bool {
    &&& s.len() > 0
    &&& !s.contains('/')
    &&& !s.contains(':')
    &&& !s.contains('@')
    &&& !is_white_space(s[0])
    &&& !is_white_space(s.last())
    &&& !ends_with(s, ".git"@)
}

/// The repository of that owner and name on GitHub.
pub open spec fn repository_of(owner: Seq<char>, name: Seq<char>) -> Result<
    OriginModel,
    GitErrorModel,
> {
    Ok(OriginModel { hostname: "github.com"@, owner, repository: name })
}

proof fn cut_at(first: Seq<char>, rest: Seq<char>, sep: char)
    ensures
        !first.contains(sep) ==> split_once(first + seq![sep] + rest, sep) == Some((first, rest)),
        !rest.contains(sep) ==> rsplit_once(first + seq![sep] + rest, sep) == Some((first, rest)),
        !first.contains(sep) ==> split_once(first, sep) is None && rsplit_once(first, sep) is None,
{
    let s = first + seq![sep] + rest;
    let n = first.len() as int;
    assert(s[n] == sep);
    assert(s.contains(sep));
    texts_are_cut_at_a_separator(s, sep);
    texts_are_cut_at_a_separator(first, sep);
    if !first.contains(sep) {
        let (a, b) = split_once(s, sep)->0;
        let t = a + seq![sep] + b;
        assert(s == t);
        let k = a.len() as int;
        assert(t[k] == sep);
        if k < n {
            assert(first[k] == s[k]);
        } else if n < k {
            assert(a[n] == t[n]);
        }
        assert(a =~= t.take(k));
        assert(b =~= t.skip(k + 1));
        assert(s.take(n) =~= first);
        assert(s.skip(n + 1) =~= rest);
        if let Some((c, d)) = split_once(first, sep) {
            assert((c + seq![sep] + d)[c.len() as int] == sep);
        }
        if let Some((c, d)) = rsplit_once(first, sep) {
            assert((c + seq![sep] + d)[c.len() as int] == sep);
        }
    }
    if !rest.contains(sep) {
        let (a, b) = rsplit_once(s, sep)->0;
        let t = a + seq![sep] + b;
        assert(s == t);
        let k = a.len() as int;
        assert(t[k] == sep);
        if n < k {
            assert(rest[k - n - 1] == s[k]);
        } else if k < n {
            assert(b[n - k - 1] == t[n]);
        }
        assert(a =~= t.take(k));
        assert(b =~= t.skip(k + 1));
        assert(s.take(n) =~= first);
        assert(s.skip(n + 1) =~= rest);
    }
}

proof fn path_of_two(owner: Seq<char>, name: Seq<char>)
    requires
        is_part(owner),
        is_part(name),
    ensures
        repo_path(owner + seq!['/'] + name) == Some((owner, name)),
        repo_path(owner + seq!['/'] + name + ".git"@) == Some((owner, name)),
{
    reveal_strlit(".git");
    let plain = owner + seq!['/'] + name;
    let long = plain + ".git"@;
    assert(owner.contains(owner[0]));
    assert(name.contains(name.last()));
    assert(plain[0] == owner[0] && plain.last() == name.last());
    assert(long[0] == owner[0] && long.last() == 't');
    trimmed_texts_stay(plain, '/');
    trimmed_texts_stay(long, '/');
    ends_are_cut_off(long, ".git"@, plain);
    pieces_come_one_by_one(owner, name, '/');
    pieces_come_one_by_one(name, seq![], '/');
    let parts = split(plain, '/');
    assert(parts =~= seq![owner, name]);
    if ends_with(plain, ".git"@) {
        let tail = plain.skip(plain.len() - 4);
        assert(tail =~= ".git"@);
        if name.len() >= 4 {
            assert(name.skip(name.len() - 4) =~= tail);
        } else {
            let k = 3 - name.len();
            assert(tail[k] == plain[owner.len() as int]);
        }
    }
}

/// The addresses under which GitHub offers a repository all lead to it, with and
/// without the suffix, and SSH is asked about none of them.
pub proof fn github_addresses_name_their_repository(owner: Seq<char>, name: Seq<char>)
    requires
        is_part(owner),
        is_part(name),
    ensures
        ({
            let path = owner + seq!['/'] + name;
            &&& origin_of("https://github.com/"@ + path, None) == repository_of(owner, name)
            &&& origin_of("https://github.com/"@ + (path + ".git"@), None) == repository_of(
                owner,
                name,
            )
            &&& origin_of("git@github.com:"@ + path, None) == repository_of(owner, name)
            &&& origin_of("git@github.com:"@ + (path + ".git"@), None) == repository_of(owner, name)
            &&& origin_of("ssh://git@github.com/"@ + path, None) == repository_of(owner, name)
            &&& origin_of("ssh://git@github.com/"@ + (path + ".git"@), None) == repository_of(
                owner,
                name,
            )
            &&& alias_of("https://github.com/"@ + path) is None
            &&& alias_of("git@github.com:"@ + path) is None
            &&& alias_of("ssh://git@github.com/"@ + path) is None
        }),
{
    reveal_strlit(".git");
    let path = owner + seq!['/'] + name;
    path_of_two(owner, name);
    assert(!is_white_space('t')) by {
        reveal(is_white_space);
    }
    address_names(path, owner, name);
    address_names(path + ".git"@, owner, name);
}

proof fn address_names(path: Seq<char>, owner: Seq<char>, name: Seq<char>)
    requires
        repo_path(path) == Some((owner, name)),
        path.len() > 0,
        !is_white_space(path.last()),
        path[0] != '/',
    ensures
        origin_of("https://github.com/"@ + path, None) == repository_of(owner, name),
        origin_of("git@github.com:"@ + path, None) == repository_of(owner, name),
        origin_of("ssh://git@github.com/"@ + path, None) == repository_of(owner, name),
        alias_of("https://github.com/"@ + path) is None,
        alias_of("git@github.com:"@ + path) is None,
        alias_of("ssh://git@github.com/"@ + path) is None,
{
    reveal_strlit("https://github.com/");
    reveal_strlit("git@github.com:");
    reveal_strlit("ssh://git@github.com/");
    reveal_strlit("https://");
    reveal_strlit("ssh://");
    reveal_strlit("github.com");
    reveal_strlit("git@github.com");
    reveal_strlit("git");
    reveal_strlit("/");
    assert(!is_white_space('h') && !is_white_space('g') && !is_white_space('s')) by {
        reveal(is_white_space);
    }
    let host = "github.com"@;
    let user = "git"@ + seq!['@'] + host;
    assert(user =~= "git@github.com"@);
    assert(!host.contains('@') && !host.contains(':') && !host.contains('/'));
    assert(!user.contains(':') && !user.contains('/'));
    cut_at("git"@, host, '@');
    cut_at(host, seq![], '@');
    pieces_come_one_by_one(host, seq![], ':');
    let https = "https://github.com/"@ + path;
    assert(https =~= "https://"@ + (host + seq!['/'] + path));
    trimmed_texts_stay(https, '/');
    ends_are_cut_off(https, "https://"@, host + seq!['/'] + path);
    cut_at(host, path, '/');
    let ssh = "ssh://git@github.com/"@ + path;
    assert(ssh =~= "ssh://"@ + (user + seq!['/'] + path));
    trimmed_texts_stay(ssh, '/');
    ends_are_cut_off(ssh, "ssh://"@, user + seq!['/'] + path);
    cut_at(user, path, '/');
    assert(!starts_with(ssh, "https://"@)) by {
        assert(ssh[0] == 's');
        if starts_with(ssh, "https://"@) {
            assert(ssh.take(8)[0] == 'h');
        }
    }
    let scp = "git@github.com:"@ + path;
    assert(scp =~= user + seq![':'] + path);
    trimmed_texts_stay(scp, '/');
    cut_at(user, path, ':');
    assert(scp[0] == 'g');
    if starts_with(scp, "https://"@) {
        assert(scp.take(8)[0] == 'h');
    }
    if starts_with(scp, "ssh://"@) {
        assert(scp.take(6)[0] == 's');
    }
    if starts_with(path, "/"@) {
        assert(path.take(1)[0] == '/');
    }
}

/// An address of the web on another host is refused, whatever SSH says.
pub proof fn other_web_hosts_are_refused(
    host: Seq<char>,
    path: Seq<char>,
    resolved: Option<Seq<char>>,
)
    requires
        is_part(host),
        lower(host) != lower("github.com"@),
        path.len() > 0,
        !is_white_space(path.last()),
    ensures
        origin_of("https://"@ + (host + seq!['/'] + path), resolved) is Err,
        alias_of("https://"@ + (host + seq!['/'] + path)) is None,
{
    let rest = host + seq!['/'] + path;
    let https = "https://"@ + rest;
    assert(https.len() > 8 && https[0] == 'h' && https.last() == path.last()) by {
        reveal_strlit("https://");
    }
    assert(!is_white_space('h')) by {
        reveal(is_white_space);
    }
    trimmed_texts_stay(https, '/');
    ends_are_cut_off(https, "https://"@, rest);
    cut_at(host, path, '/');
    cut_at(host, seq![], '@');
    pieces_come_one_by_one(host, seq![], ':');
    assert(parts_of(rest, false) == Some(ParsedModel { host, path, ssh: false }));
    assert(parsed_origin(https) == Some(ParsedModel { host, path, ssh: false }));
}

/// An address of SSH on another host is one of GitHub exactly where SSH says so of the
/// host.
pub proof fn aliases_are_read_by_ssh(
    host: Seq<char>,
    path: Seq<char>,
    resolved: Option<Seq<char>>,
)
    requires
        is_part(host),
        lower(host) != lower("github.com"@),
        path.len() > 0,
        !is_white_space(path.last()),
    ensures
        origin_of("ssh://"@ + (host + seq!['/'] + path), resolved) is Ok <==> repo_path(path) is Some
            && (resolved matches Some(told) && lower(told) == lower("github.com"@)),
        alias_of("ssh://"@ + (host + seq!['/'] + path)) == Some(host),
{
    let rest = host + seq!['/'] + path;
    let ssh = "ssh://"@ + rest;
    assert(ssh.len() > 6 && ssh[0] == 's' && ssh.last() == path.last()) by {
        reveal_strlit("ssh://");
    }
    assert(!is_white_space('s')) by {
        reveal(is_white_space);
    }
    assert(!starts_with(ssh, "https://"@)) by {
        reveal_strlit("https://");
        if starts_with(ssh, "https://"@) {
            assert(ssh.take(8)[0] == 'h');
        }
    }
    trimmed_texts_stay(ssh, '/');
    ends_are_cut_off(ssh, "ssh://"@, rest);
    cut_at(host, path, '/');
    cut_at(host, seq![], '@');
    pieces_come_one_by_one(host, seq![], ':');
    assert(parts_of(rest, true) == Some(ParsedModel { host, path, ssh: true }));
    assert(parsed_origin(ssh) == Some(ParsedModel { host, path, ssh: true }));
}

/// Two origins are the same exactly where host, owner and name are, but for capitals.
pub proof fn origins_are_compared_without_case(a: OriginModel, b: OriginModel)
    ensures
        a.equivalent(b) <==> lower(a.hostname) == lower(b.hostname) && lower(a.owner) == lower(
            b.owner,
        ) && lower(a.repository) == lower(b.repository),
        a.equivalent(a),
        a.equivalent(b) <==> b.equivalent(a),
        a.name() == a.owner + "/"@ + a.repository,
{
}

/// The host that SSH prints is the second word of the first line that begins with
/// `hostname`, in whatever case, and has one.
pub proof fn hosts_are_printed_by_ssh(found: Seq<Seq<char>>, from: int)
    requires
        0 <= from,
    ensures
        match hostname_in(found, from) {
            Some(host) => exists|i: int|
                from <= i < found.len() && tells_host(#[trigger] found[i]) && words(found[i])[1]
                    == host && forall|j: int| from <= j < i ==> !tells_host(#[trigger] found[j]),
            None => forall|i: int| from <= i < found.len() ==> !tells_host(#[trigger] found[i]),
        },
    decreases found.len() - from,
{
    if from < found.len() {
        if tells_host(found[from]) {
        } else {
            hosts_are_printed_by_ssh(found, from + 1);
        }
    }
}

/// A line that tells a host.
pub open spec fn tells_host(line: Seq<char>) -> bool {
    words(line).len() >= 2 && lower(words(line)[0]) == lower("hostname"@)
}

// ---------------------------------------------------------------------------
// Names that git may see
// ---------------------------------------------------------------------------

/// A name of a branch is not empty, neither begins nor ends with a dot, has no two
/// dots in a row and no `@{`, no control character, and none of the characters that
/// git reads otherwise.
pub proof fn branch_names_are_plain(value: Seq<char>)
    ensures
        valid_ref(value) <==> {
            &&& value.len() > 0
            &&& value[0] != '.'
            &&& value.last() != '.'
            &&& forall|i: int|
                0 <= i < value.len() - 1 ==> !#[trigger] pair_at(value, i, '.', '.')
            &&& forall|i: int|
                0 <= i < value.len() - 1 ==> !#[trigger] pair_at(value, i, '@', '{')
            &&& forall|i: int|
                0 <= i < value.len() ==> !is_control(#[trigger] value[i]) && value[i] != ' '
                    && value[i] != '~' && value[i] != '^' && value[i] != ':' && value[i] != '?'
                    && value[i] != '*' && value[i] != '[' && value[i] != '\\'
        },
{
    reveal_strlit(".");
    reveal_strlit("..");
    reveal_strlit("@{");
    reveal_strlit(" ~^:?*[\\");
    found_where_it_stands(value, ".."@);
    found_where_it_stands(value, "@{"@);
    if value.len() > 0 {
        assert(value.take(1) =~= seq![value[0]]);
        assert(value.skip(value.len() - 1) =~= seq![value.last()]);
        assert("."@ =~= seq!['.']);
        assert(seq![value[0]][0] == value[0]);
        assert(seq![value.last()][0] == value.last());
        assert("."@[0] == '.');
    }
    assert forall|i: int| 0 <= i < value.len() - 1 implies #[trigger] pair_at(value, i, '.', '.')
        == (value.subrange(i, i + 2) == ".."@) by {
        let two = value.subrange(i, i + 2);
        if two == ".."@ {
            assert(two[0] == '.' && two[1] == '.');
        }
        if pair_at(value, i, '.', '.') {
            assert(two =~= ".."@);
        }
    }
    assert forall|i: int| 0 <= i < value.len() - 1 implies #[trigger] pair_at(value, i, '@', '{')
        == (value.subrange(i, i + 2) == "@{"@) by {
        let two = value.subrange(i, i + 2);
        if two == "@{"@ {
            assert(two[0] == '@' && two[1] == '{');
        }
        if pair_at(value, i, '@', '{') {
            assert(two =~= "@{"@);
        }
    }
    let special = " ~^:?*[\\"@;
    assert forall|c: char| #[trigger] special.contains(c) == (c == ' ' || c == '~' || c == '^' || c
        == ':' || c == '?' || c == '*' || c == '[' || c == '\\') by {
        assert(special[0] == ' ');
        assert(special[1] == '~');
        assert(special[2] == '^');
        assert(special[3] == ':');
        assert(special[4] == '?');
        assert(special[5] == '*');
        assert(special[6] == '[');
        assert(special[7] == '\\');
    }
    if valid_ref(value) {
        assert forall|i: int| 0 <= i < value.len() - 1 implies !#[trigger] pair_at(
            value,
            i,
            '.',
            '.',
        ) by {
            assert(value.subrange(i, i + ".."@.len()) != ".."@);
        }
        assert forall|i: int| 0 <= i < value.len() - 1 implies !#[trigger] pair_at(
            value,
            i,
            '@',
            '{',
        ) by {
            assert(value.subrange(i, i + "@{"@.len()) != "@{"@);
        }
        assert forall|i: int| 0 <= i < value.len() implies !is_control(#[trigger] value[i])
            && !special.contains(value[i]) by {
            assert(!forbidden_in_ref(value[i]));
        }
    } else if value.len() > 0 && value[0] != '.' && value.last() != '.' {
        if find(value, ".."@) is Some {
            let i = find(value, ".."@)->0;
            assert(pair_at(value, i, '.', '.'));
        } else if find(value, "@{"@) is Some {
            let i = find(value, "@{"@)->0;
            assert(pair_at(value, i, '@', '{'));
        } else {
            let i = choose|i: int|
                0 <= i < value.len() && forbidden_in_ref(#[trigger] value[i]);
            assert(is_control(value[i]) || special.contains(value[i]));
        }
    }
}

/// Two characters in a row.
pub open spec fn pair_at(s: Seq<char>, i: int, a: char, b: char) -> bool {
    s[i] == a && s[i + 1] == b
}

/// The number of a revision has forty to sixty-four hexadecimal digits.
pub proof fn revisions_are_hexadecimal(value: Seq<char>)
    ensures
        valid_oid(value) <==> value.len() >= 40 && value.len() <= 64 && forall|i: int|
            0 <= i < value.len() ==> {
                let c = (#[trigger] value[i]) as u32;
                0x30 <= c <= 0x39 || 0x41 <= c <= 0x46 || 0x61 <= c <= 0x66
            },
{
    assert forall|i: int| 0 <= i < value.len() implies is_hex_digit(#[trigger] value[i]) == ({
        let c = value[i] as u32;
        0x30 <= c <= 0x39 || 0x41 <= c <= 0x46 || 0x61 <= c <= 0x66
    }) by {}
}

// ---------------------------------------------------------------------------
// Fetching
// ---------------------------------------------------------------------------

/// The command fetches one source from `origin` in the clone, into nothing but
/// `FETCH_HEAD`, without asking the user, and within the time.
pub open spec fn fetches(
    command: CommandModel,
    git: Seq<char>,
    root: Seq<char>,
    source: Seq<char>,
    left: Duration,
) -> bool {
    &&& command.program == git
    &&& command.args.len() == 7
    &&& command.args[0] == "-C"@ && command.args[1] == root
    &&& command.args[2] == "fetch"@
    &&& command.args[3] == "--no-tags"@
    &&& command.args[4] == "--refmap="@
    &&& command.args[5] == "origin"@
    &&& command.args[6] == source
    &&& !command.may_prompt
    &&& command.cancellable
    &&& command.timeout == left
}

/// The command prints the commit that was fetched.
pub open spec fn reads_fetched(
    command: CommandModel,
    git: Seq<char>,
    root: Seq<char>,
    left: Duration,
) -> bool {
    &&& command.program == git
    &&& command.args.len() == 5
    &&& command.args[0] == "-C"@ && command.args[1] == root
    &&& command.args[2] == "rev-parse"@
    &&& command.args[3] == "--verify"@
    &&& command.args[4] == "FETCH_HEAD^{commit}"@
    &&& command.timeout == left
}

/// A fetch begins with the base branch, where the names are such that git may see them
/// and time is left.
pub proof fn fetches_begin_with_the_base(
    git: Seq<char>,
    root: Seq<char>,
    spec: FetchSpec,
    left: Duration,
)
    ensures
        ({
            let sound = valid_ref(spec.base_ref@) && valid_oid(spec.expected_base_oid@)
                && valid_oid(spec.expected_head_oid@);
            match fetch_start(git, root, spec, left) {
                FetchStepModel::Run(state, command) => sound && !(left.seconds == 0 && left.nanos
                    == 0) && state == FetchState::FetchBase && fetches(
                    command,
                    git,
                    root,
                    "refs/heads/"@ + spec.base_ref@,
                    left,
                ),
                FetchStepModel::Done(Err(error)) => (error is InvalidOutput <==> !sound) && (
                error is CommandTimedOut <==> sound),
                FetchStepModel::Done(Ok(_)) => false,
            }
        }),
{
}

/// The fetched base must be the expected one before the head is fetched, from the ref
/// of the pull request, and the head must be the expected one in the end. A command
/// that failed ends the fetch, and so does the end of the time.
pub proof fn fetched_revisions_are_compared(
    git: Seq<char>,
    root: Seq<char>,
    spec: FetchSpec,
    state: FetchState,
    text: Seq<char>,
    error: GitErrorModel,
    left: Duration,
)
    ensures
        fetch_after(git, root, spec, state, Err(error), left) == FetchStepModel::Done(
            Err::<(), GitErrorModel>(error),
        ),
        ({
            let up = left.seconds == 0 && left.nanos == 0;
            let base = lower(spec.expected_base_oid@) == lower(trim(text));
            let head = lower(spec.expected_head_oid@) == lower(trim(text));
            match (state, fetch_after(git, root, spec, state, Ok(text), left)) {
                (FetchState::FetchBase, FetchStepModel::Run(next, command)) => !up && next
                    == FetchState::ReadBase && reads_fetched(command, git, root, left),
                (FetchState::FetchBase, FetchStepModel::Done(Err(e))) => up
                    && e is CommandTimedOut,
                (FetchState::ReadBase, FetchStepModel::Run(next, command)) => base && !up && next
                    == FetchState::FetchHead && fetches(
                    command,
                    git,
                    root,
                    "refs/pull/"@ + decimal(spec.pull_number as nat) + "/head"@,
                    left,
                ),
                (FetchState::ReadBase, FetchStepModel::Done(Err(e))) => if base {
                    up && e is CommandTimedOut
                } else {
                    e == (GitErrorModel::StaleRevision {
                        kind: RevisionKind::Base,
                        expected: spec.expected_base_oid@,
                        fetched: trim(text),
                    })
                },
                (FetchState::FetchHead, FetchStepModel::Run(next, command)) => !up && next
                    == FetchState::ReadHead && reads_fetched(command, git, root, left),
                (FetchState::FetchHead, FetchStepModel::Done(Err(e))) => up
                    && e is CommandTimedOut,
                (FetchState::ReadHead, FetchStepModel::Done(Ok(_))) => head,
                (FetchState::ReadHead, FetchStepModel::Done(Err(e))) => !head && e == (
                GitErrorModel::StaleRevision {
                    kind: RevisionKind::Head,
                    expected: spec.expected_head_oid@,
                    fetched: trim(text),
                }),
                _ => false,
            }
        }),
{
}

// ---------------------------------------------------------------------------
// Looking at a clone
// ---------------------------------------------------------------------------

/// The first line that is not blank, without white space around it.
pub proof fn first_lines_are_not_blank(found: Seq<Seq<char>>, from: int)
    requires
        0 <= from,
    ensures
        match first_line(found, from) {
            Some(line) => line.len() > 0 && exists|i: int|
                from <= i < found.len() && trim(#[trigger] found[i]) == line && forall|j: int|
                    from <= j < i ==> trim(#[trigger] found[j]).len() == 0,
            None => forall|i: int| from <= i < found.len() ==> trim(#[trigger] found[i]).len() == 0,
        },
    decreases found.len() - from,
{
    if from < found.len() && trim(found[from]).len() == 0 {
        first_lines_are_not_blank(found, from + 1);
    }
}

/// A clone is asked for its root and for the first fetch URL of `origin`; SSH is asked
/// about the host only where the URL names one by an alias. The repository is the one
/// that the URL names. A command of git that failed ends the search; one of SSH does
/// not.
pub proof fn clones_are_known_by_their_origin(
    git: Seq<char>,
    ssh: Seq<char>,
    root: Seq<char>,
    url: Seq<char>,
    text: Seq<char>,
    error: GitErrorModel,
)
    ensures
        ({
            let next = after_command(git, ssh, DiscoverModel::Root, Ok(text));
            &&& next matches DiscoverStepModel::Run(DiscoverModel::Urls { root: at }, command)
                && at == trim(text) && command.program == git && command.args =~= seq![
                "-C"@,
                trim(text),
                "remote"@,
                "get-url"@,
                "--all"@,
                "origin"@,
            ]
        }),
        after_command(git, ssh, DiscoverModel::Root, Err(error)) == DiscoverStepModel::Done(
            Err(error),
        ),
        after_command(git, ssh, DiscoverModel::Urls { root }, Err(error))
            == DiscoverStepModel::Done(Err(error)),
        match after_command(git, ssh, DiscoverModel::Urls { root }, Ok(text)) {
            DiscoverStepModel::Run(DiscoverModel::Alias { root: at, origin_url }, command) => at
                == root && first_line(lines(text), 0) == Some(origin_url) && command.program == ssh
                && command.args.len() == 2 && command.args[0] == "-G"@ && alias_of(origin_url)
                == Some(command.args[1]),
            DiscoverStepModel::Run(_, _) => false,
            DiscoverStepModel::Done(Ok(local)) => local.worktree_root == root && first_line(
                lines(text),
                0,
            ) == Some(local.origin_url) && origin_of(local.origin_url, None) == Ok::<
                OriginModel,
                GitErrorModel,
            >(local.origin),
            DiscoverStepModel::Done(Err(e)) => match first_line(lines(text), 0) {
                None => e is InvalidOutput,
                Some(first) => origin_of(first, None) == Err::<OriginModel, GitErrorModel>(e),
            },
        },
        match after_command(git, ssh, DiscoverModel::Alias { root, origin_url: url }, Ok(text)) {
            DiscoverStepModel::Done(Ok(local)) => local.worktree_root == root && local.origin_url
                == url && origin_of(url, hostname_in(lines(text), 0)) == Ok::<
                OriginModel,
                GitErrorModel,
            >(local.origin),
            DiscoverStepModel::Done(Err(e)) => origin_of(url, hostname_in(lines(text), 0))
                == Err::<OriginModel, GitErrorModel>(e),
            _ => false,
        },
        match after_command(git, ssh, DiscoverModel::Alias { root, origin_url: url }, Err(error)) {
            DiscoverStepModel::Done(Ok(local)) => local.worktree_root == root && local.origin_url
                == url && origin_of(url, None) == Ok::<OriginModel, GitErrorModel>(local.origin),
            DiscoverStepModel::Done(Err(e)) => origin_of(url, None) == Err::<
                OriginModel,
                GitErrorModel,
            >(e),
            _ => false,
        },
{
}

/// A registered directory is accepted exactly where it is the worktree that was found
/// and its origin is the registered one, but for capitals.
pub proof fn registered_clones_are_recognised(
    found: LocalModel,
    expected: Seq<char>,
    actual: Seq<char>,
    origin: OriginModel,
)
    ensures
        ({
            let same = lower(found.origin.hostname) == lower(origin.hostname) && lower(
                found.origin.owner,
            ) == lower(origin.owner) && lower(found.origin.repository) == lower(origin.repository);
            match still_registered(found, expected, actual, origin) {
                Ok(local) => paths_equal(expected, actual) && same && local == found,
                Err(GitErrorModel::WorktreeMismatch { expected: e, actual: a }) => !paths_equal(
                    expected,
                    actual,
                ) && e == expected && a == actual,
                Err(GitErrorModel::OriginMismatch { expected: e, actual: a }) => paths_equal(
                    expected,
                    actual,
                ) && !same && e == origin.owner + "/"@ + origin.repository && a
                    == found.origin.owner + "/"@ + found.origin.repository,
                Err(_) => false,
            }
        }),
{
}

/// The root of a clone is asked of git, from the directory that was given.
pub proof fn roots_are_asked_of_git(git: Seq<char>, start: Seq<char>)
    ensures
        root_command(git, start).program == git,
        root_command(git, start).args =~= seq!["-C"@, start, "rev-parse"@, "--show-toplevel"@],
        root_command(git, start).timeout.seconds == 30,
        root_command(git, start).timeout.nanos == 0,
{
}

/// A command gives its output exactly where it ended well and the output is text.
pub proof fn commands_give_their_output(
    operation: Seq<char>,
    success: bool,
    status: Seq<char>,
    stdout: Result<Seq<char>, Seq<char>>,
    stderr: Seq<char>,
)
    ensures
        match output_of(operation, success, status, stdout, stderr) {
            Ok(text) => success && stdout == Ok::<Seq<char>, Seq<char>>(text),
            Err(GitErrorModel::CommandFailed { operation: o, status: s, stderr: e }) => !success
                && o == operation && s == status && e == stderr,
            Err(GitErrorModel::InvalidOutput { operation: o, detail }) => success && o == operation
                && stdout == Err::<Seq<char>, Seq<char>>(detail),
            Err(_) => false,
        },
{
}

} // verus!
