//! What the tool works out from git's answers: the GitHub owner and
//! repository named by a remote's URL, and the date of the local commit.
use vstd::prelude::*;

use crate::calendar::{seconds_from_civil, seconds_from_civil_exec, valid_date};
use crate::text::{
    chars_of, ends_with, ends_with_chars, find, find_chars, is_space, join, lemma_find_first,
    lemma_find_from, lemma_find_none, lemma_join_split, lemma_split_concat, lemma_split_len,
    lemma_split_pieces, lemma_split_whole, lemma_trim_idempotent, lemma_trim_unchanged, occurs_at,
    slice, split, split_chars, starts_with, starts_with_chars, string_of, trim, trim_chars,
};

verus! {

// ---------------------------------------------------------------------------
// The remote origin's URL
// ---------------------------------------------------------------------------

/// The URL with everything up to and including the first `://` taken off.
pub open spec fn after_scheme(s: Seq<char>) -> Seq<char> {
    match find(s, "://"@) {
        Some(i) => s.skip((i + "://"@.len()) as int),
        None => s,
    }
}

/// The part of the URL after the GitHub host, for the forms the tool knows:
/// `git@github.com:...`, `github.com/...`, or anything that holds
/// `/github.com/...`; none for any other URL.
pub open spec fn github_path(s: Seq<char>) -> Option<Seq<char>> {
    if starts_with(s, "git@github.com:"@) {
        Some(s.skip("git@github.com:"@.len() as int))
    } else if starts_with(s, "github.com/"@) {
        Some(s.skip("github.com/"@.len() as int))
    } else {
        match find(s, "/github.com/"@) {
            Some(i) => Some(s.skip((i + "/github.com/"@.len()) as int)),
            None => None,
        }
    }
}

/// The path without one trailing `.git`.
pub open spec fn strip_git(s: Seq<char>) -> Seq<char> {
    if ends_with(s, ".git"@) {
        s.take(s.len() - ".git"@.len())
    } else {
        s
    }
}

/// The `/`-separated components (owner first, repository last) of the GitHub
/// path that the remote URL `url` names, once surrounding whitespace, the
/// scheme and a trailing `.git` are gone; none where `url` is not a GitHub URL.
pub open spec fn origin_parts(url: Seq<char>) -> Option<Seq<Seq<char>>> {
    match github_path(after_scheme(trim(url))) {
        Some(path) => Some(split(strip_git(path), '/')),
        None => None,
    }
}

/// The components of the GitHub path named by `url`, the output of
/// `git config --get remote.origin.url`; `None` where that is not a GitHub
/// URL, on which the tool stops without doing anything.
pub fn parse_origin(url: &str) -> (r: Option<Vec<String>>)
    ensures
        match r {
            Some(parts) => origin_parts(url@) == Some(parts.deep_view()),
            None => origin_parts(url@) is None,
        },
{
    let raw = chars_of(url);
    let trimmed = trim_chars(&raw);
    let scheme = chars_of("://");
    let path = match find_chars(&trimmed, &scheme) {
        Some(i) => {
            proof {
                lemma_find_from(trimmed@, scheme@, 0);
                assert(occurs_at(trimmed@, scheme@, i as int));
                assert(i + scheme@.len() <= trimmed@.len());
                assert(i + scheme.len() <= trimmed.len());
            }
            slice(&trimmed, i + scheme.len(), trimmed.len())
        },
        None => trimmed,
    };
    assert(path@ == after_scheme(trim(url@)));
    let ssh = chars_of("git@github.com:");
    let web = chars_of("github.com/");
    let host = chars_of("/github.com/");
    let rest = if starts_with_chars(&path, &ssh) {
        slice(&path, ssh.len(), path.len())
    } else if starts_with_chars(&path, &web) {
        slice(&path, web.len(), path.len())
    } else {
        match find_chars(&path, &host) {
            Some(i) => {
                proof {
                    lemma_find_from(path@, host@, 0);
                    assert(occurs_at(path@, host@, i as int));
                    assert(i + host@.len() <= path@.len());
                    assert(i + host.len() <= path.len());
                }
                slice(&path, i + host.len(), path.len())
            },
            None => {
                return None;
            },
        }
    };
    assert(github_path(path@) == Some(rest@));
    let suffix = chars_of(".git");
    let stripped = if ends_with_chars(&rest, &suffix) {
        slice(&rest, 0, rest.len() - suffix.len())
    } else {
        rest
    };
    assert(stripped@ == strip_git(rest@));
    Some(split_chars(&stripped, '/'))
}

/// The owner (first component) and the repository (last component) of a
/// parsed origin.
pub fn owner_and_repo(parts: &Vec<String>) -> (r: (String, String))
    requires
        parts.len() > 0,
    ensures
        r.0@ == parts@[0]@,
        r.1@ == parts@[parts.len() - 1]@,
{
    let owner = parts[0].clone();
    let repo = parts[parts.len() - 1].clone();
    (owner, repo)
}

// ---------------------------------------------------------------------------
// Laws of the origin's components
// ---------------------------------------------------------------------------

/// A GitHub origin always has at least one component, so an owner and a
/// repository can always be read from it; no component holds a `/`, and the
/// components put back together with `/` give the path they were cut from.
pub proof fn lemma_origin_parts_shape(url: Seq<char>)
    ensures
        origin_parts(url) matches Some(parts) ==> {
            &&& parts.len() >= 1
            &&& forall|k: int| 0 <= k < parts.len() ==> !(#[trigger] parts[k]).contains('/')
            &&& github_path(after_scheme(trim(url))) matches Some(path) && join(parts, '/')
                == strip_git(path)
        },
{
    if let Some(path) = github_path(after_scheme(trim(url))) {
        lemma_split_len(strip_git(path), '/');
        lemma_split_pieces(strip_git(path), '/');
        lemma_join_split(strip_git(path), '/');
    }
}

/// Whitespace around the remote's URL (such as the newline that ends git's
/// output) never changes what it names.
pub proof fn lemma_origin_ignores_surrounding_space(url: Seq<char>)
    ensures
        origin_parts(trim(url)) == origin_parts(url),
{
    lemma_trim_idempotent(url);
}

/// The tail `owner/repo.git` of a GitHub path gives the owner and the
/// repository.
proof fn lemma_owner_repo_tail(owner: Seq<char>, repo: Seq<char>)
    requires
        !owner.contains('/'),
        !repo.contains('/'),
    ensures
        split(strip_git(owner.push('/') + repo + ".git"@), '/') == seq![owner, repo],
{
    reveal_strlit(".git");
    let p = owner.push('/') + repo + ".git"@;
    assert(p.skip(p.len() - 4) =~= ".git"@);
    assert(strip_git(p) =~= owner.push('/') + repo);
    lemma_split_concat(owner, repo, '/');
    lemma_split_whole(owner, '/');
    lemma_split_whole(repo, '/');
    assert(seq![owner] + seq![repo] =~= seq![owner, repo]);
}

/// Past the `https://` scheme of an HTTPS GitHub URL lies `github.com/`.
proof fn lemma_https_scheme(tail: Seq<char>)
    requires
        tail.len() > 0,
        !is_space(tail.last()),
    ensures
        after_scheme(trim("https://github.com/"@ + tail)) == "github.com/"@ + tail,
{
    reveal_strlit("https://github.com/");
    reveal_strlit("://");
    reveal_strlit("github.com/");
    let u = "https://github.com/"@ + tail;
    assert(u[0] == 'h');
    assert(u.last() == tail.last());
    lemma_trim_unchanged(u);
    let p = "://"@;
    assert(u.subrange(5, 8) =~= p);
    assert(!occurs_at(u, p, 0)) by { assert(u.subrange(0, 3)[0] == 'h'); }
    assert(!occurs_at(u, p, 1)) by { assert(u.subrange(1, 4)[0] == 't'); }
    assert(!occurs_at(u, p, 2)) by { assert(u.subrange(2, 5)[0] == 't'); }
    assert(!occurs_at(u, p, 3)) by { assert(u.subrange(3, 6)[0] == 'p'); }
    assert(!occurs_at(u, p, 4)) by { assert(u.subrange(4, 7)[0] == 's'); }
    lemma_find_first(u, p, 5);
    assert(u.skip(8) =~= "github.com/"@ + tail);
}

/// Whatever follows `github.com/` is the GitHub path.
pub proof fn lemma_web_path(tail: Seq<char>)
    ensures
        github_path("github.com/"@ + tail) == Some(tail),
{
    reveal_strlit("git@github.com:");
    reveal_strlit("github.com/");
    let s1 = "github.com/"@ + tail;
    assert(!starts_with(s1, "git@github.com:"@)) by {
        if s1.len() >= 15 {
            assert(s1.take(15)[3] != "git@github.com:"@[3]);
        }
    }
    assert(s1.take(11) =~= "github.com/"@);
    assert(s1.skip(11) =~= tail);
}

/// The HTTPS remote `https://github.com/<owner>/<repo>.git` names the owner
/// `<owner>` and the repository `<repo>`, for any two names without a `/`.
pub proof fn lemma_origin_https(owner: Seq<char>, repo: Seq<char>)
    requires
        !owner.contains('/'),
        !repo.contains('/'),
    ensures
        origin_parts("https://github.com/"@ + owner.push('/') + repo + ".git"@) == Some(
            seq![owner, repo],
        ),
{
    let tail = owner.push('/') + repo + ".git"@;
    assert("https://github.com/"@ + owner.push('/') + repo + ".git"@ == "https://github.com/"@ + tail);
    reveal_strlit(".git");
    assert(tail.last() == 't');
    lemma_https_scheme(tail);
    lemma_web_path(tail);
    lemma_owner_repo_tail(owner, repo);
}

/// Where `/` occurs at most at one position, `://` occurs nowhere, and the
/// URL has no scheme to take off.
proof fn lemma_no_scheme(s: Seq<char>, k0: int)
    requires
        forall|k: int| 0 <= k < s.len() && s[k] == '/' ==> k == k0,
    ensures
        after_scheme(s) == s,
{
    reveal_strlit("://");
    assert forall|j: int| 0 <= j implies !occurs_at(s, "://"@, j) by {
        if occurs_at(s, "://"@, j) {
            assert(s.subrange(j, j + 3)[1] == s[j + 1]);
            assert(s.subrange(j, j + 3)[2] == s[j + 2]);
        }
    }
    lemma_find_none(s, "://"@);
}

/// The SSH remote `git@github.com:<owner>/<repo>.git` names the owner
/// `<owner>` and the repository `<repo>`, for any two names without a `/`.
pub proof fn lemma_origin_ssh(owner: Seq<char>, repo: Seq<char>)
    requires
        !owner.contains('/'),
        !repo.contains('/'),
    ensures
        origin_parts("git@github.com:"@ + owner.push('/') + repo + ".git"@) == Some(
            seq![owner, repo],
        ),
{
    reveal_strlit("git@github.com:");
    reveal_strlit(".git");
    let pre = "git@github.com:"@;
    let tail = owner.push('/') + repo + ".git"@;
    let u = pre + tail;
    assert("git@github.com:"@ + owner.push('/') + repo + ".git"@ == u);
    assert(u[0] == 'g');
    assert(u.last() == 't');
    lemma_trim_unchanged(u);
    let k0: int = (pre.len() + owner.len()) as int;
    assert forall|k: int| 0 <= k < u.len() && u[k] == '/' implies k == k0 by {
        if k < pre.len() {
            assert(u[k] == pre[k]);
        } else if k < k0 {
            assert(u[k] == owner[k - pre.len()]);
        } else if k > k0 && k < k0 + 1 + repo.len() {
            assert(u[k] == repo[k - k0 - 1]);
        } else if k > k0 {
            assert(u[k] == ".git"@[k - k0 - 1 - repo.len()]);
        }
    }
    lemma_no_scheme(u, k0);
    assert(u.take(pre.len() as int) =~= pre);
    assert(u.skip(pre.len() as int) =~= tail);
    lemma_owner_repo_tail(owner, repo);
}

/// Whatever follows `git@github.com:` is the GitHub path: the SSH form is
/// taken as it stands, whether or not it ends in `.git`.
pub proof fn lemma_ssh_path(tail: Seq<char>)
    ensures
        github_path("git@github.com:"@ + tail) == Some(tail),
{
    reveal_strlit("git@github.com:");
    let s = "git@github.com:"@ + tail;
    assert(s.take(15) =~= "git@github.com:"@);
    assert(s.skip(15) =~= tail);
}

/// The tail `owner/repo`, without `.git`, gives the owner and the repository.
proof fn lemma_owner_repo_bare(owner: Seq<char>, repo: Seq<char>)
    requires
        !owner.contains('/'),
        !repo.contains('/'),
        !ends_with(repo, ".git"@),
    ensures
        split(strip_git(owner.push('/') + repo), '/') == seq![owner, repo],
{
    reveal_strlit(".git");
    let p = owner.push('/') + repo;
    if ends_with(p, ".git"@) {
        let w = p.skip(p.len() - 4);
        if repo.len() >= 4 {
            assert(repo.skip(repo.len() - 4) =~= w);
        } else {
            let k = owner.len() - (p.len() - 4);
            assert(p[owner.len() as int] == '/');
            assert(w[k] == '/');
            assert(".git"@[k] != '/');
        }
    }
    assert(strip_git(p) == p);
    lemma_split_concat(owner, repo, '/');
    lemma_split_whole(owner, '/');
    lemma_split_whole(repo, '/');
    assert(seq![owner] + seq![repo] =~= seq![owner, repo]);
}

/// The SSH remote `git@github.com:<owner>/<repo>`, without `.git`, names the
/// owner `<owner>` and the repository `<repo>`, for any two names without a
/// `/` where the repository's name neither ends in `.git` nor in whitespace.
pub proof fn lemma_origin_ssh_bare(owner: Seq<char>, repo: Seq<char>)
    requires
        !owner.contains('/'),
        !repo.contains('/'),
        !ends_with(repo, ".git"@),
        repo.len() == 0 || !is_space(repo.last()),
    ensures
        origin_parts("git@github.com:"@ + owner.push('/') + repo) == Some(seq![owner, repo]),
{
    reveal_strlit("git@github.com:");
    let pre = "git@github.com:"@;
    let tail = owner.push('/') + repo;
    let u = pre + tail;
    assert("git@github.com:"@ + owner.push('/') + repo == u);
    assert(u[0] == 'g');
    if repo.len() > 0 {
        assert(u.last() == repo.last());
    } else {
        assert(u.last() == '/');
    }
    lemma_trim_unchanged(u);
    let k0: int = (pre.len() + owner.len()) as int;
    assert forall|k: int| 0 <= k < u.len() && u[k] == '/' implies k == k0 by {
        if k < pre.len() {
            assert(u[k] == pre[k]);
        } else if k < k0 {
            assert(u[k] == owner[k - pre.len()]);
        } else if k > k0 {
            assert(u[k] == repo[k - k0 - 1]);
        }
    }
    lemma_no_scheme(u, k0);
    lemma_ssh_path(tail);
    lemma_owner_repo_bare(owner, repo);
}

/// The HTTPS remote `https://github.com/<owner>/<repo>`, without `.git`,
/// names the owner `<owner>` and the repository `<repo>`, for any two names
/// without a `/` where the repository's name neither ends in `.git` nor in
/// whitespace.
pub proof fn lemma_origin_https_bare(owner: Seq<char>, repo: Seq<char>)
    requires
        !owner.contains('/'),
        !repo.contains('/'),
        !ends_with(repo, ".git"@),
        repo.len() == 0 || !is_space(repo.last()),
    ensures
        origin_parts("https://github.com/"@ + owner.push('/') + repo) == Some(seq![owner, repo]),
{
    let tail = owner.push('/') + repo;
    assert("https://github.com/"@ + owner.push('/') + repo == "https://github.com/"@ + tail);
    if repo.len() > 0 {
        assert(tail.last() == repo.last());
    } else {
        assert(tail.last() == '/');
    }
    lemma_https_scheme(tail);
    lemma_web_path(tail);
    lemma_owner_repo_bare(owner, repo);
}

// ---------------------------------------------------------------------------
// The date of a commit
// ---------------------------------------------------------------------------

/// A point in time as chrono's `DateTime<Utc>` holds it: whole seconds since
/// the Unix epoch, and the nanoseconds past that second.
#[derive(Clone, Copy, Debug, PartialEq, Eq, Structural)]
pub struct Timestamp {
    pub secs: i64,
    pub nanos: u32,
}

/// `a` is strictly later than `b` (the order of chrono's `DateTime`).
pub open spec fn later(a: Timestamp, b: Timestamp) -> bool {
    a.secs > b.secs || (a.secs == b.secs && a.nanos > b.nanos)
}

/// More whole seconds means later; with the same seconds, more nanoseconds
/// means later.
pub proof fn lemma_later_by_seconds(a: Timestamp, b: Timestamp)
    ensures
        a.secs > b.secs ==> later(a, b),
        a.secs < b.secs ==> !later(a, b),
        a.secs == b.secs ==> (later(a, b) <==> a.nanos > b.nanos),
{
}

/// `later` is a strict total order on points in time: never reflexive,
/// never both ways, transitive, and any two different points are ordered.
pub proof fn lemma_later_strict_total(a: Timestamp, b: Timestamp, c: Timestamp)
    ensures
        !later(a, a),
        later(a, b) ==> !later(b, a),
        later(a, b) && later(b, c) ==> later(a, c),
        a != b ==> (later(a, b) || later(b, a)),
{
}

impl Timestamp {
    /// Whether this point in time is strictly later than `other`.
    pub fn is_later_than(&self, other: &Timestamp) -> (r: bool)
        ensures
            r == later(*self, *other),
            self.secs > other.secs ==> r,
            self.secs < other.secs ==> !r,
            self.secs == other.secs ==> (r == (self.nanos > other.nanos)),
    {
        self.secs > other.secs || (self.secs == other.secs && self.nanos > other.nanos)
    }

    /// Whether this point in time is later than `other`, or the same.
    pub fn is_not_before(&self, other: &Timestamp) -> (r: bool)
        ensures
            r == !later(*other, *self),
    {
        !other.is_later_than(self)
    }
}

/// The date format of `git show -s --format=%ci`.
pub open spec fn commit_date_format() -> Seq<char> {
    "%Y-%m-%d %H:%M:%S %z"@
}

/// `c` is one of the digits `0` to `9`.
pub open spec fn is_digit(c: char) -> bool {
    48 <= (c as u32) <= 57
}

/// The value of the digit `c`.
pub open spec fn digit_value(c: char) -> int {
    (c as u32) - 48
}

/// The decimal number that the `n` characters of `s` from `i` on write.
pub open spec fn number_at(s: Seq<char>, i: int, n: nat) -> int
    decreases n,
{
    if n == 0 {
        0
    } else {
        number_at(s, i, (n - 1) as nat) * 10 + digit_value(s[i + n - 1])
    }
}

/// `10` to the power `n`.
pub open spec fn pow10(n: nat) -> int
    decreases n,
{
    if n == 0 {
        1
    } else {
        pow10((n - 1) as nat) * 10
    }
}

/// `s` has the shape `YYYY-MM-DD hh:mm:ss ±HHMM` of `git show --format=%ci`,
/// with the seconds and the offset's minutes below 60.
pub open spec fn canonical_date(s: Seq<char>) -> bool {
    &&& s.len() == 25
    &&& forall|i: int|
        0 <= i < 25 && i != 4 && i != 7 && i != 10 && i != 13 && i != 16 && i != 19 && i != 20
            ==> is_digit(#[trigger] s[i])
    &&& s[4] == '-' && s[7] == '-' && s[10] == ' ' && s[13] == ':' && s[16] == ':' && s[19] == ' '
    &&& s[20] == '+' || s[20] == '-'
    &&& number_at(s, 17, 2) <= 59
    &&& number_at(s, 23, 2) <= 59
}

/// The offset from UTC, in seconds, that the `±HHMM` of such a text writes:
/// east of Greenwich (`+`) positive, west (`-`) negative.
pub open spec fn offset_seconds(s: Seq<char>) -> int {
    let size = number_at(s, 21, 2) * 3600 + number_at(s, 23, 2) * 60;
    if s[20] == '-' {
        -size
    } else {
        size
    }
}

/// The seconds from the epoch to the text's wall-clock date and time, as if
/// they were UTC.
pub open spec fn wall_clock_seconds(s: Seq<char>) -> int {
    seconds_from_civil(
        number_at(s, 0, 4),
        number_at(s, 5, 2),
        number_at(s, 8, 2),
        number_at(s, 11, 2),
        number_at(s, 14, 2),
        number_at(s, 17, 2),
    )
}

/// The seconds from the epoch to the instant that the text names: its wall
/// clock less its offset from UTC.
pub open spec fn date_text_seconds(s: Seq<char>) -> int {
    wall_clock_seconds(s) - offset_seconds(s)
}

/// The text names a real instant: a calendar date, an hour below 24, a
/// minute below 60, and an offset of less than a day.
pub open spec fn names_instant(s: Seq<char>) -> bool {
    &&& canonical_date(s)
    &&& valid_date(number_at(s, 0, 4), number_at(s, 5, 2), number_at(s, 8, 2))
    &&& number_at(s, 11, 2) <= 23
    &&& number_at(s, 14, 2) <= 59
    &&& number_at(s, 21, 2) <= 23
}

/// The fields that such a text writes: year, month, day, hour, minute,
/// second, nanoseconds (none) and offset in seconds.
pub open spec fn canonical_fields(s: Seq<char>) -> (i32, u32, u32, u32, u32, u32, u32, i32) {
    (
        number_at(s, 0, 4) as i32,
        number_at(s, 5, 2) as u32,
        number_at(s, 8, 2) as u32,
        number_at(s, 11, 2) as u32,
        number_at(s, 14, 2) as u32,
        number_at(s, 17, 2) as u32,
        0u32,
        offset_seconds(s) as i32,
    )
}

/// The seconds from the epoch to the instant that parsed fields name.
pub open spec fn fields_seconds(f: (i32, u32, u32, u32, u32, u32, u32, i32)) -> int {
    seconds_from_civil(f.0 as int, f.1 as int, f.2 as int, f.3 as int, f.4 as int, f.5 as int)
        - f.7
}

/// A number of `n` digits lies between 0 and `10^n - 1`.
proof fn lemma_number_bounds(s: Seq<char>, i: int, n: nat)
    requires
        forall|k: int| i <= k < i + n ==> is_digit(#[trigger] s[k]),
    ensures
        0 <= number_at(s, i, n) < pow10(n),
    decreases n,
{
    if n > 0 {
        lemma_number_bounds(s, i, (n - 1) as nat);
        assert(is_digit(s[i + n - 1]));
    }
}

/// The fields of a text of the `%ci` shape, each within its type.
proof fn lemma_canonical_fields(s: Seq<char>)
    requires
        canonical_date(s),
    ensures
        fields_seconds(canonical_fields(s)) == date_text_seconds(s),
        canonical_fields(s).6 == 0,
{
    assert(pow10(2) == 100 && pow10(4) == 10000) by {
        reveal_with_fuel(pow10, 5);
    }
    lemma_number_bounds(s, 0, 4);
    lemma_number_bounds(s, 5, 2);
    lemma_number_bounds(s, 8, 2);
    lemma_number_bounds(s, 11, 2);
    lemma_number_bounds(s, 14, 2);
    lemma_number_bounds(s, 17, 2);
    lemma_number_bounds(s, 21, 2);
    lemma_number_bounds(s, 23, 2);
}

/// The instant that a `%ci` text names lies its offset before its wall
/// clock read as UTC: `+HHMM` (east) takes `HH` hours and `MM` minutes off,
/// `-HHMM` (west) adds them, and `+0000` leaves the wall clock as it is.
pub proof fn lemma_offset_direction(s: Seq<char>)
    requires
        canonical_date(s),
    ensures
        s[20] == '+' ==> date_text_seconds(s) == wall_clock_seconds(s) - (number_at(s, 21, 2)
            * 3600 + number_at(s, 23, 2) * 60),
        s[20] == '-' ==> date_text_seconds(s) == wall_clock_seconds(s) + (number_at(s, 21, 2)
            * 3600 + number_at(s, 23, 2) * 60),
        number_at(s, 21, 2) == 0 && number_at(s, 23, 2) == 0 ==> date_text_seconds(s)
            == wall_clock_seconds(s),
{
}

/// Two `%ci` texts of the same wall clock, one `+HHMM` and one `-HHMM`, name
/// instants twice the offset apart, the western one later.
pub proof fn lemma_offset_sign(s: Seq<char>, t: Seq<char>)
    requires
        canonical_date(s),
        canonical_date(t),
        forall|i: int| 0 <= i < 25 && i != 20 ==> s[i] == t[i],
        s[20] == '+',
        t[20] == '-',
    ensures
        date_text_seconds(t) == date_text_seconds(s) + 2 * (number_at(s, 21, 2) * 3600
            + number_at(s, 23, 2) * 60),
{
    assert(s.subrange(0, 20) =~= t.subrange(0, 20));
    assert forall|i: int, n: nat| 0 <= i && i + n <= 20 implies number_at(s, i, n)
        == number_at(t, i, n) by {
        lemma_number_same(s, t, i, n);
    }
    assert forall|n: nat| n <= 4 implies number_at(s, 21, n) == number_at(t, 21, n) by {
        lemma_number_same(s, t, 21, n);
    }
    assert forall|n: nat| n <= 2 implies number_at(s, 23, n) == number_at(t, 23, n) by {
        lemma_number_same(s, t, 23, n);
    }
}

/// Numbers written by the same characters are the same.
proof fn lemma_number_same(s: Seq<char>, t: Seq<char>, i: int, n: nat)
    requires
        forall|k: int| i <= k < i + n ==> s[k] == t[k],
    ensures
        number_at(s, i, n) == number_at(t, i, n),
    decreases n,
{
    if n > 0 {
        lemma_number_same(s, t, i, (n - 1) as nat);
        assert(s[i + n - 1] == t[i + n - 1]);
    }
}

/// What `chrono::DateTime::parse_from_str(s, fmt)` gives, as the fields of
/// the date and time where it was recorded: year, month, day, hour, minute,
/// second, nanoseconds, and the offset from UTC in seconds; none where it
/// fails.
pub uninterp spec fn parsed_datetime(s: Seq<char>, fmt: Seq<char>) -> Option<
    (i32, u32, u32, u32, u32, u32, u32, i32),
>;

/// Calls `chrono::DateTime::parse_from_str(s, fmt)` and hands back the
/// parsed date's `year()`, `month()`, `day()`, `hour()`, `minute()`,
/// `second()`, `nanosecond()` (all read in its own offset) and
/// `offset().local_minus_utc()`. Claimed: the result depends on the two
/// arguments alone (`parsed_datetime`); with the format `%Y-%m-%d %H:%M:%S %z`,
/// a text of the shape `YYYY-MM-DD hh:mm:ss ±HHMM` parses, where it does, to
/// the numbers that it writes, with the offset `±(HH * 3600 + MM * 60)`; and it
/// does parse where it names a real instant. Not claimed: which other texts
/// parse, and to what.
#[verifier::external_body]
fn parse_datetime(s: &str, fmt: &str) -> (r: Option<(i32, u32, u32, u32, u32, u32, u32, i32)>)
    ensures
        r == parsed_datetime(s@, fmt@),
        fmt@ == commit_date_format() && canonical_date(s@) ==> (r matches Some(f) ==> f
            == canonical_fields(s@)),
        fmt@ == commit_date_format() && names_instant(s@) ==> r is Some,
{
    match chrono::DateTime::parse_from_str(s, fmt) {
        Ok(d) => Some(
            (
                chrono::Datelike::year(&d),
                chrono::Datelike::month(&d),
                chrono::Datelike::day(&d),
                chrono::Timelike::hour(&d),
                chrono::Timelike::minute(&d),
                chrono::Timelike::second(&d),
                chrono::Timelike::nanosecond(&d),
                d.offset().local_minus_utc(),
            ),
        ),
        Err(_) => None,
    }
}

/// The date that the local commit is taken to have, given the date that
/// GitHub gave for it (`None` where asking GitHub failed) and the output of
/// `git show -s --format=%ci`: GitHub's date where there is one, else the
/// local record parsed and taken to UTC; `None` where that does not parse.
pub fn local_commit_date(from_github: Option<Timestamp>, git_show_output: &str) -> (r: Option<
    Timestamp,
>)
    ensures
        from_github matches Some(t) ==> r == Some(t),
        from_github is None ==> match parsed_datetime(
            trim(git_show_output@),
            commit_date_format(),
        ) {
            Some(f) => r matches Some(t) && t.secs == fields_seconds(f) && t.nanos == f.6,
            None => r is None,
        },
        from_github is None && canonical_date(trim(git_show_output@)) ==> (r matches Some(t)
            ==> t.secs == date_text_seconds(trim(git_show_output@)) && t.nanos == 0),
        from_github is None && names_instant(trim(git_show_output@)) ==> r is Some,
{
    match from_github {
        Some(t) => Some(t),
        None => {
            let raw = chars_of(git_show_output);
            let trimmed = string_of(&trim_chars(&raw));
            proof {
                reveal_strlit("%Y-%m-%d %H:%M:%S %z");
                if canonical_date(trimmed@) {
                    lemma_canonical_fields(trimmed@);
                }
            }
            match parse_datetime(trimmed.as_str(), "%Y-%m-%d %H:%M:%S %z") {
                Some(f) => {
                    let secs = seconds_from_civil_exec(f.0, f.1, f.2, f.3, f.4, f.5, f.7);
                    Some(Timestamp { secs, nanos: f.6 })
                },
                None => None,
            }
        },
    }
}

} // verus!
