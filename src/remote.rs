use vstd::prelude::*;

use vstd::string::*;

verus! {

/// The pattern of a line of `git remote -v`: a name, a URL and whether the remote
/// is used to fetch or to push.
pub const REMOTE_LINE_PATTERN: &'static str = r"(.+)\s+(.+)\s+\((push|fetch)\)";

/// The base of the issue endpoint of the remote tracker's API.
pub const API_REPOS: &'static str = "https://api.github.com/repos/";

/// The text of capture group `group` of the first match of `pattern` in `text`;
/// `None` where the pattern is invalid, nothing matches or the group took no part.
pub uninterp spec fn regex_capture_of(pattern: Seq<char>, text: Seq<char>, group: int) -> Option<
    Seq<char>,
>;

/// The path of the URL that `s` parses to; `None` where `s` is no URL.
pub uninterp spec fn url_path_of(s: Seq<char>) -> Option<Seq<char>>;

/// Relies on regex::Regex::new and Regex::captures: the first leftmost match of
/// the pattern in the text, and the text of one of its groups.
#[verifier::external_body]
fn regex_capture(pattern: &str, text: &str, group: usize) -> (r: Option<String>)
    ensures
        match r {
            Some(s) => regex_capture_of(pattern@, text@, group as int) == Some(s@),
            None => regex_capture_of(pattern@, text@, group as int) is None,
        },
{
    let re = match regex::Regex::new(pattern) {
        Ok(re) => re,
        Err(_) => return None,
    };
    re.captures(text).and_then(|c| c.get(group)).map(|m| m.as_str().to_string())
}

/// Relies on url::Url::parse and Url::path: the path of a parsed URL.
#[verifier::external_body]
fn url_path(s: &str) -> (r: Option<String>)
    ensures
        match r {
            Some(p) => url_path_of(s@) == Some(p@),
            None => url_path_of(s@) is None,
        },
{
    match url::Url::parse(s) {
        Ok(u) => Some(u.path().to_string()),
        Err(_) => None,
    }
}

/// The pieces of `s` between occurrences of `sep`: one more than there are
/// separators, empty pieces included.
pub open spec fn split_on(s: Seq<char>, sep: char) -> Seq<Seq<char>>
    decreases s.len(),
{
    if s.len() == 0 {
        seq![Seq::empty()]
    } else {
        let rest = split_on(s.drop_last(), sep);
        if s.last() == sep {
            rest.push(Seq::empty())
        } else {
            rest.update(rest.len() - 1, rest.last().push(s.last()))
        }
    }
}

proof fn lemma_split_on_nonempty(s: Seq<char>, sep: char)
    ensures
        split_on(s, sep).len() >= 1,
    decreases s.len(),
{
    if s.len() > 0 {
        lemma_split_on_nonempty(s.drop_last(), sep);
    }
}

/// `s` with every trailing copy of `suffix` removed.
pub open spec fn trim_end_all(s: Seq<char>, suffix: Seq<char>) -> Seq<char>
    decreases s.len(),
{
    if suffix.len() > 0 && s.len() >= suffix.len() && s.subrange(
        s.len() - suffix.len(),
        s.len() as int,
    ) == suffix {
        trim_end_all(s.subrange(0, s.len() - suffix.len()), suffix)
    } else {
        s
    }
}

/// A repository on the remote tracker.
#[derive(Debug)]
pub struct RepoCoords {
    pub owner: String,
    pub name: String,
}

/// The owner and name in a URL path `/owner/name.git`: its second and third
/// pieces between slashes, the name without trailing `.git`.
pub open spec fn git_path_coords(path: Seq<char>) -> Option<(Seq<char>, Seq<char>)> {
    let pieces = split_on(path, '/');
    if pieces.len() >= 3 {
        Some((pieces[1], trim_end_all(pieces[2], ".git"@)))
    } else {
        None
    }
}

/// The URL of the issue list of `owner/name`.
pub open spec fn issues_url_of(owner: Seq<char>, name: Seq<char>) -> Seq<char> {
    API_REPOS@ + owner + "/"@ + name + "/issues"@
}

/// Whether the output of `git remote -v` reports no remote: it is empty, or an
/// error of git.
pub open spec fn no_remote(output: Seq<char>) -> bool {
    output.len() == 0 || (output.len() >= 5 && output.subrange(0, 5) == "fatal"@)
}

/// The repository that the first line of `git remote -v` names, where the line
/// matches, its URL parses and the URL's path names an owner and a repository.
pub open spec fn remote_coords(output: Seq<char>) -> Option<(Seq<char>, Seq<char>)> {
    if no_remote(output) {
        None
    } else {
        match regex_capture_of(REMOTE_LINE_PATTERN@, split_on(output, '\n')[0], 2) {
            Some(url) => match url_path_of(url) {
                Some(path) => git_path_coords(path),
                None => None,
            },
            None => None,
        }
    }
}

/// A copy of the characters `from..to` of `s`.
fn substring(s: &str, from: usize, to: usize) -> (r: String)
    requires
        from <= to <= s@.len(),
    ensures
        r@ == s@.subrange(from as int, to as int),
{
    let mut r = String::new();
    let mut i = from;
    while i < to
        invariant
            from <= i <= to <= s@.len(),
            r@ == s@.subrange(from as int, i as int),
        decreases to - i,
    {
        r.push(s.get_char(i));
        assert(s@.subrange(from as int, i + 1) == s@.subrange(from as int, i as int).push(s@[i as int]));
        i = i + 1;
    }
    r
}

/// The pieces of `input` between line breaks.
pub fn get_lines(input: &str) -> (r: Vec<String>)
    ensures
        r@.map_values(|l: String| l@) == split_on(input@, '\n'),
{
    split_by(input, '\n')
}

/// The pieces of `input` between occurrences of `sep`.
fn split_by(input: &str, sep: char) -> (r: Vec<String>)
    ensures
        r@.map_values(|l: String| l@) == split_on(input@, sep),
{
    let n = input.unicode_len();
    let mut pieces: Vec<String> = Vec::new();
    let mut current = String::new();
    let mut i: usize = 0;
    while i < n
        invariant
            n == input@.len(),
            0 <= i <= n,
            pieces@.map_values(|l: String| l@).push(current@) == split_on(input@.take(i as int), sep),
        decreases n - i,
    {
        let c = input.get_char(i);
        let ghost before = input@.take(i as int);
        assert(input@.take(i + 1).drop_last() == before);
        proof {
            lemma_split_on_nonempty(before, sep);
        }
        if c == sep {
            let piece = current;
            pieces.push(piece);
            current = String::new();
            assert(pieces@.map_values(|l: String| l@) =~= split_on(before, sep));
        } else {
            current.push(c);
            assert(pieces@.map_values(|l: String| l@).push(current@) =~= split_on(before, sep).update(
                split_on(before, sep).len() - 1,
                split_on(before, sep).last().push(c),
            ));
        }
        i = i + 1;
    }
    assert(input@.take(n as int) == input@);
    pieces.push(current);
    pieces
}

/// `s` with every trailing copy of `suffix` removed.
fn trim_end_matches(s: &str, suffix: &str) -> (r: String)
    ensures
        r@ == trim_end_all(s@, suffix@),
{
    let n = s.unicode_len();
    let k = suffix.unicode_len();
    let mut end = n;
    assert(s@.subrange(0, n as int) == s@);
    while k > 0 && end >= k && ends_with_at(s, suffix, end)
        invariant
            n == s@.len(),
            k == suffix@.len(),
            end <= n,
            trim_end_all(s@.subrange(0, end as int), suffix@) == trim_end_all(s@, suffix@),
        decreases end,
    {
        assert(s@.subrange(0, end as int).subrange(end - k, end as int) == s@.subrange(
            end - k,
            end as int,
        ));
        assert(s@.subrange(0, end as int).subrange(0, end - k) == s@.subrange(0, end - k));
        end = end - k;
    }
    proof {
        if k > 0 && end >= k {
            assert(s@.subrange(0, end as int).subrange(end - k, end as int) == s@.subrange(
                end - k,
                end as int,
            ));
        }
    }
    substring(s, 0, end)
}

/// Whether the characters of `s` just before `end` are `suffix`.
fn ends_with_at(s: &str, suffix: &str, end: usize) -> (r: bool)
    requires
        suffix@.len() <= end <= s@.len(),
    ensures
        r == (s@.subrange(end - suffix@.len(), end as int) == suffix@),
{
    let k = suffix.unicode_len();
    let start = end - k;
    let mut j: usize = 0;
    while j < k
        invariant
            k == suffix@.len(),
            start + k == end <= s@.len(),
            0 <= j <= k,
            forall|m: int| 0 <= m < j ==> s@[start + m] == suffix@[m],
        decreases k - j,
    {
        if s.get_char(start + j) != suffix.get_char(j) {
            assert(s@.subrange(start as int, end as int)[j as int] != suffix@[j as int]);
            return false;
        }
        j = j + 1;
    }
    assert(s@.subrange(start as int, end as int) =~= suffix@);
    true
}

/// The owner and name of a repository from the path of its URL,
/// `/owner/name.git`; `None` where the path has fewer than three pieces.
pub fn parse_git_url(url: &str) -> (r: Option<RepoCoords>)
    ensures
        match r {
            Some(c) => git_path_coords(url@) == Some((c.owner@, c.name@)),
            None => git_path_coords(url@) is None,
        },
{
    let repo_info = split_by(url, '/');
    if repo_info.len() < 3 {
        return None;
    }
    proof {
        assert(repo_info@.map_values(|l: String| l@)[1] == repo_info@[1]@);
        assert(repo_info@.map_values(|l: String| l@)[2] == repo_info@[2]@);
        reveal_strlit(".git");
    }
    let owner = repo_info[1].clone();
    let name = trim_end_matches(repo_info[2].as_str(), ".git");
    Some(RepoCoords { owner, name })
}

/// The repository whose issues to fetch, from the output of `git remote -v`:
/// the URL of its first line, where git reports a remote, the line matches,
/// the URL parses and its path names an owner and a repository.
pub fn repo_from_remotes(output: &str) -> (r: Option<RepoCoords>)
    ensures
        match r {
            Some(c) => remote_coords(output@) == Some((c.owner@, c.name@)),
            None => remote_coords(output@) is None,
        },
{
    if starts_with_fatal_or_empty(output) {
        return None;
    }
    let remotes = get_lines(output);
    proof {
        lemma_split_on_nonempty(output@, '\n');
        assert(remotes@.map_values(|l: String| l@)[0] == remotes@[0]@);
    }
    let fetch_remote = remotes[0].as_str();
    match regex_capture(REMOTE_LINE_PATTERN, fetch_remote, 2) {
        Some(url) => match url_path(url.as_str()) {
            Some(path) => parse_git_url(path.as_str()),
            None => None,
        },
        None => None,
    }
}

fn starts_with_fatal_or_empty(output: &str) -> (r: bool)
    ensures
        r == no_remote(output@),
{
    let n = output.unicode_len();
    if n == 0 {
        return true;
    }
    if n < 5 {
        return false;
    }
    let head = substring(output, 0, 5);
    proof {
        reveal_strlit("fatal");
    }
    let fatal = "fatal".to_string();
    head == fatal
}

impl RepoCoords {
    /// The URL of the repository's issue list.
    pub fn issues_url(&self) -> (r: String)
        ensures
            r@ == issues_url_of(self.owner@, self.name@),
    {
        let mut r = API_REPOS.to_string();
        r.append(self.owner.as_str());
        r.append("/");
        r.append(self.name.as_str());
        r.append("/issues");
        r
    }
}

} // verus!
