//! The GitHub side of a repository: its owner and name, the fork to push to, and
//! the addresses and fields of the REST calls.
use vstd::prelude::*;

use git_url_parse::GitUrl;

use crate::text::{chars_of, contains_text, texts};

verus! {

/// What `GitUrl::parse` finds in a remote URL: owner (when there is one) and
/// repository name; `None` when the URL cannot be parsed.
pub uninterp spec fn parsed_git_url(url: Seq<char>) -> Option<(Option<Seq<char>>, Seq<char>)>;

pub open spec fn parse_view(r: Option<(Option<String>, String)>) -> Option<(Option<Seq<char>>, Seq<char>)> {
    match r {
        Some((Some(o), n)) => Some((Some(o@), n@)),
        Some((None, n)) => Some((None, n@)),
        None => None,
    }
}

/// The code of `c` with ASCII upper case taken to lower case.
pub open spec fn ascii_lower(c: char) -> u32 {
    if 65 <= (c as u32) <= 90 {
        ((c as u32) + 32) as u32
    } else {
        c as u32
    }
}

/// The codes of `azure`.
pub open spec fn azure_codes() -> Seq<u32> {
    seq![97u32, 122u32, 117u32, 114u32, 101u32]
}

/// The printable ASCII characters other than `%`, `?` and `#`.
pub open spec fn plain_url_char(c: char) -> bool {
    0x21 <= (c as u32) <= 0x7e && c != '%' && c != '?' && c != '#'
}

/// `azure`, in any ASCII case, starts at `i`.
pub open spec fn azure_at(s: Seq<char>, i: int) -> bool {
    &&& 0 <= i
    &&& i + 5 <= s.len()
    &&& forall|k: int| 0 <= k < 5 ==> ascii_lower(#[trigger] s[i + k]) == azure_codes()[k]
}

/// `ssh:`, in any ASCII case, begins the text.
pub open spec fn ssh_scheme(s: Seq<char>) -> bool {
    s.len() >= 4 && ascii_lower(s[0]) == 115 && ascii_lower(s[1]) == 115 && ascii_lower(s[2]) == 104
        && s[3] == ':'
}

/// Remote URLs that `GitUrl::parse` handles without panicking. It indexes the
/// path of an Azure DevOps URL at fixed positions, and slices the first character
/// off an `ssh` path, which panics when that path comes down to `/` (through a
/// query, a fragment, a dot segment, an escape) or is a bare `ssh:` path. So: only
/// printable ASCII, no `%`, `?` or `#`, no `azure`, no `.` right after `/` or `:`,
/// and `ssh:` only as `ssh://`.
pub open spec fn parse_safe_url(s: Seq<char>) -> bool {
    &&& forall|i: int| 0 <= i < s.len() ==> plain_url_char(#[trigger] s[i])
    &&& forall|i: int| 0 <= i < s.len() ==> !azure_at(s, i)
    &&& forall|i: int| 0 < i < s.len() && #[trigger] s[i] == '.' ==> s[i - 1] != '/' && s[i - 1] != ':'
    &&& ssh_scheme(s) ==> s.len() >= 6 && s[4] == '/' && s[5] == '/'
}

/// What the library reads of a remote URL: `GitUrl::parse`'s owner and name for a
/// URL it handles safely, and nothing for any other.
pub open spec fn checked_git_url(s: Seq<char>) -> Option<(Option<Seq<char>>, Seq<char>)> {
    if parse_safe_url(s) {
        parsed_git_url(s)
    } else {
        None
    }
}

fn ascii_lower_exec(c: char) -> (r: u32)
    ensures
        r == ascii_lower(c),
{
    let u = c as u32;
    if 65 <= u && u <= 90 {
        u + 32
    } else {
        u
    }
}

/// Whether `url` is one that `GitUrl::parse` handles without panicking.
pub fn is_parse_safe_url(url: &str) -> (r: bool)
    ensures
        r == parse_safe_url(url@),
{
    let s = chars_of(url);
    let n = s.len();
    let azure: Vec<u32> = vec![97, 122, 117, 114, 101];
    assert(azure@ == azure_codes());
    let mut i: usize = 0;
    while i < n
        invariant
            s@ == url@,
            n == s@.len(),
            i <= n,
            azure@ == azure_codes(),
            forall|j: int| 0 <= j < i ==> plain_url_char(#[trigger] s@[j]),
            forall|j: int| 0 <= j < i ==> !azure_at(s@, j),
            forall|j: int| 0 < j < i && #[trigger] s@[j] == '.' ==> s@[j - 1] != '/' && s@[j - 1] != ':',
        decreases n - i,
    {
        let c = s[i];
        let u = c as u32;
        if !(0x21 <= u && u <= 0x7e && c != '%' && c != '?' && c != '#') {
            return false;
        }
        if i > 0 && c == '.' && (s[i - 1] == '/' || s[i - 1] == ':') {
            return false;
        }
        if n - i >= 5 {
            let mut matched = true;
            let mut k: usize = 0;
            while k < 5
                invariant
                    i + 5 <= n,
                    n == s@.len(),
                    k <= 5,
                    azure@ == azure_codes(),
                    matched <==> forall|m: int| 0 <= m < k ==> ascii_lower(#[trigger] s@[i + m]) == azure@[m],
                decreases 5 - k,
            {
                if ascii_lower_exec(s[i + k]) != azure[k] {
                    matched = false;
                }
                k = k + 1;
            }
            if matched {
                assert(azure_at(s@, i as int));
                assert(!parse_safe_url(url@));
                return false;
            }
        }
        i = i + 1;
    }
    if n >= 4 && ascii_lower_exec(s[0]) == 115 && ascii_lower_exec(s[1]) == 115 && ascii_lower_exec(
        s[2],
    ) == 104 && s[3] == ':' {
        return n >= 6 && s[4] == '/' && s[5] == '/';
    }
    true
}

/// Relies on `git_url_parse::GitUrl::parse`: owner and name of a remote URL. It
/// does not panic on the URLs of [`parse_safe_url`].
#[verifier::external_body]
fn parse_git_url(url: &str) -> (r: Option<(Option<String>, String)>)
    requires
        parse_safe_url(url@),
    ensures
        parse_view(r) == parsed_git_url(url@),
{
    GitUrl::parse(url).ok().map(|u| (u.owner, u.name))
}

/// The remote to push to: `fork` when there is one, else `origin`.
pub open spec fn user_remote(remotes: Seq<Seq<char>>) -> Option<Seq<char>> {
    if remotes.contains("fork"@) {
        Some("fork"@)
    } else if remotes.contains("origin"@) {
        Some("origin"@)
    } else {
        None
    }
}

/// Choose the remote to push to among the repository's remotes.
pub fn get_user_remote(remotes: &Vec<String>) -> (r: Option<String>)
    ensures
        match user_remote(texts(remotes@)) {
            Some(name) => r matches Some(s) && s@ == name,
            None => r is None,
        },
{
    if contains_text(remotes, "fork") {
        Some(String::from_str("fork"))
    } else if contains_text(remotes, "origin") {
        Some(String::from_str("origin"))
    } else {
        None
    }
}

/// Where a repository lives on GitHub, and where to push.
pub struct GithubRepositoryMetadata {
    pub owner: String,
    pub forker: String,
    pub remote: String,
    pub name: String,
}

/// Why the repository's GitHub coordinates could not be found.
#[derive(Debug, PartialEq, Eq, Structural)]
pub enum TryDefaultError {
    /// Neither a `fork` nor an `origin` remote.
    AmbiguousGitRemote,
    /// A remote URL could not be parsed.
    ParseGitUrl,
    /// A remote URL names no owner.
    MissingOwner,
}

impl TryDefaultError {
    /// What went wrong, in words.
    pub fn to_string(&self) -> (r: String)
        ensures
            r@ == match self {
                TryDefaultError::AmbiguousGitRemote =>
                    "unable to choose a git remote to push to, expected to find a remote named 'fork' or 'origin'"@,
                TryDefaultError::ParseGitUrl => "unable to parse git remote"@,
                TryDefaultError::MissingOwner => "git remote names no owner"@,
            },
    {
        match self {
            TryDefaultError::AmbiguousGitRemote => String::from_str(
                "unable to choose a git remote to push to, expected to find a remote named 'fork' or 'origin'",
            ),
            TryDefaultError::ParseGitUrl => String::from_str("unable to parse git remote"),
            TryDefaultError::MissingOwner => String::from_str("git remote names no owner"),
        }
    }
}

impl GithubRepositoryMetadata {
    /// The coordinates from the remotes: owner and name from `origin`'s URL, the
    /// remote to push to from [`get_user_remote`], and the fork's owner from that
    /// remote's URL.
    pub fn from_remotes(
        remotes: &Vec<String>,
        origin_url: &str,
        remote_url: &str,
    ) -> (r: Result<GithubRepositoryMetadata, TryDefaultError>)
        ensures
            match (checked_git_url(origin_url@), user_remote(texts(remotes@))) {
                (None, _) => r == Err::<GithubRepositoryMetadata, TryDefaultError>(TryDefaultError::ParseGitUrl),
                (Some((None, _)), _) => r == Err::<GithubRepositoryMetadata, TryDefaultError>(TryDefaultError::MissingOwner),
                (Some((Some(_), _)), None) => r == Err::<GithubRepositoryMetadata, TryDefaultError>(TryDefaultError::AmbiguousGitRemote),
                (Some((Some(owner), name)), Some(remote)) => match checked_git_url(remote_url@) {
                    None => r == Err::<GithubRepositoryMetadata, TryDefaultError>(TryDefaultError::ParseGitUrl),
                    Some((None, _)) => r == Err::<GithubRepositoryMetadata, TryDefaultError>(TryDefaultError::MissingOwner),
                    Some((Some(forker), _)) => r matches Ok(m) && m.owner@ == owner && m.name@ == name
                        && m.remote@ == remote && m.forker@ == forker,
                },
            },
    {
        if !is_parse_safe_url(origin_url) {
            return Err(TryDefaultError::ParseGitUrl);
        }
        let origin = match parse_git_url(origin_url) {
            Some(u) => u,
            None => {
                return Err(TryDefaultError::ParseGitUrl);
            },
        };
        let (owner, name) = match origin {
            (Some(o), n) => (o, n),
            (None, _) => {
                return Err(TryDefaultError::MissingOwner);
            },
        };
        let remote = match get_user_remote(remotes) {
            Some(r) => r,
            None => {
                return Err(TryDefaultError::AmbiguousGitRemote);
            },
        };
        if !is_parse_safe_url(remote_url) {
            return Err(TryDefaultError::ParseGitUrl);
        }
        let forker = match parse_git_url(remote_url) {
            Some((Some(o), _)) => o,
            Some((None, _)) => {
                return Err(TryDefaultError::MissingOwner);
            },
            None => {
                return Err(TryDefaultError::ParseGitUrl);
            },
        };
        Ok(GithubRepositoryMetadata { owner, forker, remote, name })
    }

    /// `https://api.github.com/repos/<owner>/<name>`: the repository, whose default
    /// branch the base defaults to.
    pub fn repository_url(&self) -> (r: String)
        ensures
            r@ == "https://api.github.com/repos/"@ + self.owner@ + "/"@ + self.name@,
    {
        String::from_str("https://api.github.com/repos/").concat(self.owner.as_str()).concat(
            "/",
        ).concat(self.name.as_str())
    }

    /// `https://api.github.com/repos/<owner>/<name>/pulls`: where pull requests are created.
    pub fn pulls_url(&self) -> (r: String)
        ensures
            r@ == "https://api.github.com/repos/"@ + self.owner@ + "/"@ + self.name@ + "/pulls"@,
    {
        self.repository_url().concat("/pulls")
    }

    /// `<forker>:<branch>`: the head of a pull request from the fork.
    pub fn head(&self, branch: &str) -> (r: String)
        ensures
            r@ == self.forker@ + ":"@ + branch@,
    {
        String::from_str(self.forker.as_str()).concat(":").concat(branch)
    }
}

/// `origin/<base>`: the ref the base commit is read from.
pub fn base_ref(base: &str) -> (r: String)
    ensures
        r@ == "origin/"@ + base@,
{
    String::from_str("origin/").concat(base)
}

} // verus!
