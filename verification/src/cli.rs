//! Command-line surface: the values the arguments parse into, and the rules
//! that relate them. Nothing here touches the network or the filesystem.

use vstd::prelude::*;

use crate::number::{parse_u64, parse_u64_chars};
use crate::split::{
    contains_char, lemma_split_len, nonempty, segments, split, split_any,
    split_chars, split_once, split_once_chars, views,
};
use crate::text::{
    chars_of, debug_repr, eq_chars, message_with_debug, opt_view, result_view, slice_chars,
    string_of, strip_trailing, strip_trailing_chars, trim, trimmed,
};

verus! {

/// Which review threads to include, by resolution state.
#[derive(Debug, Clone, Copy, PartialEq, Eq, Structural)]
pub enum StatusFilter {
    /// Threads nobody has marked resolved.
    Open,
    /// Threads someone has marked resolved.
    Resolved,
    /// Both.
    All,
}

/// Which review threads to include, by whether later commits moved the lines.
///
/// Independent of [`StatusFilter`]: every combination of the two is a
/// meaningful query.
#[derive(Debug, Clone, Copy, PartialEq, Eq, Structural)]
pub enum OutdatedFilter {
    /// Outdated and current threads alike.
    Include,
    /// Drop threads GitHub marks outdated.
    Hide,
    /// Keep only threads GitHub marks outdated.
    Only,
}

/// Where the rendered digest goes.
#[derive(Debug, Clone, PartialEq, Eq)]
pub enum OutputTarget {
    Stdout,
    /// A file, by its path.
    File(String),
}

/// The view of an [`OutputTarget`].
pub enum OutputTargetView {
    Stdout,
    File(Seq<char>),
}

impl View for OutputTarget {
    type V = OutputTargetView;

    open spec fn view(&self) -> OutputTargetView {
        match self {
            OutputTarget::Stdout => OutputTargetView::Stdout,
            OutputTarget::File(p) => OutputTargetView::File(p@),
        }
    }
}

/// What `-o <arg>` means: `-` is stdout, anything else non-empty is a path.
pub open spec fn spec_output_target(s: Seq<char>) -> Result<OutputTargetView, Seq<char>> {
    if s == seq!['-'] {
        Ok(OutputTargetView::Stdout)
    } else if s.len() == 0 {
        Err("output path is empty"@)
    } else {
        Ok(OutputTargetView::File(s))
    }
}

impl OutputTarget {
    /// Parses the argument of `-o`.
    pub fn parse(s: &str) -> (r: Result<OutputTarget, String>)
        ensures
            result_view(r) == spec_output_target(s@),
    {
        let v = chars_of(s);
        if v.len() == 1 && v[0] == '-' {
            assert(v@ =~= seq!['-']);
            Ok(OutputTarget::Stdout)
        } else if v.len() == 0 {
            Err(string_of(chars_of("output path is empty").as_slice()))
        } else {
            assert(v@ != seq!['-']);
            Ok(OutputTarget::File(string_of(v.as_slice())))
        }
    }
}

impl std::str::FromStr for OutputTarget {
    type Err = String;

    fn from_str(s: &str) -> (r: Result<Self, Self::Err>)
        ensures
            result_view(r) == spec_output_target(s@),
    {
        OutputTarget::parse(s)
    }
}

/// A repository named on the command line, optionally qualified by host.
#[derive(Debug, Clone, PartialEq, Eq)]
pub struct RepoSpec {
    pub host: Option<String>,
    pub owner: String,
    pub name: String,
}

/// The view of a [`RepoSpec`].
pub struct RepoSpecView {
    pub host: Option<Seq<char>>,
    pub owner: Seq<char>,
    pub name: Seq<char>,
}

impl View for RepoSpec {
    type V = RepoSpecView;

    open spec fn view(&self) -> RepoSpecView {
        RepoSpecView { host: opt_view(self.host), owner: self.owner@, name: self.name@ }
    }
}

/// What `-R <arg>` means: `OWNER/REPO` or `HOST/OWNER/REPO`, after trimming
/// whitespace and trailing slashes, with owner and repository both non-empty.
pub open spec fn spec_repo_spec(s: Seq<char>) -> Result<RepoSpecView, Seq<char>> {
    let parts = split(strip_trailing(trim(s), '/'), '/');
    if parts.len() != 2 && parts.len() != 3 {
        Err("expected OWNER/REPO or HOST/OWNER/REPO, got "@ + debug_repr(s))
    } else {
        let host = if parts.len() == 3 {
            Some(parts[0])
        } else {
            None
        };
        let owner = parts[parts.len() - 2];
        let name = parts[parts.len() - 1];
        if owner.len() == 0 || name.len() == 0 {
            Err("owner and repository must both be non-empty, got "@ + debug_repr(s))
        } else {
            Ok(RepoSpecView { host, owner, name })
        }
    }
}

impl RepoSpec {
    /// Parses the argument of `-R`, as `gh -R` does.
    pub fn parse(s: &str) -> (r: Result<RepoSpec, String>)
        ensures
            result_view(r) == spec_repo_spec(s@),
    {
        let v = chars_of(s);
        let t = trimmed(v.as_slice());
        let t = strip_trailing_chars(t.as_slice(), '/');
        let seps = vec!['/'];
        assert(seps@ =~= seq!['/']);
        let parts = split_chars(t.as_slice(), seps.as_slice());
        let ghost ps = views(parts@);
        let n = parts.len();
        if n != 2 && n != 3 {
            return Err(message_with_debug("expected OWNER/REPO or HOST/OWNER/REPO, got ", s));
        }
        let host = if n == 3 {
            Some(string_of(parts[0].as_slice()))
        } else {
            None
        };
        assert(ps[n - 2] == parts@[n - 2]@);
        assert(ps[n - 1] == parts@[n - 1]@);
        if parts[n - 2].len() == 0 || parts[n - 1].len() == 0 {
            return Err(
                message_with_debug("owner and repository must both be non-empty, got ", s),
            );
        }
        let owner = string_of(parts[n - 2].as_slice());
        let name = string_of(parts[n - 1].as_slice());
        let r = RepoSpec { host, owner, name };
        assert(opt_view(r.host) == (if n == 3 {
            Some(ps[0])
        } else {
            None::<Seq<char>>
        }));
        Ok(r)
    }
}

impl std::str::FromStr for RepoSpec {
    type Err = String;

    fn from_str(s: &str) -> (r: Result<Self, Self::Err>)
        ensures
            result_view(r) == spec_repo_spec(s@),
    {
        RepoSpec::parse(s)
    }
}

/// The pull request the user asked for: either a bare number, or a URL that
/// carries its own host and repository.
#[derive(Debug, Clone, PartialEq, Eq)]
pub enum PrTarget {
    Number(u64),
    Url { host: String, owner: String, repo: String, number: u64 },
}

/// The view of a [`PrTarget`].
pub enum PrTargetView {
    Number(u64),
    Url { host: Seq<char>, owner: Seq<char>, repo: Seq<char>, number: u64 },
}

impl View for PrTarget {
    type V = PrTargetView;

    open spec fn view(&self) -> PrTargetView {
        match self {
            PrTarget::Number(n) => PrTargetView::Number(*n),
            PrTarget::Url { host, owner, repo, number } => PrTargetView::Url {
                host: host@,
                owner: owner@,
                repo: repo@,
                number: *number,
            },
        }
    }
}

/// The number of the pull request a target names.
pub open spec fn target_number(t: PrTargetView) -> u64 {
    match t {
        PrTargetView::Number(n) => n,
        PrTargetView::Url { number, .. } => number,
    }
}

/// The index of the first `pull` or `pulls` segment at or after `k`.
pub open spec fn pull_segment_from(segs: Seq<Seq<char>>, k: int) -> Option<int>
    decreases segs.len() - k,
{
    if k < 0 || k >= segs.len() {
        None
    } else if segs[k] == "pull"@ || segs[k] == "pulls"@ {
        Some(k)
    } else {
        pull_segment_from(segs, k + 1)
    }
}

/// A found `pull` segment lies within the segments.
pub proof fn lemma_pull_segment_in_range(segs: Seq<Seq<char>>, k: int)
    ensures
        pull_segment_from(segs, k) matches Some(i) ==> k <= i < segs.len() && (segs[i]
            == "pull"@ || segs[i] == "pulls"@),
    decreases segs.len() - k,
{
    if 0 <= k < segs.len() && !(segs[k] == "pull"@ || segs[k] == "pulls"@) {
        lemma_pull_segment_in_range(segs, k + 1);
    }
}

/// The path segments of a pull request URL: the scheme, query and fragment
/// removed, split on `/`, empty segments dropped.
pub open spec fn url_segments(s: Seq<char>) -> Seq<Seq<char>> {
    let without_scheme = match split_once(s, "://"@) {
        Some((_, rest)) => rest,
        None => s,
    };
    let path = split_any(without_scheme, seq!['?', '#'])[0];
    nonempty(split(path, '/'))
}

/// What a pull request URL names: the host, owner and repository are the
/// three segments before the first `pull` (or `pulls`) segment, and the
/// number is the segment after it.
pub open spec fn spec_pr_url(s: Seq<char>) -> Result<PrTargetView, Seq<char>> {
    let segs = url_segments(s);
    match pull_segment_from(segs, 0) {
        None => Err("no /pull/<number> segment in "@ + debug_repr(s)),
        Some(i) => if i < 3 || i + 1 >= segs.len() {
            Err("expected HOST/OWNER/REPO/pull/NUMBER, got "@ + debug_repr(s))
        } else {
            match parse_u64(segs[i + 1]) {
                None => Err(debug_repr(segs[i + 1]) + " is not a pull request number"@),
                Some(n) => if n == 0 {
                    Err("pull request numbers start at 1"@)
                } else {
                    Ok(
                        PrTargetView::Url {
                            host: segs[i - 3],
                            owner: segs[i - 2],
                            repo: segs[i - 1],
                            number: n,
                        },
                    )
                },
            }
        },
    }
}

/// What the positional argument means, after trimming whitespace: a URL if it
/// holds a `/`, otherwise a pull request number, optionally written `#19`.
/// The whole text must be the number, and numbers start at 1.
pub open spec fn spec_pr_target(s: Seq<char>) -> Result<PrTargetView, Seq<char>> {
    let t = trim(s);
    if t.contains('/') {
        spec_pr_url(t)
    } else {
        let digits = if t.len() > 0 && t[0] == '#' {
            t.drop_first()
        } else {
            t
        };
        match parse_u64(digits) {
            None => Err("expected a PR number or URL, got "@ + debug_repr(t)),
            Some(n) => if n == 0 {
                Err("pull request numbers start at 1"@)
            } else {
                Ok(PrTargetView::Number(n))
            },
        }
    }
}

impl PrTarget {
    /// The number of the pull request.
    pub fn number(&self) -> (n: u64)
        ensures
            n == target_number(self@),
    {
        match self {
            PrTarget::Number(n) => *n,
            PrTarget::Url { number, .. } => *number,
        }
    }

    /// Parses the positional argument: a pull request number or URL.
    pub fn parse(s: &str) -> (r: Result<PrTarget, String>)
        ensures
            result_view(r) == spec_pr_target(s@),
    {
        let v = chars_of(s);
        let t = trimmed(v.as_slice());
        let ts = string_of(t.as_slice());
        if contains_char(t.as_slice(), '/') {
            return parse_url(ts.as_str());
        }
        let digits = if t.len() > 0 && t[0] == '#' {
            slice_chars(t.as_slice(), 1, t.len())
        } else {
            slice_chars(t.as_slice(), 0, t.len())
        };
        assert(t@.len() > 0 && t@[0] == '#' ==> digits@ =~= t@.drop_first());
        assert(!(t@.len() > 0 && t@[0] == '#') ==> digits@ =~= t@);
        match parse_u64_chars(digits.as_slice()) {
            None => Err(message_with_debug("expected a PR number or URL, got ", ts.as_str())),
            Some(n) => if n == 0 {
                Err(string_of(chars_of("pull request numbers start at 1").as_slice()))
            } else {
                Ok(PrTarget::Number(n))
            },
        }
    }
}

impl std::str::FromStr for PrTarget {
    type Err = String;

    fn from_str(s: &str) -> (r: Result<Self, Self::Err>)
        ensures
            result_view(r) == spec_pr_target(s@),
    {
        PrTarget::parse(s)
    }
}

/// The first `pull` or `pulls` segment.
fn find_pull_segment(segs: &Vec<Vec<char>>) -> (r: Option<usize>)
    ensures
        r matches Some(i) ==> pull_segment_from(views(segs@), 0) == Some(i as int),
        r is None ==> pull_segment_from(views(segs@), 0) is None,
{
    let pull = chars_of("pull");
    let pulls = chars_of("pulls");
    let ghost ss = views(segs@);
    let mut k: usize = 0;
    while k < segs.len()
        invariant
            k <= segs@.len(),
            ss == views(segs@),
            pull@ == "pull"@,
            pulls@ == "pulls"@,
            pull_segment_from(ss, 0) == pull_segment_from(ss, k as int),
        decreases segs@.len() - k,
    {
        assert(ss[k as int] == segs@[k as int]@);
        if eq_chars(segs[k].as_slice(), pull.as_slice()) || eq_chars(
            segs[k].as_slice(),
            pulls.as_slice(),
        ) {
            return Some(k);
        }
        k = k + 1;
    }
    None
}

/// Pulls `host`, `owner`, `repo` and the number out of a pull request URL.
///
/// Locates the `pull` segment rather than matching a fixed github.com shape, so
/// enterprise hosts and trailing segments (`/files`, `#discussion_r123`) work.
pub fn parse_url(s: &str) -> (r: Result<PrTarget, String>)
    ensures
        result_view(r) == spec_pr_url(s@),
{
    let v = chars_of(s);
    let scheme = chars_of("://");
    let without_scheme = match split_once_chars(v.as_slice(), scheme.as_slice()) {
        Some((_, rest)) => rest,
        None => v,
    };
    let seps = vec!['?', '#'];
    assert(seps@ =~= seq!['?', '#']);
    let pieces = split_chars(without_scheme.as_slice(), seps.as_slice());
    proof {
        lemma_split_len(without_scheme@, seq!['?', '#']);
        assert(views(pieces@)[0] == pieces@[0]@);
    }
    let segs = segments(pieces[0].as_slice(), '/');
    let ghost ss = views(segs@);
    assert(ss == url_segments(s@));
    let i = match find_pull_segment(&segs) {
        Some(i) => i,
        None => {
            return Err(message_with_debug("no /pull/<number> segment in ", s));
        },
    };
    proof {
        lemma_pull_segment_in_range(ss, 0);
    }
    if i < 3 || i + 1 >= segs.len() {
        return Err(message_with_debug("expected HOST/OWNER/REPO/pull/NUMBER, got ", s));
    }
    assert(ss[i + 1] == segs@[i + 1]@);
    let number = match parse_u64_chars(segs[i + 1].as_slice()) {
        Some(n) => n,
        None => {
            let seg = string_of(segs[i + 1].as_slice());
            let mut m = crate::text::debug_str(seg.as_str());
            crate::text::push_str(&mut m, " is not a pull request number");
            return Err(m);
        },
    };
    if number == 0 {
        return Err(string_of(chars_of("pull request numbers start at 1").as_slice()));
    }
    assert(ss[i - 3] == segs@[i - 3]@);
    assert(ss[i - 2] == segs@[i - 2]@);
    assert(ss[i - 1] == segs@[i - 1]@);
    Ok(
        PrTarget::Url {
            host: string_of(segs[i - 3].as_slice()),
            owner: string_of(segs[i - 2].as_slice()),
            repo: string_of(segs[i - 1].as_slice()),
            number,
        },
    )
}

/// The parsed command line.
pub struct Cli {
    /// PR number (e.g. 19) or full URL
    pub target: PrTarget,
    /// Where to write the digest; defaults to ./pr-<number>-digest.md
    pub output: Option<OutputTarget>,
    /// Target repository; defaults to the current git repository
    pub repo: Option<RepoSpec>,
    /// GitHub host for enterprise instances
    pub hostname: Option<String>,
    /// Include threads by resolution state
    pub status: StatusFilter,
    /// Include threads by whether later commits moved their lines
    pub outdated: OutdatedFilter,
    /// Shorthand for --status open --outdated hide
    pub active_only: bool,
    /// GitHub token; overrides GH_TOKEN and GITHUB_TOKEN
    pub token: Option<String>,
}

/// The filters a command line selects, after expanding `--active-only`.
pub open spec fn spec_filters(cli: Cli) -> (StatusFilter, OutdatedFilter) {
    if cli.active_only {
        (StatusFilter::Open, OutdatedFilter::Hide)
    } else {
        (cli.status, cli.outdated)
    }
}

/// The message for `--repo` given alongside a URL.
pub open spec fn repo_with_url_message() -> Seq<char> {
    "--repo cannot be combined with a full PR URL; the URL already names the repository"@
}

/// The message for `--hostname` given alongside a URL.
pub open spec fn hostname_with_url_message() -> Seq<char> {
    "--hostname cannot be combined with a full PR URL; the URL already names the host"@
}

impl Cli {
    /// The effective filters, after expanding the `--active-only` shorthand.
    pub fn filters(&self) -> (r: (StatusFilter, OutdatedFilter))
        ensures
            r == spec_filters(*self),
    {
        if self.active_only {
            (StatusFilter::Open, OutdatedFilter::Hide)
        } else {
            (self.status, self.outdated)
        }
    }

    /// Rejects argument combinations the parser cannot express: a URL target
    /// already names its repository and host, so `--repo` and `--hostname`
    /// cannot go with it.
    pub fn validate(&self) -> (r: Result<(), String>)
        ensures
            r is Ok <==> !(self.target is Url && (self.repo is Some || self.hostname is Some)),
            r matches Err(m) ==> m@ == (if self.repo is Some {
                repo_with_url_message()
            } else {
                hostname_with_url_message()
            }),
    {
        if let PrTarget::Url { .. } = &self.target {
            if self.repo.is_some() {
                return Err(
                    string_of(
                        chars_of(
                            "--repo cannot be combined with a full PR URL; the URL already names the repository",
                        ).as_slice(),
                    ),
                );
            }
            if self.hostname.is_some() {
                return Err(
                    string_of(
                        chars_of(
                            "--hostname cannot be combined with a full PR URL; the URL already names the host",
                        ).as_slice(),
                    ),
                );
            }
        }
        Ok(())
    }
}

} // verus!
