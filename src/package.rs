//! Packages, their channels, and how one channel's version is resolved.
use vstd::prelude::*;
use vstd::string::*;

use crate::cmd::CmdError;
use crate::text::{
    basename, basename_seq, is_digit, is_u64_text, seq_contains, text_contains, text_is_u64,
    trim_seq, trim_text,
};

verus! {

/// One update stream of a package.
#[derive(Debug)]
pub struct PackageChannel {
    pub name: String,
    pub enabled: bool,
    /// Overrides the package's upstream for this channel.
    pub upstream: Option<String>,
    /// The fetch script fragment; filled in from the upstream's shape when empty.
    pub fetch: String,
    /// The pattern a version must fully match; filled in from the name when absent.
    pub expected: Option<String>,
}

impl Default for PackageChannel {
    fn default() -> (r: Self)
        ensures
            r.name@.len() == 0,
            r.enabled,
            r.upstream is None,
            r.fetch@.len() == 0,
            r.expected is None,
    {
        PackageChannel {
            name: String::new(),
            enabled: true,
            upstream: None,
            fetch: String::new(),
            expected: None,
        }
    }
}

/// The settings of one package.
#[derive(Debug)]
pub struct PackageConfig {
    pub upstream: String,
    /// Probability that a real fetch is attempted, in millionths
    /// (`CHANCE_SCALE` is certainty).
    pub chance: u32,
    pub channels: Vec<PackageChannel>,
}

impl Default for PackageConfig {
    fn default() -> (r: Self)
        ensures
            r.upstream@.len() == 0,
            r.chance == crate::CHANCE_SCALE,
            r.channels@.len() == 0,
    {
        PackageConfig { upstream: String::new(), chance: crate::CHANCE_SCALE, channels: Vec::new() }
    }
}

impl PackageConfig {
    /// The chance lies in `[0, CHANCE_SCALE]`.
    pub open spec fn wf(&self) -> bool {
        self.chance <= crate::CHANCE_SCALE
    }
}

/// A package: its name (which may hold `/`-separated namespaces) and settings.
#[derive(Debug)]
pub struct Package {
    pub name: String,
    pub config: PackageConfig,
}

/// The version resolved for one channel.
#[derive(Debug)]
pub struct VersionChannel {
    pub channel: String,
    pub version: String,
}

/// A package's name with its versions, as listed in the merged output.
#[derive(Debug)]
pub struct PackageVersions {
    pub package: String,
    pub versions: Vec<VersionChannel>,
}

/// A version entry as a pair of character sequences.
pub open spec fn vc_view(v: VersionChannel) -> (Seq<char>, Seq<char>) {
    (v.channel@, v.version@)
}

pub open spec fn versions_view(s: Seq<VersionChannel>) -> Seq<(Seq<char>, Seq<char>)> {
    s.map_values(|v: VersionChannel| vc_view(v))
}

pub fn copy_text(s: &String) -> (r: String)
    ensures
        r@ == s@,
{
    String::from_str(s.as_str())
}

pub fn copy_version(v: &VersionChannel) -> (r: VersionChannel)
    ensures
        vc_view(r) == vc_view(*v),
{
    VersionChannel { channel: copy_text(&v.channel), version: copy_text(&v.version) }
}

pub fn copy_versions(v: &Vec<VersionChannel>) -> (r: Vec<VersionChannel>)
    ensures
        versions_view(r@) == versions_view(v@),
{
    let mut r: Vec<VersionChannel> = Vec::new();
    let mut i: usize = 0;
    while i < v.len()
        invariant
            i <= v@.len(),
            r@.len() == i,
            forall|k: int| 0 <= k < i ==> vc_view(#[trigger] r@[k]) == vc_view(v@[k]),
        decreases v@.len() - i,
    {
        r.push(copy_version(&v[i]));
        i = i + 1;
    }
    assert(versions_view(r@) =~= versions_view(v@));
    r
}

/// `a == b` on strings.
pub fn text_eq(a: &str, b: &str) -> (r: bool)
    ensures
        r == (a@ == b@),
{
    let n = a.unicode_len();
    if n != b.unicode_len() {
        return false;
    }
    let mut i: usize = 0;
    while i < n
        invariant
            n == a@.len(),
            n == b@.len(),
            i <= n,
            forall|k: int| 0 <= k < i ==> a@[k] == b@[k],
        decreases n - i,
    {
        if a.get_char(i) != b.get_char(i) {
            return false;
        }
        i = i + 1;
    }
    assert(a@ =~= b@);
    true
}

/// The kind of source an upstream string points at.
#[derive(Clone, Copy, Debug, PartialEq, Eq, Structural)]
pub enum UpstreamType {
    Arch,
    Curl,
    Empty,
    Git,
}

pub open spec fn upstream_type(s: Seq<char>) -> UpstreamType {
    if seq_contains(s, "archlinux.org"@) {
        UpstreamType::Arch
    } else if seq_contains(s, "C=M"@) && seq_contains(s, "O=D"@) {
        UpstreamType::Curl
    } else if s.len() == 0 {
        UpstreamType::Empty
    } else {
        UpstreamType::Git
    }
}

impl UpstreamType {
    /// Arch package pages, sorted distfile listings (`C=M` and `O=D`), no
    /// upstream, and otherwise a git repository.
    pub fn from_str(s: &str) -> (r: Self)
        ensures
            r == upstream_type(s@),
    {
        if text_contains(s, "archlinux.org") {
            UpstreamType::Arch
        } else if text_contains(s, "C=M") && text_contains(s, "O=D") {
            UpstreamType::Curl
        } else if s.unicode_len() == 0 {
            UpstreamType::Empty
        } else {
            UpstreamType::Git
        }
    }
}

/// Whether the `regex` crate compiles a pattern.
pub uninterp spec fn regex_compiles(pattern: Seq<char>) -> bool;

/// Whether a compiled pattern matches somewhere in a text.
pub uninterp spec fn regex_finds(pattern: Seq<char>, text: Seq<char>) -> bool;

/// Relies on `regex::Regex::new` (whether the pattern compiles) and
/// `regex::Regex::is_match` (whether it matches anywhere in `text`). A compiled
/// `Regex` does not show its pattern to contracts, so both calls stand here.
#[verifier::external_body]
fn regex_search(pattern: &str, text: &str) -> (r: Option<bool>)
    ensures
        r.is_some() == regex_compiles(pattern@),
        r matches Some(b) ==> b == regex_finds(pattern@, text@),
{
    match regex::Regex::new(pattern) {
        Ok(re) => Some(re.is_match(text)),
        Err(_) => None,
    }
}

/// `p` wrapped so that it must match the whole text.
pub open spec fn anchored(p: Seq<char>) -> Seq<char> {
    "^(?:"@ + p + ")$"@
}

pub fn anchor_pattern(p: &str) -> (r: String)
    ensures
        r@ == anchored(p@),
{
    let mut r = String::from_str("^(?:");
    r.append(p);
    r.append(")$");
    r
}

/// The canonical form of a fetched version: trimmed, without a `v` or `V`
/// that stands before a digit.
pub open spec fn normalized(raw: Seq<char>) -> Seq<char> {
    let t = trim_seq(raw);
    if t.len() >= 2 && (t[0] == 'v' || t[0] == 'V') && is_digit(t[1]) {
        t.drop_first()
    } else {
        t
    }
}

pub fn normalize_version(raw: &str) -> (r: String)
    ensures
        r@ == normalized(raw@),
{
    let t = trim_text(raw);
    let n = t.unicode_len();
    if n >= 2 {
        let c0 = t.get_char(0);
        let c1 = t.get_char(1);
        if (c0 == 'v' || c0 == 'V') && '0' <= c1 && c1 <= '9' {
            return String::from_str(t.as_str().substring_char(1, n));
        }
    }
    t
}

/// Why resolving a channel or a package failed.
#[derive(Clone, Copy, Debug, PartialEq, Eq, Structural)]
pub enum FetchError {
    /// The fetch command failed.
    Command(CmdError),
    /// The version does not fully match the channel's expected pattern.
    ExpectedMismatch,
    /// The channel's expected pattern is not a valid regular expression.
    InvalidPattern,
    /// Earlier versions were needed and could not be had.
    MissingFallback,
}

/// What resolving one channel gives, from the command's result.
pub open spec fn resolved(expected: Option<Seq<char>>, raw: Result<Seq<char>, CmdError>) -> Result<
    Seq<char>,
    FetchError,
> {
    match raw {
        Err(e) => Err(FetchError::Command(e)),
        Ok(s) => {
            let v = normalized(s);
            match expected {
                None => Ok(v),
                Some(p) => if !regex_compiles(anchored(p)) {
                    Err(FetchError::InvalidPattern)
                } else if regex_finds(anchored(p), v) {
                    Ok(v)
                } else {
                    Err(FetchError::ExpectedMismatch)
                },
            }
        },
    }
}

pub open spec fn opt_view(o: Option<String>) -> Option<Seq<char>> {
    match o {
        Some(s) => Some(s@),
        None => None,
    }
}

pub open spec fn raw_view(r: Result<String, CmdError>) -> Result<Seq<char>, CmdError> {
    match r {
        Ok(s) => Ok(s@),
        Err(e) => Err(e),
    }
}

pub open spec fn result_view(r: Result<String, FetchError>) -> Result<Seq<char>, FetchError> {
    match r {
        Ok(s) => Ok(s@),
        Err(e) => Err(e),
    }
}

impl PackageChannel {
    /// Turns the fetch command's result into this channel's version:
    /// normalizes it and checks it against the expected pattern.
    pub fn check_version(&self, raw: Result<String, CmdError>) -> (r: Result<String, FetchError>)
        ensures
            result_view(r) == resolved(opt_view(self.expected), raw_view(raw)),
    {
        let s = match raw {
            Err(e) => {
                return Err(FetchError::Command(e));
            },
            Ok(s) => s,
        };
        let v = normalize_version(s.as_str());
        match &self.expected {
            None => Ok(v),
            Some(p) => {
                let full = anchor_pattern(p.as_str());
                match regex_search(full.as_str(), v.as_str()) {
                    None => Err(FetchError::InvalidPattern),
                    Some(true) => Ok(v),
                    Some(false) => Err(FetchError::ExpectedMismatch),
                }
            },
        }
    }
}

/// Default pattern of a `release` channel.
pub const RELEASE_PATTERN: &'static str = "^[0-9]+(\\.[0-9]+)*$";

/// Default pattern of an `unstable` channel.
pub const UNSTABLE_PATTERN: &'static str = "^[0-9]+(\\.[0-9]+)*-?(rc|alpha|beta|a|b|pre|dev)?[0-9]*$";

/// Default pattern of a `commit` channel.
pub const COMMIT_PATTERN: &'static str = "^[0-9a-f]{40}$";

/// A channel whose defaults cannot be filled in, by its index.
#[derive(Clone, Copy, Debug, PartialEq, Eq, Structural)]
pub enum SetupError {
    /// No fetch script was given and none follows from the upstream and name.
    MissingFetch(usize),
    /// No expected pattern was given and none follows from the name.
    MissingExpected(usize),
}

/// The upstream of a package named `name` once its default is filled in.
pub open spec fn default_upstream(name: Seq<char>, up: Seq<char>) -> Seq<char> {
    if up.len() == 0 {
        "gh:"@ + basename_seq(name) + "/"@ + basename_seq(name)
    } else {
        up
    }
}

pub open spec fn effective_upstream(c: PackageChannel, package_upstream: Seq<char>) -> Seq<char> {
    match c.upstream {
        Some(u) => u@,
        None => package_upstream,
    }
}

/// The fetch script used by default for a channel of a given name.
pub open spec fn default_fetch(ut: UpstreamType, name: Seq<char>) -> Option<Seq<char>> {
    match ut {
        UpstreamType::Arch => if name == "release"@ {
            Some("archver"@)
        } else {
            None
        },
        UpstreamType::Curl => if name == "release"@ {
            Some("defcurlrelease"@)
        } else if name == "unstable"@ {
            Some("defcurlunstable"@)
        } else if name == "commit"@ {
            Some("defcurlcommit"@)
        } else {
            None
        },
        UpstreamType::Empty => Some(Seq::empty()),
        UpstreamType::Git => if name == "release"@ {
            Some("defgitrelease"@)
        } else if name == "unstable"@ {
            Some("defgitunstable"@)
        } else if name == "commit"@ {
            Some("defgitcommit"@)
        } else {
            None
        },
    }
}

/// The expected pattern used by default for a channel of a given name: a
/// numeric name `n` expects versions `n`, `n.x`, `n.x.y`, ...
pub open spec fn default_expected(name: Seq<char>) -> Option<Seq<char>> {
    if name == "release"@ {
        Some(RELEASE_PATTERN@)
    } else if name == "unstable"@ {
        Some(UNSTABLE_PATTERN@)
    } else if name == "commit"@ {
        Some(COMMIT_PATTERN@)
    } else if is_u64_text(name) {
        Some("^"@ + name + "(\\.[0-9]+)*$"@)
    } else {
        None
    }
}

/// The fetch script of a channel once defaults are filled in.
pub open spec fn channel_fetch(c: PackageChannel, package_upstream: Seq<char>) -> Option<Seq<char>> {
    if c.fetch@.len() == 0 {
        default_fetch(upstream_type(effective_upstream(c, package_upstream)), c.name@)
    } else {
        Some(c.fetch@)
    }
}

/// The expected pattern of a channel once defaults are filled in.
pub open spec fn channel_expected(c: PackageChannel) -> Option<Seq<char>> {
    match c.expected {
        Some(e) => Some(e@),
        None => default_expected(c.name@),
    }
}

/// Whether both defaults of channel `c` can be filled in.
pub open spec fn channel_complete(c: PackageChannel, package_upstream: Seq<char>) -> bool {
    channel_fetch(c, package_upstream) is Some && channel_expected(c) is Some
}

/// `d` is channel `c` with its defaults filled in.
pub open spec fn channel_defaulted(d: PackageChannel, c: PackageChannel, package_upstream: Seq<
    char,
>) -> bool {
    &&& d.name@ == c.name@
    &&& d.enabled == c.enabled
    &&& opt_view(d.upstream) == opt_view(c.upstream)
    &&& Some(d.fetch@) == channel_fetch(c, package_upstream)
    &&& opt_view(d.expected) == channel_expected(c)
}

pub fn copy_opt_text(o: &Option<String>) -> (r: Option<String>)
    ensures
        opt_view(r) == opt_view(*o),
{
    match o {
        Some(s) => Some(copy_text(s)),
        None => None,
    }
}

fn default_fetch_for(ut: UpstreamType, name: &str) -> (r: Option<String>)
    ensures
        opt_view(r) == default_fetch(ut, name@),
{
    match ut {
        UpstreamType::Arch => if text_eq(name, "release") {
            Some(String::from_str("archver"))
        } else {
            None
        },
        UpstreamType::Curl => if text_eq(name, "release") {
            Some(String::from_str("defcurlrelease"))
        } else if text_eq(name, "unstable") {
            Some(String::from_str("defcurlunstable"))
        } else if text_eq(name, "commit") {
            Some(String::from_str("defcurlcommit"))
        } else {
            None
        },
        UpstreamType::Empty => Some(String::new()),
        UpstreamType::Git => if text_eq(name, "release") {
            Some(String::from_str("defgitrelease"))
        } else if text_eq(name, "unstable") {
            Some(String::from_str("defgitunstable"))
        } else if text_eq(name, "commit") {
            Some(String::from_str("defgitcommit"))
        } else {
            None
        },
    }
}

fn default_expected_for(name: &str) -> (r: Option<String>)
    ensures
        opt_view(r) == default_expected(name@),
{
    if text_eq(name, "release") {
        Some(String::from_str(RELEASE_PATTERN))
    } else if text_eq(name, "unstable") {
        Some(String::from_str(UNSTABLE_PATTERN))
    } else if text_eq(name, "commit") {
        Some(String::from_str(COMMIT_PATTERN))
    } else if text_is_u64(name) {
        let mut p = String::from_str("^");
        p.append(name);
        p.append("(\\.[0-9]+)*$");
        Some(p)
    } else {
        None
    }
}

impl Package {
    /// Fills in the defaults: an empty upstream becomes `gh:<b>/<b>` for the
    /// last segment `<b>` of the name; then each channel's empty fetch script
    /// and missing expected pattern. When a channel has no default, the
    /// package is left as it was and the first such channel is reported.
    pub fn set_defaults(&mut self) -> (r: Result<(), SetupError>)
        ensures
            ({
                let up = default_upstream(old(self).name@, old(self).config.upstream@);
                let chs = old(self).config.channels@;
                &&& r is Ok <==> (forall|i: int|
                    0 <= i < chs.len() ==> channel_complete(#[trigger] chs[i], up))
                &&& r is Ok ==> {
                    &&& final(self).name@ == old(self).name@
                    &&& final(self).config.chance == old(self).config.chance
                    &&& final(self).config.upstream@ == up
                    &&& final(self).config.channels@.len() == chs.len()
                    &&& forall|i: int|
                        0 <= i < chs.len() ==> channel_defaulted(
                            #[trigger] final(self).config.channels@[i],
                            chs[i],
                            up,
                        )
                }
                &&& r is Err ==> *final(self) == *old(self)
                &&& r matches Err(SetupError::MissingFetch(i)) ==> i < chs.len() && channel_fetch(
                    chs[i as int],
                    up,
                ) is None
                &&& r matches Err(SetupError::MissingExpected(i)) ==> i < chs.len()
                    && channel_expected(chs[i as int]) is None
            }),
    {
        let up = if self.config.upstream.unicode_len() == 0 {
            let b = basename(self.name.as_str());
            let mut u = String::from_str("gh:");
            u.append(b.as_str());
            u.append("/");
            u.append(b.as_str());
            u
        } else {
            copy_text(&self.config.upstream)
        };
        let ghost chs = self.config.channels@;
        let mut done: Vec<PackageChannel> = Vec::new();
        let mut i: usize = 0;
        while i < self.config.channels.len()
            invariant
                chs == self.config.channels@,
                up@ == default_upstream(self.name@, self.config.upstream@),
                i <= chs.len(),
                done@.len() == i,
                forall|k: int| 0 <= k < i ==> channel_complete(#[trigger] chs[k], up@),
                forall|k: int|
                    0 <= k < i ==> channel_defaulted(#[trigger] done@[k], chs[k], up@),
            decreases chs.len() - i,
        {
            let c = &self.config.channels[i];
            let fetch = if c.fetch.unicode_len() == 0 {
                let eff = match &c.upstream {
                    Some(u) => u.as_str(),
                    None => up.as_str(),
                };
                match default_fetch_for(UpstreamType::from_str(eff), c.name.as_str()) {
                    Some(f) => f,
                    None => {
                        return Err(SetupError::MissingFetch(i));
                    },
                }
            } else {
                copy_text(&c.fetch)
            };
            let expected = match &c.expected {
                Some(e) => copy_text(e),
                None => match default_expected_for(c.name.as_str()) {
                    Some(e) => e,
                    None => {
                        return Err(SetupError::MissingExpected(i));
                    },
                },
            };
            done.push(
                PackageChannel {
                    name: copy_text(&c.name),
                    enabled: c.enabled,
                    upstream: copy_opt_text(&c.upstream),
                    fetch,
                    expected: Some(expected),
                },
            );
            i = i + 1;
        }
        self.config.upstream = up;
        self.config.channels = done;
        Ok(())
    }
}

/// The run-wide paths and flags that fetch commands see.
#[derive(Debug)]
pub struct RunContext {
    /// The directory the run works in.
    pub root: String,
    /// The cache directory.
    pub cache: String,
    /// The shell library that fetch scripts source.
    pub shlib_path: String,
    /// Whether fetch scripts are asked not to use the cache.
    pub no_cache: bool,
}

pub open spec fn package_dir(root: Seq<char>, name: Seq<char>) -> Seq<char> {
    root + "/p/"@ + name
}

pub open spec fn bool_text(b: bool) -> Seq<char> {
    if b {
        "true"@
    } else {
        "false"@
    }
}

pub open spec fn env_view(e: Seq<(String, String)>) -> Seq<(Seq<char>, Seq<char>)> {
    e.map_values(|kv: (String, String)| (kv.0@, kv.1@))
}

/// The variables a fetch command of channel `c` of package `p` runs with.
pub open spec fn fetch_env(c: PackageChannel, p: Package, ctx: RunContext) -> Seq<
    (Seq<char>, Seq<char>),
> {
    seq![
        ("GIT_TERMINAL_PROMPT"@, "false"@),
        ("PACKAGE_ROOT"@, package_dir(ctx.root@, p.name@)),
        ("VAT_ROOT"@, ctx.root@),
        ("VAT_CACHE"@, ctx.cache@),
        ("SHLIB_PATH"@, ctx.shlib_path@),
        ("NO_CACHE"@, bool_text(ctx.no_cache)),
        ("channel"@, c.name@),
        ("name"@, basename_seq(p.name@)),
        ("upstream"@, effective_upstream(c, p.config.upstream@)),
    ]
}

fn env_pair(k: &str, v: String) -> (r: (String, String))
    ensures
        r.0@ == k@,
        r.1@ == v@,
{
    (String::from_str(k), v)
}

impl Package {
    /// The directory of package `name` under the run's root.
    pub fn dir(root: &str, name: &str) -> (r: String)
        ensures
            r@ == package_dir(root@, name@),
    {
        let mut r = String::from_str(root);
        r.append("/p/");
        r.append(name);
        r
    }

    /// The package's directory, relative to the run's root.
    pub fn get_package_path(&self) -> (r: String)
        ensures
            r@ == "p/"@ + self.name@,
    {
        let mut r = String::from_str("p/");
        r.append(self.name.as_str());
        r
    }

    /// The first channel of the given name.
    pub fn get_channel(&self, name: &str) -> (r: Option<&PackageChannel>)
        ensures
            r is None <==> forall|i: int|
                0 <= i < self.config.channels@.len() ==> (
                #[trigger] self.config.channels@[i]).name@ != name@,
            r matches Some(c) ==> exists|i: int|
                0 <= i < self.config.channels@.len() && *c == self.config.channels@[i] && c.name@
                    == name@,
    {
        let mut i: usize = 0;
        while i < self.config.channels.len()
            invariant
                i <= self.config.channels@.len(),
                forall|k: int|
                    0 <= k < i ==> (#[trigger] self.config.channels@[k]).name@ != name@,
            decreases self.config.channels@.len() - i,
        {
            if text_eq(self.config.channels[i].name.as_str(), name) {
                return Some(&self.config.channels[i]);
            }
            i = i + 1;
        }
        None
    }
}

impl PackageChannel {
    /// The environment of this channel's fetch command.
    pub fn command_env(&self, package: &Package, ctx: &RunContext) -> (r: Vec<(String, String)>)
        ensures
            env_view(r@) == fetch_env(*self, *package, *ctx),
    {
        let mut r: Vec<(String, String)> = Vec::new();
        r.push(env_pair("GIT_TERMINAL_PROMPT", String::from_str("false")));
        r.push(env_pair("PACKAGE_ROOT", Package::dir(ctx.root.as_str(), package.name.as_str())));
        r.push(env_pair("VAT_ROOT", copy_text(&ctx.root)));
        r.push(env_pair("VAT_CACHE", copy_text(&ctx.cache)));
        r.push(env_pair("SHLIB_PATH", copy_text(&ctx.shlib_path)));
        let no_cache = if ctx.no_cache {
            String::from_str("true")
        } else {
            String::from_str("false")
        };
        r.push(env_pair("NO_CACHE", no_cache));
        r.push(env_pair("channel", copy_text(&self.name)));
        r.push(env_pair("name", basename(package.name.as_str())));
        let upstream = match &self.upstream {
            Some(u) => copy_text(u),
            None => copy_text(&package.config.upstream),
        };
        r.push(env_pair("upstream", upstream));
        assert(env_view(r@) =~= fetch_env(*self, *package, *ctx));
        r
    }

    /// The command line of this channel's fetch: the shell sources the shared
    /// library, then runs the fetch script.
    pub fn fetch_command(&self, ctx: &RunContext) -> (r: Vec<String>)
        ensures
            r@.len() == 3,
            r@[0]@ == "bash"@,
            r@[1]@ == "-c"@,
            r@[2]@ == ". "@ + ctx.shlib_path@ + " && "@ + self.fetch@,
    {
        let mut script = String::from_str(". ");
        script.append(ctx.shlib_path.as_str());
        script.append(" && ");
        script.append(self.fetch.as_str());
        let mut r: Vec<String> = Vec::new();
        r.push(String::from_str("bash"));
        r.push(String::from_str("-c"));
        r.push(script);
        r
    }
}

} // verus!
