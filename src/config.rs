//! Run-wide settings.
use vstd::prelude::*;
use vstd::string::*;

use crate::text::{digits_value, is_u64_text, text_to_u64, trim_seq, trim_text, unsigned_digits};

verus! {

/// An abbreviation for the start of an upstream URL.
#[derive(Debug)]
pub struct Shortform {
    pub short: String,
    pub full: String,
}

impl Shortform {
    pub fn new(short: &str, full: &str) -> (r: Self)
        ensures
            r.short@ == short@,
            r.full@ == full@,
    {
        Shortform { short: String::from_str(short), full: String::from_str(full) }
    }
}

/// Settings of a run.
#[derive(Debug)]
pub struct Config {
    /// Longest time a fetch may take, in seconds.
    pub fetch_timeout: u64,
    /// Longest time the cache is kept, in seconds.
    pub cache_timeout: u64,
    /// Abbreviations of upstream URLs.
    pub shortforms: Vec<Shortform>,
}

pub open spec fn shortforms_view(s: Seq<Shortform>) -> Seq<(Seq<char>, Seq<char>)> {
    s.map_values(|f: Shortform| (f.short@, f.full@))
}

/// The built-in abbreviations, in order.
pub open spec fn builtin_shortforms() -> Seq<(Seq<char>, Seq<char>)> {
    seq![
        ("github:"@, "https://github.com/"@),
        ("gh:"@, "https://github.com/"@),
        ("gitlab:"@, "https://gitlab.com/"@),
        ("gl:"@, "https://gitlab.com/"@),
        ("dotgay:"@, "https://git.gay/"@),
        ("codeberg:"@, "https://codeberg.org/"@),
        ("cb:"@, "https://codeberg.org/"@),
        ("freedesktop:"@, "https://gitlab.freedesktop.org/"@),
        ("inria:"@, "https://gitlab.inria.fr/"@),
        ("salsa:"@, "https://salsa.debian.org/"@),
        ("kernel:"@, "https://git.kernel.org/pub/scm/"@),
        ("sourcehut:"@, "https://git.sr.ht/~"@),
        ("srht:"@, "https://git.sr.ht/~"@),
    ]
}

/// The built-in abbreviations of the common forges.
pub fn default_shortforms() -> (r: Vec<Shortform>)
    ensures
        shortforms_view(r@) == builtin_shortforms(),
{
    let mut r: Vec<Shortform> = Vec::new();
    r.push(Shortform::new("github:", "https://github.com/"));
    r.push(Shortform::new("gh:", "https://github.com/"));
    r.push(Shortform::new("gitlab:", "https://gitlab.com/"));
    r.push(Shortform::new("gl:", "https://gitlab.com/"));
    r.push(Shortform::new("dotgay:", "https://git.gay/"));
    r.push(Shortform::new("codeberg:", "https://codeberg.org/"));
    r.push(Shortform::new("cb:", "https://codeberg.org/"));
    r.push(Shortform::new("freedesktop:", "https://gitlab.freedesktop.org/"));
    r.push(Shortform::new("inria:", "https://gitlab.inria.fr/"));
    r.push(Shortform::new("salsa:", "https://salsa.debian.org/"));
    r.push(Shortform::new("kernel:", "https://git.kernel.org/pub/scm/"));
    r.push(Shortform::new("sourcehut:", "https://git.sr.ht/~"));
    r.push(Shortform::new("srht:", "https://git.sr.ht/~"));
    assert(shortforms_view(r@) =~= builtin_shortforms());
    r
}

impl Default for Config {
    /// A fetch timeout of 30 seconds, a cache kept for an hour, and the
    /// built-in abbreviations.
    fn default() -> (r: Self)
        ensures
            r.fetch_timeout == 30,
            r.cache_timeout == 3600,
            shortforms_view(r.shortforms@) == builtin_shortforms(),
    {
        Config { fetch_timeout: 30, cache_timeout: 3600, shortforms: default_shortforms() }
    }
}

/// The count a run counter file holding `previous` moves on to: one more
/// than the number it holds (surrounding whitespace aside), or 1 when it
/// holds none; it stays at the largest `u64`.
pub open spec fn next_count(previous: Seq<char>) -> int {
    let t = trim_seq(previous);
    let n = if is_u64_text(t) {
        digits_value(unsigned_digits(t))
    } else {
        0
    };
    if n == u64::MAX {
        n
    } else {
        n + 1
    }
}

pub fn next_run_count(previous: &str) -> (r: u64)
    ensures
        r == next_count(previous@),
{
    let t = trim_text(previous);
    let n = match text_to_u64(t.as_str()) {
        Some(n) => n,
        None => 0,
    };
    if n == u64::MAX {
        n
    } else {
        n + 1
    }
}

/// Whether a cache last changed at `modified` (seconds since the epoch) has
/// outlived `timeout` seconds at `now`.
pub fn cache_expired(modified: u64, now: u64, timeout: u64) -> (r: bool)
    ensures
        r == (now > modified && now - modified > timeout),
{
    now > modified && now - modified > timeout
}

} // verus!
