//! The per-package fetch policy: whether to fetch, and what a fetch yields.
//!
//! A fetch runs as a sequence of steps. `Package::begin_fetch` decides whether
//! the package is skipped; otherwise each step names the next enabled channel
//! to resolve, and `Package::next_fetch_step` takes that channel's result.
use vstd::prelude::*;

use crate::package::{
    copy_text, copy_versions, versions_view, FetchError, Package, PackageChannel, VersionChannel,
};
use crate::CHANCE_SCALE;

verus! {

/// What one package's fetch came to. Each carries the versions to record:
/// new ones, or the earlier ones for a skipped or failed package.
#[derive(Debug)]
pub enum FetchOutcome {
    Fetched(Vec<VersionChannel>),
    Skipped(Vec<VersionChannel>),
    Failed(Vec<VersionChannel>),
}

impl FetchOutcome {
    pub open spec fn versions(self) -> Seq<VersionChannel> {
        match self {
            FetchOutcome::Fetched(v) => v@,
            FetchOutcome::Skipped(v) => v@,
            FetchOutcome::Failed(v) => v@,
        }
    }
}

/// The next thing a package fetch needs.
#[derive(Debug)]
pub enum FetchStep {
    /// Resolve the channel at this index; the versions gathered so far go along.
    Resolve(usize, Vec<VersionChannel>),
    /// The fetch is over.
    Done(Result<FetchOutcome, FetchError>),
}

pub open spec fn fallback_view(f: Option<Vec<VersionChannel>>) -> Option<Seq<VersionChannel>> {
    match f {
        Some(v) => Some(v@),
        None => None,
    }
}

/// Whether `f` holds an entry for channel `name`.
pub open spec fn has_entry(f: Seq<VersionChannel>, name: Seq<char>) -> bool {
    exists|j: int| 0 <= j < f.len() && (#[trigger] f[j]).channel@ == name
}

/// Earlier versions exist and hold an entry for every configured channel.
pub open spec fn fallback_complete(p: Package, f: Option<Seq<VersionChannel>>) -> bool {
    match f {
        None => false,
        Some(v) => forall|i: int|
            0 <= i < p.config.channels@.len() ==> has_entry(
                v,
                (#[trigger] p.config.channels@[i]).name@,
            ),
    }
}

/// A real fetch is owed: when forced, or when there is nothing to fall back on.
pub open spec fn should_guarantee(force: bool, has_fallback: bool) -> bool {
    force || !has_fallback
}

/// Whether a package is skipped, given the drawn `sample` in `1..=CHANCE_SCALE`.
pub open spec fn skips(chance: u32, guarantee: bool, sample: u32) -> bool {
    chance < CHANCE_SCALE && !guarantee && sample > chance
}

/// Whether package `p` is skipped on this run.
pub open spec fn package_skips(
    p: Package,
    force: bool,
    f: Option<Seq<VersionChannel>>,
    sample: u32,
) -> bool {
    skips(p.config.chance, should_guarantee(force, fallback_complete(p, f)), sample)
}

/// The first enabled channel at or after `i` (the count of channels if none).
pub open spec fn next_enabled(chs: Seq<PackageChannel>, i: int) -> int
    decreases chs.len() - i,
{
    if 0 <= i < chs.len() && !chs[i].enabled {
        next_enabled(chs, i + 1)
    } else {
        i
    }
}

/// What a step after channel `at` looks like: the gathered versions `got`
/// go to the next enabled channel, or make up the fetched result.
pub open spec fn step_continues(
    r: FetchStep,
    chs: Seq<PackageChannel>,
    at: int,
    got: Seq<(Seq<char>, Seq<char>)>,
) -> bool {
    let j = next_enabled(chs, at);
    if j < chs.len() {
        r matches FetchStep::Resolve(k, c) && k == j && versions_view(c@) == got
    } else {
        r matches FetchStep::Done(Ok(FetchOutcome::Fetched(c))) && versions_view(c@) == got
    }
}

/// What a package falls back on when its fetch failed.
pub open spec fn step_fails_over(r: FetchStep, f: Option<Seq<VersionChannel>>) -> bool {
    match f {
        Some(v) => r matches FetchStep::Done(Ok(FetchOutcome::Failed(c))) && versions_view(c@)
            == versions_view(v),
        None => r == FetchStep::Done(Err(FetchError::MissingFallback)),
    }
}

fn has_channel_entry(f: &Vec<VersionChannel>, name: &String) -> (r: bool)
    ensures
        r == has_entry(f@, name@),
{
    let mut j: usize = 0;
    while j < f.len()
        invariant
            j <= f@.len(),
            forall|k: int| 0 <= k < j ==> (#[trigger] f@[k]).channel@ != name@,
        decreases f@.len() - j,
    {
        if crate::package::text_eq(f[j].channel.as_str(), name.as_str()) {
            return true;
        }
        j = j + 1;
    }
    false
}

/// Relies on `rand::random_range`: an integer drawn uniformly from `lo..=hi`
/// (it panics only on an empty range).
#[verifier::external_body]
fn random_between(lo: u32, hi: u32) -> (r: u32)
    requires
        lo <= hi,
    ensures
        lo <= r <= hi,
{
    rand::random_range(lo..=hi)
}

fn first_enabled_from(chs: &Vec<PackageChannel>, i: usize) -> (r: usize)
    requires
        i <= chs@.len(),
    ensures
        r as int == next_enabled(chs@, i as int),
        r <= chs@.len(),
{
    let mut j = i;
    while j < chs.len() && !chs[j].enabled
        invariant
            i <= j <= chs@.len(),
            next_enabled(chs@, i as int) == next_enabled(chs@, j as int),
        decreases chs@.len() - j,
    {
        j = j + 1;
    }
    j
}

fn fail_over(fallback: &Option<Vec<VersionChannel>>) -> (r: FetchStep)
    ensures
        step_fails_over(r, fallback_view(*fallback)),
{
    match fallback {
        Some(v) => FetchStep::Done(Ok(FetchOutcome::Failed(copy_versions(v)))),
        None => FetchStep::Done(Err(FetchError::MissingFallback)),
    }
}

impl Package {
    /// Earlier versions exist and hold an entry for every configured channel
    /// (partial earlier data counts as none). `fallback` is `None` where they
    /// are missing or unreadable.
    pub fn has_fallback_versions(&self, fallback: &Option<Vec<VersionChannel>>) -> (r: bool)
        ensures
            r == fallback_complete(*self, fallback_view(*fallback)),
    {
        match fallback {
            None => false,
            Some(f) => {
                let mut i: usize = 0;
                while i < self.config.channels.len()
                    invariant
                        i <= self.config.channels@.len(),
                        fallback_view(*fallback) == Some(f@),
                        forall|k: int|
                            0 <= k < i ==> has_entry(
                                f@,
                                (#[trigger] self.config.channels@[k]).name@,
                            ),
                    decreases self.config.channels@.len() - i,
                {
                    if !has_channel_entry(f, &self.config.channels[i].name) {
                        assert(!has_entry(f@, self.config.channels@[i as int].name@));
                        return false;
                    }
                    i = i + 1;
                }
                true
            },
        }
    }

    /// The first step of a fetch, given the drawn `sample`: a skipped package
    /// ends at once with its earlier versions; otherwise the first enabled
    /// channel is to be resolved.
    pub fn start_fetch(&self, force: bool, fallback: &Option<Vec<VersionChannel>>, sample: u32) -> (r:
        FetchStep)
        ensures
            package_skips(*self, force, fallback_view(*fallback), sample) ==> (r matches FetchStep::Done(
                Ok(FetchOutcome::Skipped(c)),
            ) && fallback matches Some(f) && versions_view(c@) == versions_view(f@)),
            !package_skips(*self, force, fallback_view(*fallback), sample) ==> step_continues(
                r,
                self.config.channels@,
                0,
                Seq::empty(),
            ),
    {
        let guarantee = force || !self.has_fallback_versions(fallback);
        if self.config.chance < CHANCE_SCALE && !guarantee && sample > self.config.chance {
            match fallback {
                Some(f) => {
                    return FetchStep::Done(Ok(FetchOutcome::Skipped(copy_versions(f))));
                },
                None => {
                    return FetchStep::Done(Err(FetchError::MissingFallback));
                },
            }
        }
        let j = first_enabled_from(&self.config.channels, 0);
        let got: Vec<VersionChannel> = Vec::new();
        assert(versions_view(got@) =~= Seq::empty());
        if j < self.config.channels.len() {
            FetchStep::Resolve(j, got)
        } else {
            FetchStep::Done(Ok(FetchOutcome::Fetched(got)))
        }
    }

    /// The first step of a fetch. A sample in `1..=CHANCE_SCALE` is drawn
    /// when the package may be skipped, and it is skipped when the sample
    /// exceeds its chance. So a package of full chance is never skipped, and
    /// one of chance zero with complete earlier versions always is, unless
    /// forced.
    pub fn begin_fetch(&self, force: bool, fallback: &Option<Vec<VersionChannel>>) -> (r: FetchStep)
        requires
            self.config.wf(),
        ensures
            exists|sample: u32|
                1 <= sample <= CHANCE_SCALE && {
                    &&& package_skips(*self, force, fallback_view(*fallback), sample) ==> (
                    r matches FetchStep::Done(Ok(FetchOutcome::Skipped(c))) && fallback matches Some(
                        f,
                    ) && versions_view(c@) == versions_view(f@))
                    &&& !package_skips(*self, force, fallback_view(*fallback), sample)
                        ==> step_continues(r, self.config.channels@, 0, Seq::empty())
                },
            self.config.chance == CHANCE_SCALE ==> !(r matches FetchStep::Done(
                Ok(FetchOutcome::Skipped(_)),
            )),
            self.config.chance == 0 && !force && fallback_complete(*self, fallback_view(*fallback))
                ==> r matches FetchStep::Done(Ok(FetchOutcome::Skipped(_))),
    {
        let guarantee = force || !self.has_fallback_versions(fallback);
        let sample = if self.config.chance < CHANCE_SCALE && !guarantee {
            random_between(1, CHANCE_SCALE)
        } else {
            CHANCE_SCALE
        };
        let r = self.start_fetch(force, fallback, sample);
        proof {
            lemma_skips_bounds(*self, force, fallback_view(*fallback), sample);
            if self.config.chance == CHANCE_SCALE && !package_skips(*self, force, fallback_view(*fallback), sample) {
                lemma_continue_not_skipped(r, self.config.channels@, 0, Seq::empty());
            }
        }
        r
    }

    /// The step after channel `at` was resolved with `result`: a failure ends
    /// the fetch with the earlier versions (all or nothing per package); a
    /// version joins those gathered, and the next enabled channel follows.
    pub fn next_fetch_step(
        &self,
        at: usize,
        gathered: Vec<VersionChannel>,
        result: Result<String, FetchError>,
        fallback: &Option<Vec<VersionChannel>>,
    ) -> (r: FetchStep)
        requires
            at < self.config.channels@.len(),
        ensures
            result is Err ==> step_fails_over(r, fallback_view(*fallback)),
            result matches Ok(v) ==> step_continues(
                r,
                self.config.channels@,
                at + 1,
                versions_view(gathered@).push((self.config.channels@[at as int].name@, v@)),
            ),
    {
        let n = self.config.channels.len();
        match result {
            Err(_) => fail_over(fallback),
            Ok(v) => {
                let mut got = gathered;
                let ghost before = got@;
                got.push(
                    VersionChannel { channel: copy_text(&self.config.channels[at].name), version: v },
                );
                assert(versions_view(got@) =~= versions_view(before).push(
                    (self.config.channels@[at as int].name@, result->Ok_0@),
                ));
                let j = first_enabled_from(&self.config.channels, at + 1);
                if j < self.config.channels.len() {
                    FetchStep::Resolve(j, got)
                } else {
                    FetchStep::Done(Ok(FetchOutcome::Fetched(got)))
                }
            },
        }
    }
}

proof fn lemma_skips_bounds(p: Package, force: bool, f: Option<Seq<VersionChannel>>, sample: u32)
    ensures
        p.config.chance == CHANCE_SCALE ==> !package_skips(p, force, f, sample),
{
}

proof fn lemma_continue_not_skipped(
    r: FetchStep,
    chs: Seq<PackageChannel>,
    at: int,
    got: Seq<(Seq<char>, Seq<char>)>,
)
    requires
        step_continues(r, chs, at, got),
    ensures
        !(r matches FetchStep::Done(Ok(FetchOutcome::Skipped(_)))),
{
}

/// A package of full chance is never skipped, whatever the sample, the
/// earlier versions or the force flag.
pub proof fn law_full_chance_never_skips(
    p: Package,
    force: bool,
    f: Option<Seq<VersionChannel>>,
    sample: u32,
)
    requires
        p.config.chance == CHANCE_SCALE,
    ensures
        !package_skips(p, force, f, sample),
{
}

/// A package of chance zero with complete earlier versions, not forced, is
/// skipped whatever sample is drawn.
pub proof fn law_zero_chance_always_skips(p: Package, f: Option<Seq<VersionChannel>>, sample: u32)
    requires
        p.config.chance == 0,
        fallback_complete(p, f),
        1 <= sample <= CHANCE_SCALE,
    ensures
        package_skips(p, false, f, sample),
{
}

} // verus!
