//! Merging the outcomes of a whole run: counters, and the result listing
//! sorted by package name.
use vstd::prelude::*;
use vstd::multiset::Multiset;
use vstd::string::*;

use crate::fetch::FetchOutcome;
use crate::package::{copy_text, versions_view, FetchError, Package, PackageVersions, VersionChannel};
use crate::text::{lemma_lex_total, lemma_lex_transitive, lex_lt, text_lt};

verus! {

/// Package counts of one run.
#[derive(Clone, Copy, Debug, PartialEq, Eq, Structural)]
pub struct RunCounters {
    pub total: usize,
    pub failed: usize,
    pub skipped: usize,
    pub checked: usize,
}

pub open spec fn count_skipped(s: Seq<Result<FetchOutcome, FetchError>>) -> nat
    decreases s.len(),
{
    if s.len() == 0 {
        0
    } else {
        count_skipped(s.drop_last()) + if s.last() matches Ok(FetchOutcome::Skipped(_)) {
            1nat
        } else {
            0nat
        }
    }
}

pub open spec fn count_failed(s: Seq<Result<FetchOutcome, FetchError>>) -> nat
    decreases s.len(),
{
    if s.len() == 0 {
        0
    } else {
        count_failed(s.drop_last()) + if s.last() matches Ok(FetchOutcome::Failed(_)) {
            1nat
        } else {
            0nat
        }
    }
}

/// No two packages share a name.
pub open spec fn names_distinct(ps: Seq<Package>) -> bool {
    forall|i: int, j: int|
        0 <= i < ps.len() && 0 <= j < ps.len() && i != j ==> (#[trigger] ps[i]).name@ != (
        #[trigger] ps[j]).name@
}

/// Entries in strictly ascending order of name.
pub open spec fn sorted_by_name(r: Seq<PackageVersions>) -> bool {
    forall|i: int, j: int|
        0 <= i < j < r.len() ==> lex_lt((#[trigger] r[i]).package@, (#[trigger] r[j]).package@)
}

/// `e` lists package `p` with the versions of its outcome `o`.
pub open spec fn entry_from(e: PackageVersions, p: Package, o: Result<FetchOutcome, FetchError>) -> bool {
    &&& o is Ok
    &&& e.package@ == p.name@
    &&& versions_view(e.versions@) == versions_view(o->Ok_0.versions())
}

proof fn lemma_insert_sorted(s: Seq<PackageVersions>, p: int, x: PackageVersions)
    requires
        sorted_by_name(s),
        0 <= p <= s.len(),
        forall|t: int| 0 <= t < p ==> lex_lt((#[trigger] s[t]).package@, x.package@),
        p < s.len() ==> lex_lt(x.package@, s[p].package@),
    ensures
        sorted_by_name(s.insert(p, x)),
{
    assert forall|t: int| p < t < s.len() implies lex_lt(x.package@, (#[trigger] s[t]).package@) by {
        lemma_lex_transitive(x.package@, s[p].package@, s[t].package@);
    }
    let s2 = s.insert(p, x);
    assert forall|i: int, j: int| 0 <= i < j < s2.len() implies lex_lt(
        (#[trigger] s2[i]).package@,
        (#[trigger] s2[j]).package@,
    ) by {
        if j < p {
        } else if j == p {
        } else if i < p {
            assert(s2[j] == s[j - 1]);
            lemma_lex_transitive(s[i].package@, x.package@, s[j - 1].package@);
        } else if i == p {
            assert(s2[j] == s[j - 1]);
        } else {
            assert(s2[i] == s[i - 1]);
            assert(s2[j] == s[j - 1]);
        }
    }
}

/// Every entry of `m` lists one of `ps[k..n]`, and each of those is listed.
#[verifier::opaque]
pub open spec fn covers_from(
    m: Seq<PackageVersions>,
    ps: Seq<Package>,
    orig: Seq<Result<FetchOutcome, FetchError>>,
    k: int,
    n: int,
) -> bool {
    &&& entries_listed(m, ps, orig, k, n)
    &&& packages_listed(m, ps, orig, k, n)
}

proof fn lemma_cover_names_differ(
    m: Seq<PackageVersions>,
    ps: Seq<Package>,
    orig: Seq<Result<FetchOutcome, FetchError>>,
    k: int,
    n: int,
)
    requires
        covers_from(m, ps, orig, k + 1, n),
        names_distinct(ps),
        0 <= k < n <= ps.len(),
    ensures
        forall|t: int| 0 <= t < m.len() ==> (#[trigger] m[t]).package@ != ps[k].name@,
{
    reveal(covers_from);
    assert forall|t: int| 0 <= t < m.len() implies (#[trigger] m[t]).package@ != ps[k].name@ by {
        let i = choose|i: int| k + 1 <= i < n && entry_from(m[t], ps[i], orig[i]);
        assert(ps[i].name@ != ps[k].name@);
    }
}

/// Every entry of `m` lists one of `ps[k..n]`.
pub open spec fn entries_listed(
    m: Seq<PackageVersions>,
    ps: Seq<Package>,
    orig: Seq<Result<FetchOutcome, FetchError>>,
    k: int,
    n: int,
) -> bool {
    forall|j: int|
        0 <= j < m.len() ==> exists|i: int|
            k <= i < n && entry_from(#[trigger] m[j], #[trigger] ps[i], orig[i])
}

/// Each of `ps[k..n]` is listed in `m`.
pub open spec fn packages_listed(
    m: Seq<PackageVersions>,
    ps: Seq<Package>,
    orig: Seq<Result<FetchOutcome, FetchError>>,
    k: int,
    n: int,
) -> bool {
    forall|i: int|
        k <= i < n ==> exists|j: int|
            0 <= j < m.len() && entry_from(#[trigger] m[j], #[trigger] ps[i], orig[i])
}

proof fn lemma_entries_insert(
    m: Seq<PackageVersions>,
    p: int,
    e: PackageVersions,
    ps: Seq<Package>,
    orig: Seq<Result<FetchOutcome, FetchError>>,
    k: int,
    n: int,
)
    requires
        entries_listed(m, ps, orig, k + 1, n),
        0 <= p <= m.len(),
        0 <= k < n,
        entry_from(e, ps[k], orig[k]),
    ensures
        entries_listed(m.insert(p, e), ps, orig, k, n),
{
    let m2 = m.insert(p, e);
    assert forall|j: int| 0 <= j < m2.len() implies exists|i: int|
        k <= i < n && entry_from(#[trigger] m2[j], #[trigger] ps[i], orig[i]) by {
        if j < p {
            assert(m2[j] == m[j]);
            let i = choose|i: int| k + 1 <= i < n && entry_from(m[j], ps[i], orig[i]);
            assert(entry_from(m2[j], ps[i], orig[i]));
        } else if j > p {
            assert(m2[j] == m[j - 1]);
            let i = choose|i: int| k + 1 <= i < n && entry_from(m[j - 1], ps[i], orig[i]);
            assert(entry_from(m2[j], ps[i], orig[i]));
        } else {
            assert(entry_from(m2[j], ps[k], orig[k]));
        }
    }
}

proof fn lemma_packages_insert(
    m: Seq<PackageVersions>,
    p: int,
    e: PackageVersions,
    ps: Seq<Package>,
    orig: Seq<Result<FetchOutcome, FetchError>>,
    k: int,
    n: int,
)
    requires
        packages_listed(m, ps, orig, k + 1, n),
        0 <= p <= m.len(),
        0 <= k < n,
        entry_from(e, ps[k], orig[k]),
    ensures
        packages_listed(m.insert(p, e), ps, orig, k, n),
{
    let m2 = m.insert(p, e);
    assert forall|i: int| k <= i < n implies exists|j: int|
        0 <= j < m2.len() && entry_from(#[trigger] m2[j], #[trigger] ps[i], orig[i]) by {
        if i == k {
            assert(entry_from(m2[p], ps[i], orig[i]));
        } else {
            let j = choose|j: int| 0 <= j < m.len() && entry_from(m[j], ps[i], orig[i]);
            if j < p {
                assert(m2[j] == m[j]);
                assert(entry_from(m2[j], ps[i], orig[i]));
            } else {
                assert(m2[j + 1] == m[j]);
                assert(entry_from(m2[j + 1], ps[i], orig[i]));
            }
        }
    }
}

proof fn lemma_cover_insert(
    m: Seq<PackageVersions>,
    p: int,
    e: PackageVersions,
    ps: Seq<Package>,
    orig: Seq<Result<FetchOutcome, FetchError>>,
    k: int,
    n: int,
)
    requires
        covers_from(m, ps, orig, k + 1, n),
        0 <= p <= m.len(),
        0 <= k < n,
        entry_from(e, ps[k], orig[k]),
    ensures
        covers_from(m.insert(p, e), ps, orig, k, n),
{
    reveal(covers_from);
    lemma_entries_insert(m, p, e, ps, orig, k, n);
    lemma_packages_insert(m, p, e, ps, orig, k, n);
}

/// Where `name` goes in `m`, sorted by name, to keep it sorted.
fn insert_position(m: &Vec<PackageVersions>, name: &String) -> (p: usize)
    requires
        sorted_by_name(m@),
        forall|t: int| 0 <= t < m@.len() ==> (#[trigger] m@[t]).package@ != name@,
    ensures
        p <= m@.len(),
        forall|t: int| 0 <= t < p ==> lex_lt((#[trigger] m@[t]).package@, name@),
        p < m@.len() ==> lex_lt(name@, m@[p as int].package@),
{
    let mut p: usize = 0;
    while p < m.len() && text_lt(m[p].package.as_str(), name.as_str())
        invariant
            p <= m@.len(),
            forall|t: int| 0 <= t < p ==> lex_lt((#[trigger] m@[t]).package@, name@),
        decreases m@.len() - p,
    {
        p = p + 1;
    }
    if p < m.len() {
        proof {
            lemma_lex_total(m@[p as int].package@, name@);
        }
    }
    p
}

/// Merges the outcomes of a run, `outcomes[i]` being that of `packages[i]`.
/// The first error found is returned (earlier versions that were needed and
/// missing end the run). Otherwise the result lists each package once, with
/// the versions of its outcome, in ascending order of name, and the counters
/// sum skipped and failed packages.
pub fn merge_outcomes(packages: &Vec<Package>, outcomes: Vec<Result<FetchOutcome, FetchError>>) -> (r:
    Result<(Vec<PackageVersions>, RunCounters), FetchError>)
    requires
        packages@.len() == outcomes@.len(),
        names_distinct(packages@),
    ensures
        r is Err <==> exists|i: int| 0 <= i < outcomes@.len() && (#[trigger] outcomes@[i]) is Err,
        r matches Err(e) ==> exists|i: int|
            0 <= i < outcomes@.len() && #[trigger] outcomes@[i] == Err::<FetchOutcome, FetchError>(e),
        r matches Ok((m, c)) ==> {
            &&& c.total == outcomes@.len()
            &&& c.skipped == count_skipped(outcomes@)
            &&& c.failed == count_failed(outcomes@)
            &&& c.checked == c.total - c.failed - c.skipped
            &&& c.total == c.checked + c.failed + c.skipped
            &&& m@.len() == packages@.len()
            &&& sorted_by_name(m@)
            &&& packages_listed(m@, packages@, outcomes@, 0, packages@.len() as int)
            &&& entries_listed(m@, packages@, outcomes@, 0, packages@.len() as int)
        },
{
    let ghost orig = outcomes@;
    let ghost ps = packages@;
    let n = outcomes.len();
    let mut rest = outcomes;
    let mut m: Vec<PackageVersions> = Vec::new();
    let mut skipped: usize = 0;
    let mut failed: usize = 0;
    let mut k: usize = n;
    proof {
        reveal(covers_from);
        assert(orig.subrange(0, n as int) =~= orig);
    }
    while k > 0
        invariant
            ps == packages@,
            n == orig.len(),
            n == ps.len(),
            names_distinct(ps),
            k <= n,
            orig == outcomes@,
            rest@ == orig.subrange(0, k as int),
            skipped + count_skipped(orig.subrange(0, k as int)) == count_skipped(orig),
            failed + count_failed(orig.subrange(0, k as int)) == count_failed(orig),
            skipped + failed <= n - k,
            m@.len() == n - k,
            sorted_by_name(m@),
            forall|i: int| k <= i < n ==> (#[trigger] orig[i]) is Ok,
            covers_from(m@, ps, orig, k as int, n as int),
        decreases k,
    {
        let ghost prefix = orig.subrange(0, k as int);
        assert(prefix.drop_last() =~= orig.subrange(0, k - 1));
        let o = rest.pop().unwrap();
        k = k - 1;
        assert(o == orig[k as int]);
        let versions: Vec<VersionChannel> = match o {
            Err(e) => {
                assert(orig[k as int] == Err::<FetchOutcome, FetchError>(e));
                return Err(e);
            },
            Ok(FetchOutcome::Fetched(v)) => v,
            Ok(FetchOutcome::Skipped(v)) => {
                skipped = skipped + 1;
                v
            },
            Ok(FetchOutcome::Failed(v)) => {
                failed = failed + 1;
                v
            },
        };
        let name = copy_text(&packages[k].name);
        let ghost old_m = m@;
        proof {
            lemma_cover_names_differ(old_m, ps, orig, k as int, n as int);
        }
        let p = insert_position(&m, &name);
        let entry = PackageVersions { package: name, versions };
        proof {
            lemma_insert_sorted(old_m, p as int, entry);
            lemma_cover_insert(old_m, p as int, entry, ps, orig, k as int, n as int);
        }
        m.insert(p, entry);
    }
    assert(orig.subrange(0, 0) =~= Seq::<Result<FetchOutcome, FetchError>>::empty());
    proof {
        reveal(covers_from);
        assert(count_skipped(orig.subrange(0, 0)) == 0);
        assert(count_failed(orig.subrange(0, 0)) == 0);
        assert(entries_listed(m@, ps, orig, 0, n as int));
        assert(packages_listed(m@, ps, orig, 0, n as int));
    }
    let counters = RunCounters { total: n, failed, skipped, checked: n - failed - skipped };
    Ok((m, counters))
}

/// A failed package is listed with the earlier versions it fell back on.
pub proof fn law_failed_package_keeps_fallback(
    m: Seq<PackageVersions>,
    ps: Seq<Package>,
    outcomes: Seq<Result<FetchOutcome, FetchError>>,
    i: int,
    fallback: Seq<VersionChannel>,
)
    requires
        packages_listed(m, ps, outcomes, 0, ps.len() as int),
        0 <= i < ps.len(),
        outcomes[i] matches Ok(FetchOutcome::Failed(v)) && versions_view(v@) == versions_view(
            fallback,
        ),
    ensures
        exists|j: int|
            0 <= j < m.len() && (#[trigger] m[j]).package@ == ps[i].name@ && versions_view(
                m[j].versions@,
            ) == versions_view(fallback),
{
    let j = choose|j: int| 0 <= j < m.len() && entry_from(m[j], ps[i], outcomes[i]);
    assert(m[j].package@ == ps[i].name@);
}

/// The lines `channel<TAB>version` of a version listing.
pub open spec fn version_lines(v: Seq<(Seq<char>, Seq<char>)>) -> Seq<char>
    decreases v.len(),
{
    if v.len() == 0 {
        Seq::empty()
    } else {
        version_lines(v.drop_last()) + v.last().0 + "\t"@ + v.last().1 + "\n"@
    }
}

/// The lines `package<TAB>channel<TAB>version` of one package.
pub open spec fn package_lines(name: Seq<char>, v: Seq<(Seq<char>, Seq<char>)>) -> Seq<char>
    decreases v.len(),
{
    if v.len() == 0 {
        Seq::empty()
    } else {
        package_lines(name, v.drop_last()) + name + "\t"@ + v.last().0 + "\t"@ + v.last().1
            + "\n"@
    }
}

/// The merged listing of all packages, one line per channel.
pub open spec fn all_lines(m: Seq<PackageVersions>) -> Seq<char>
    decreases m.len(),
{
    if m.len() == 0 {
        Seq::empty()
    } else {
        all_lines(m.drop_last()) + package_lines(m.last().package@, versions_view(m.last().versions@))
    }
}

fn append_package_lines(out: &mut String, name: &String, v: &Vec<VersionChannel>)
    ensures
        final(out)@ == old(out)@ + package_lines(name@, versions_view(v@)),
{
    let ghost start = out@;
    let mut i: usize = 0;
    while i < v.len()
        invariant
            i <= v@.len(),
            out@ == start + package_lines(name@, versions_view(v@.subrange(0, i as int))),
        decreases v@.len() - i,
    {
        let ghost before = out@;
        out.append(name.as_str());
        out.append("\t");
        out.append(v[i].channel.as_str());
        out.append("\t");
        out.append(v[i].version.as_str());
        out.append("\n");
        proof {
            let pre = versions_view(v@.subrange(0, i as int));
            let post = versions_view(v@.subrange(0, i + 1));
            assert(post.drop_last() =~= pre);
            assert(post.last() == (v@[i as int].channel@, v@[i as int].version@));
            assert(out@ =~= start + package_lines(name@, post));
        }
        i = i + 1;
    }
    assert(v@.subrange(0, v@.len() as int) =~= v@);
}

/// The text of the per-package listing: `channel<TAB>version` per line.
pub fn versions_text(v: &Vec<VersionChannel>) -> (r: String)
    ensures
        r@ == version_lines(versions_view(v@)),
{
    let mut out = String::new();
    let mut i: usize = 0;
    while i < v.len()
        invariant
            i <= v@.len(),
            out@ == version_lines(versions_view(v@.subrange(0, i as int))),
        decreases v@.len() - i,
    {
        out.append(v[i].channel.as_str());
        out.append("\t");
        out.append(v[i].version.as_str());
        out.append("\n");
        proof {
            let post = versions_view(v@.subrange(0, i + 1));
            assert(post.drop_last() =~= versions_view(v@.subrange(0, i as int)));
            assert(out@ =~= version_lines(post));
        }
        i = i + 1;
    }
    assert(v@.subrange(0, v@.len() as int) =~= v@);
    out
}

/// The text of the merged listing: `package<TAB>channel<TAB>version` per line.
pub fn all_text(m: &Vec<PackageVersions>) -> (r: String)
    ensures
        r@ == all_lines(m@),
{
    let mut out = String::new();
    let mut i: usize = 0;
    while i < m.len()
        invariant
            i <= m@.len(),
            out@ == all_lines(m@.subrange(0, i as int)),
        decreases m@.len() - i,
    {
        append_package_lines(&mut out, &m[i].package, &m[i].versions);
        proof {
            let post = m@.subrange(0, i + 1);
            assert(post.drop_last() =~= m@.subrange(0, i as int));
        }
        i = i + 1;
    }
    assert(m@.subrange(0, m@.len() as int) =~= m@);
    out
}

/// Relies on `num_cpus::get`: the number of logical CPUs this process may use.
#[verifier::external_body]
fn logical_cpus() -> (r: usize) {
    num_cpus::get()
}

/// The default worker count: twice the CPU count (a count of zero counts as
/// one), saturating at the largest `usize`.
pub open spec fn default_workers(cpus: usize) -> int {
    let c = if cpus == 0 {
        1
    } else {
        cpus as int
    };
    if 2 * c > usize::MAX {
        usize::MAX as int
    } else {
        2 * c
    }
}

/// The size of the worker pool: the override where one is given, else the default.
pub fn pool_size(override_threads: Option<usize>, cpus: usize) -> (r: usize)
    ensures
        override_threads matches Some(n) ==> r == n,
        override_threads is None ==> r == default_workers(cpus),
{
    match override_threads {
        Some(n) => n,
        None => {
            let c = if cpus == 0 {
                1
            } else {
                cpus
            };
            if c > usize::MAX / 2 {
                usize::MAX
            } else {
                2 * c
            }
        },
    }
}

/// The size of the worker pool for this machine: the override where one is
/// given, else a positive multiple of the logical CPU count.
pub fn worker_count(override_threads: Option<usize>) -> (r: usize)
    ensures
        override_threads matches Some(n) ==> r == n,
        override_threads is None ==> r >= 2,
{
    match override_threads {
        Some(n) => n,
        None => pool_size(None, logical_cpus()),
    }
}

/// Packages in ascending order of name (equal names in any order).
pub open spec fn ordered_by_name(r: Seq<Package>) -> bool {
    forall|i: int, j: int|
        0 <= i < j < r.len() ==> !lex_lt((#[trigger] r[j]).name@, (#[trigger] r[i]).name@)
}

proof fn lemma_insert_ordered(s: Seq<Package>, p: int, x: Package)
    requires
        ordered_by_name(s),
        0 <= p <= s.len(),
        forall|t: int| 0 <= t < p ==> !lex_lt(x.name@, (#[trigger] s[t]).name@),
        p < s.len() ==> lex_lt(x.name@, s[p].name@),
    ensures
        ordered_by_name(s.insert(p, x)),
{
    assert forall|t: int| p <= t < s.len() implies !lex_lt((#[trigger] s[t]).name@, x.name@) by {
        lemma_lex_total(s[p].name@, x.name@);
        if lex_lt(s[t].name@, x.name@) && t > p {
            lemma_lex_transitive(s[t].name@, x.name@, s[p].name@);
        }
    }
    let s2 = s.insert(p, x);
    assert forall|i: int, j: int| 0 <= i < j < s2.len() implies !lex_lt(
        (#[trigger] s2[j]).name@,
        (#[trigger] s2[i]).name@,
    ) by {
        if j < p {
        } else if j == p {
        } else if i < p {
            assert(s2[j] == s[j - 1]);
        } else if i == p {
            assert(s2[j] == s[j - 1]);
        } else {
            assert(s2[i] == s[i - 1]);
            assert(s2[j] == s[j - 1]);
        }
    }
}

/// The packages in ascending order of name, as `str` compares names.
pub fn sort_packages(packages: Vec<Package>) -> (r: Vec<Package>)
    ensures
        r@.to_multiset() == packages@.to_multiset(),
        ordered_by_name(r@),
{
    broadcast use vstd::seq_lib::group_to_multiset_ensures, vstd::multiset::group_multiset_axioms;

    let ghost orig = packages@;
    let mut rest = packages;
    let mut r: Vec<Package> = Vec::new();
    while rest.len() > 0
        invariant
            r@.to_multiset().add(rest@.to_multiset()) == orig.to_multiset(),
            ordered_by_name(r@),
        decreases rest@.len(),
    {
        let ghost before = rest@;
        let x = rest.pop().unwrap();
        assert(before =~= rest@.push(x));
        let mut p: usize = 0;
        while p < r.len() && !text_lt(x.name.as_str(), r[p].name.as_str())
            invariant
                p <= r@.len(),
                forall|t: int| 0 <= t < p ==> !lex_lt(x.name@, (#[trigger] r@[t]).name@),
            decreases r@.len() - p,
        {
            p = p + 1;
        }
        let ghost old_r = r@;
        proof {
            lemma_insert_ordered(old_r, p as int, x);
        }
        r.insert(p, x);
        proof {
            vstd::seq_lib::to_multiset_insert(old_r, p as int, x);
            vstd::seq_lib::to_multiset_build(rest@, x);
        }
        assert(r@ == old_r.insert(p as int, x));
        assert(r@.to_multiset() =~= old_r.to_multiset().insert(x));
        assert(r@.to_multiset().add(rest@.to_multiset()) =~= old_r.to_multiset().add(
            before.to_multiset(),
        ));
    }
    assert(rest@ =~= Seq::<Package>::empty());
    assert(rest@.to_multiset() =~= Multiset::empty());
    assert(r@.to_multiset() =~= r@.to_multiset().add(rest@.to_multiset()));
    r
}

} // verus!
