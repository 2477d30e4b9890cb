use vat::bulk::{
    all_text, merge_outcomes, pool_size, sort_packages, versions_text, worker_count, RunCounters,
};
use vat::cmd::{classify_output, CmdError};
use vat::config::{cache_expired, default_shortforms, next_run_count, Config, Shortform};
use vat::fetch::{FetchOutcome, FetchStep};
use vat::package::{
    normalize_version, FetchError, Package, PackageChannel, PackageConfig, PackageVersions,
    RunContext, SetupError, UpstreamType, VersionChannel, COMMIT_PATTERN, RELEASE_PATTERN,
};
use vat::text::{basename, text_contains, text_is_u64, text_lt, text_to_u64, trim_text};
use vat::CHANCE_SCALE;

fn vc(channel: &str, version: &str) -> VersionChannel {
    VersionChannel { channel: channel.to_string(), version: version.to_string() }
}

fn channel(name: &str) -> PackageChannel {
    PackageChannel { name: name.to_string(), ..PackageChannel::default() }
}

fn package(name: &str, chance: u32, channels: Vec<PackageChannel>) -> Package {
    Package {
        name: name.to_string(),
        config: PackageConfig { upstream: "gh:x/y".to_string(), chance, channels },
    }
}

fn pairs(v: &[VersionChannel]) -> Vec<(String, String)> {
    v.iter().map(|c| (c.channel.clone(), c.version.clone())).collect()
}

fn ctx() -> RunContext {
    RunContext {
        root: "/srv/vat".to_string(),
        cache: "/srv/vat/.vat-cache".to_string(),
        shlib_path: "/srv/vat/sh/lib.env".to_string(),
        no_cache: false,
    }
}

/// Drives one package's fetch, answering each channel with `answer`.
fn drive(
    p: &Package,
    force: bool,
    fallback: &Option<Vec<VersionChannel>>,
    sample: u32,
    answer: &dyn Fn(&PackageChannel) -> Result<String, vat::cmd::CmdError>,
) -> Result<FetchOutcome, FetchError> {
    let mut step = p.start_fetch(force, fallback, sample);
    loop {
        match step {
            FetchStep::Done(r) => return r,
            FetchStep::Resolve(i, got) => {
                let c = &p.config.channels[i];
                let r = c.check_version(answer(c));
                step = p.next_fetch_step(i, got, r, fallback);
            }
        }
    }
}

#[test]
fn stderr_output_with_status_zero_is_an_error() {
    let r = classify_output(false, b"1.2.3\n", b"warning", Some(0));
    assert_eq!(r, Err(CmdError::OutputInStderr));
}

#[test]
fn timeout_comes_first() {
    let r = classify_output(true, b"1.2.3", b"oops", Some(1));
    assert_eq!(r, Err(CmdError::Timeout));
}

#[test]
fn blank_stdout_is_empty() {
    assert_eq!(classify_output(false, b"", b"", Some(0)), Err(CmdError::EmptyStdout));
    assert_eq!(classify_output(false, b" \n\t", b"", Some(3)), Err(CmdError::EmptyStdout));
}

#[test]
fn nonzero_status_is_an_error() {
    assert_eq!(classify_output(false, b"1.0", b"", Some(2)), Err(CmdError::NonzeroStatus));
    assert_eq!(classify_output(false, b"1.0", b"", None), Err(CmdError::NonzeroStatus));
}

#[test]
fn success_is_trimmed_stdout() {
    assert_eq!(classify_output(false, b"  2.0.1 \n", b"", Some(0)), Ok("2.0.1".to_string()));
}

#[test]
fn invalid_utf8_is_replaced() {
    assert_eq!(classify_output(false, b"1.\xff", b"", Some(0)), Ok("1.\u{fffd}".to_string()));
}

#[test]
fn release_pattern_accepts_dotted_version() {
    let mut c = channel("release");
    c.expected = Some(RELEASE_PATTERN.to_string());
    assert_eq!(c.check_version(Ok("1.2.3".to_string())), Ok("1.2.3".to_string()));
}

#[test]
fn commit_pattern_rejects_dotted_version() {
    let mut c = channel("commit");
    c.expected = Some(COMMIT_PATTERN.to_string());
    assert_eq!(c.check_version(Ok("1.2.3".to_string())), Err(FetchError::ExpectedMismatch));
}

#[test]
fn pattern_must_match_whole_version() {
    let mut c = channel("x");
    c.expected = Some("[0-9]+".to_string());
    assert_eq!(c.check_version(Ok("1.2".to_string())), Err(FetchError::ExpectedMismatch));
    assert_eq!(c.check_version(Ok("12".to_string())), Ok("12".to_string()));
}

#[test]
fn invalid_pattern_is_reported() {
    let mut c = channel("x");
    c.expected = Some("([0-9".to_string());
    assert_eq!(c.check_version(Ok("1".to_string())), Err(FetchError::InvalidPattern));
}

#[test]
fn command_error_propagates() {
    let c = channel("release");
    assert_eq!(
        c.check_version(Err(CmdError::Timeout)),
        Err(FetchError::Command(CmdError::Timeout))
    );
}

#[test]
fn version_is_normalized() {
    assert_eq!(normalize_version(" v1.4 "), "1.4");
    assert_eq!(normalize_version("version"), "version");
    let c = channel("release");
    assert_eq!(c.check_version(Ok("V2".to_string())), Ok("2".to_string()));
}

#[test]
fn full_chance_is_never_skipped() {
    let p = package("a", CHANCE_SCALE, vec![channel("release")]);
    let fb = Some(vec![vc("release", "1.0")]);
    for sample in [1, 500_000, CHANCE_SCALE] {
        let r = drive(&p, false, &fb, sample, &|_| Ok("2.0".to_string()));
        assert!(matches!(r, Ok(FetchOutcome::Fetched(_))));
    }
    for _ in 0..20 {
        assert!(matches!(p.begin_fetch(false, &fb), FetchStep::Resolve(0, _)));
    }
}

#[test]
fn zero_chance_with_fallback_is_always_skipped() {
    let p = package("b", 0, vec![channel("release")]);
    let fb = Some(vec![vc("release", "1.0.0")]);
    for sample in [1, 2, CHANCE_SCALE] {
        match p.start_fetch(false, &fb, sample) {
            FetchStep::Done(Ok(FetchOutcome::Skipped(v))) => {
                assert_eq!(pairs(&v), vec![("release".to_string(), "1.0.0".to_string())])
            }
            other => panic!("not skipped: {other:?}"),
        }
    }
    for _ in 0..20 {
        assert!(matches!(p.begin_fetch(false, &fb), FetchStep::Done(Ok(FetchOutcome::Skipped(_)))));
    }
}

#[test]
fn forced_or_partial_fallback_is_fetched() {
    let p = package("b", 0, vec![channel("release"), channel("commit")]);
    let full = Some(vec![vc("release", "1"), vc("commit", "abc")]);
    let partial = Some(vec![vc("release", "1")]);
    assert!(p.has_fallback_versions(&full));
    assert!(!p.has_fallback_versions(&partial));
    assert!(!p.has_fallback_versions(&None));
    assert!(matches!(p.start_fetch(true, &full, CHANCE_SCALE), FetchStep::Resolve(0, _)));
    assert!(matches!(p.start_fetch(false, &partial, CHANCE_SCALE), FetchStep::Resolve(0, _)));
}

#[test]
fn sample_at_or_below_chance_fetches() {
    let p = package("c", 300_000, vec![channel("release")]);
    let fb = Some(vec![vc("release", "1")]);
    assert!(matches!(p.start_fetch(false, &fb, 300_000), FetchStep::Resolve(0, _)));
    assert!(matches!(p.start_fetch(false, &fb, 300_001), FetchStep::Done(Ok(FetchOutcome::Skipped(_)))));
}

#[test]
fn failure_falls_back_on_earlier_versions() {
    let mut second = channel("commit");
    second.expected = Some(COMMIT_PATTERN.to_string());
    let p = package("d", CHANCE_SCALE, vec![channel("release"), second]);
    let fb = Some(vec![vc("release", "0.9"), vc("commit", "aaaa")]);
    let r = drive(&p, false, &fb, 1, &|_| Ok("1.0".to_string()));
    match r {
        Ok(FetchOutcome::Failed(v)) => assert_eq!(pairs(&v), pairs(fb.as_ref().unwrap())),
        other => panic!("unexpected {other:?}"),
    }
    assert_eq!(
        drive(&p, false, &None, 1, &|_| Err(CmdError::EmptyStdout)).err(),
        Some(FetchError::MissingFallback)
    );
}

#[test]
fn disabled_channels_are_passed_over() {
    let mut off = channel("unstable");
    off.enabled = false;
    let p = package("e", CHANCE_SCALE, vec![off, channel("release"), channel("7")]);
    let r = drive(&p, false, &None, 1, &|c| Ok(format!("{}.1", if c.name == "7" { "7" } else { "3" })));
    match r {
        Ok(FetchOutcome::Fetched(v)) => assert_eq!(
            pairs(&v),
            vec![("release".to_string(), "3.1".to_string()), ("7".to_string(), "7.1".to_string())]
        ),
        other => panic!("unexpected {other:?}"),
    }
    let none = package("f", CHANCE_SCALE, vec![]);
    assert!(matches!(none.start_fetch(false, &None, 1), FetchStep::Done(Ok(FetchOutcome::Fetched(v))) if v.is_empty()));
}

#[test]
fn end_to_end_run() {
    let a = package("A", CHANCE_SCALE, vec![channel("release")]);
    let b = package("B", 0, vec![channel("release")]);
    let fb_b = Some(vec![vc("release", "1.0.0")]);
    let oa = drive(&a, false, &None, CHANCE_SCALE, &|_| Ok("2.0.0".to_string()));
    let ob = drive(&b, false, &fb_b, CHANCE_SCALE, &|_| Ok("9.9.9".to_string()));
    let packages = vec![b, a];
    let (m, c) = merge_outcomes(&packages, vec![ob, oa]).unwrap();
    let names: Vec<&str> = m.iter().map(|e| e.package.as_str()).collect();
    assert_eq!(names, vec!["A", "B"]);
    assert_eq!(pairs(&m[0].versions), vec![("release".to_string(), "2.0.0".to_string())]);
    assert_eq!(pairs(&m[1].versions), vec![("release".to_string(), "1.0.0".to_string())]);
    assert_eq!(c, RunCounters { total: 2, failed: 0, skipped: 1, checked: 1 });
}

#[test]
fn merge_sorts_and_counts() {
    let packages: Vec<Package> =
        ["py/build", "glibc", "tree", "iana-etc"].iter().map(|n| package(n, 0, vec![])).collect();
    let outcomes = vec![
        Ok(FetchOutcome::Failed(vec![vc("release", "1")])),
        Ok(FetchOutcome::Skipped(vec![])),
        Ok(FetchOutcome::Fetched(vec![vc("release", "2")])),
        Ok(FetchOutcome::Failed(vec![])),
    ];
    let (m, c) = merge_outcomes(&packages, outcomes).unwrap();
    let names: Vec<&str> = m.iter().map(|e| e.package.as_str()).collect();
    assert_eq!(names, vec!["glibc", "iana-etc", "py/build", "tree"]);
    assert_eq!(pairs(&m[2].versions), vec![("release".to_string(), "1".to_string())]);
    assert_eq!(c, RunCounters { total: 4, failed: 2, skipped: 1, checked: 1 });
    assert_eq!(c.total, c.checked + c.failed + c.skipped);
}

#[test]
fn merge_reports_missing_fallback() {
    let packages = vec![package("a", 0, vec![]), package("b", 0, vec![])];
    let outcomes = vec![Ok(FetchOutcome::Fetched(vec![])), Err(FetchError::MissingFallback)];
    assert_eq!(merge_outcomes(&packages, outcomes).err(), Some(FetchError::MissingFallback));
}

#[test]
fn merge_of_nothing() {
    let (m, c) = merge_outcomes(&vec![], vec![]).unwrap();
    assert!(m.is_empty());
    assert_eq!(c, RunCounters { total: 0, failed: 0, skipped: 0, checked: 0 });
}

#[test]
fn listings_text() {
    let v = vec![vc("release", "1.2"), vc("commit", "abc")];
    assert_eq!(versions_text(&v), "release\t1.2\ncommit\tabc\n");
    let m = vec![
        PackageVersions { package: "a".to_string(), versions: v },
        PackageVersions { package: "b/c".to_string(), versions: vec![vc("release", "3")] },
    ];
    assert_eq!(all_text(&m), "a\trelease\t1.2\na\tcommit\tabc\nb/c\trelease\t3\n");
    assert_eq!(all_text(&vec![]), "");
}

#[test]
fn pool_sizes() {
    assert_eq!(pool_size(Some(5), 8), 5);
    assert_eq!(pool_size(None, 8), 16);
    assert_eq!(pool_size(None, 0), 2);
    assert_eq!(pool_size(None, usize::MAX), usize::MAX);
    assert_eq!(worker_count(Some(3)), 3);
    assert!(worker_count(None) >= 2);
}

#[test]
fn defaults_are_filled_in() {
    let mut p = Package {
        name: "py/build".to_string(),
        config: PackageConfig {
            upstream: String::new(),
            chance: CHANCE_SCALE,
            channels: vec![channel("release"), channel("commit"), channel("42")],
        },
    };
    p.config.channels[2].fetch = "echo 42.1".to_string();
    assert_eq!(p.set_defaults(), Ok(()));
    assert_eq!(p.config.upstream, "gh:build/build");
    let c = &p.config.channels;
    assert_eq!(c[0].fetch, "defgitrelease");
    assert_eq!(c[1].fetch, "defgitcommit");
    assert_eq!(c[0].expected.as_deref(), Some(RELEASE_PATTERN));
    assert_eq!(c[1].expected.as_deref(), Some(COMMIT_PATTERN));
    assert_eq!(c[2].expected.as_deref(), Some("^42(\\.[0-9]+)*$"));
    assert_eq!(c[2].fetch, "echo 42.1");
}

#[test]
fn numeric_channel_without_fetch_on_git_fails() {
    let mut p = package("n", CHANCE_SCALE, vec![channel("release"), channel("42")]);
    assert_eq!(p.set_defaults(), Err(SetupError::MissingFetch(1)));
    assert_eq!(p.config.channels[0].fetch, "");
    assert_eq!(p.config.upstream, "gh:x/y");
}

#[test]
fn unknown_channel_name_has_no_expected() {
    let mut c = channel("nightly");
    c.fetch = "echo 1".to_string();
    let mut p = package("n", CHANCE_SCALE, vec![c]);
    assert_eq!(p.set_defaults(), Err(SetupError::MissingExpected(0)));
}

#[test]
fn upstream_defaults_by_kind() {
    let mut arch = channel("release");
    arch.upstream = Some("https://archlinux.org/packages/core/x86_64/tree/".to_string());
    let mut curl = channel("unstable");
    curl.upstream = Some("https://ftp.gnu.org/gnu/tar/?C=M;O=D".to_string());
    let mut p = package("m", CHANCE_SCALE, vec![arch, curl]);
    assert_eq!(p.set_defaults(), Ok(()));
    assert_eq!(p.config.channels[0].fetch, "archver");
    assert_eq!(p.config.channels[1].fetch, "defcurlunstable");
}

#[test]
fn upstream_kinds() {
    assert_eq!(UpstreamType::from_str("https://archlinux.org/x"), UpstreamType::Arch);
    assert_eq!(UpstreamType::from_str("https://a.org/?C=M;O=D"), UpstreamType::Curl);
    assert_eq!(UpstreamType::from_str("https://a.org/?C=M"), UpstreamType::Git);
    assert_eq!(UpstreamType::from_str(""), UpstreamType::Empty);
    assert_eq!(UpstreamType::from_str("gh:a/b"), UpstreamType::Git);
}

#[test]
fn command_environment() {
    let mut c = channel("release");
    c.fetch = "defgitrelease".to_string();
    let p = package("py/build", CHANCE_SCALE, vec![]);
    let env = c.command_env(&p, &ctx());
    let get = |k: &str| env.iter().find(|(a, _)| a == k).map(|(_, b)| b.clone());
    assert_eq!(env.len(), 9);
    assert_eq!(get("GIT_TERMINAL_PROMPT").as_deref(), Some("false"));
    assert_eq!(get("PACKAGE_ROOT").as_deref(), Some("/srv/vat/p/py/build"));
    assert_eq!(get("NO_CACHE").as_deref(), Some("false"));
    assert_eq!(get("name").as_deref(), Some("build"));
    assert_eq!(get("upstream").as_deref(), Some("gh:x/y"));
    c.upstream = Some("gl:o/r".to_string());
    let env = c.command_env(&p, &ctx());
    assert_eq!(env[8], ("upstream".to_string(), "gl:o/r".to_string()));
    assert_eq!(
        c.fetch_command(&ctx()),
        vec!["bash", "-c", ". /srv/vat/sh/lib.env && defgitrelease"]
    );
}

#[test]
fn package_paths_and_channels() {
    let p = package("py/build", CHANCE_SCALE, vec![channel("release"), channel("commit")]);
    assert_eq!(Package::dir("/r", "py/build"), "/r/p/py/build");
    assert_eq!(p.get_package_path(), "p/py/build");
    assert_eq!(p.get_channel("commit").map(|c| c.name.as_str()), Some("commit"));
    assert!(p.get_channel("unstable").is_none());
}

#[test]
fn text_helpers() {
    assert_eq!(trim_text("\u{3000} a b\n"), "a b");
    assert_eq!(trim_text(" \t"), "");
    assert!(text_contains("abcdef", "cde"));
    assert!(!text_contains("abc", "abcd"));
    assert!(text_contains("abc", ""));
    assert_eq!(basename("a/b/c"), "c");
    assert_eq!(basename("tree"), "tree");
    assert!(text_lt("glibc", "tree"));
    assert!(text_lt("py", "py/build"));
    assert!(!text_lt("b", "a"));
    assert!(!text_lt("a", "a"));
    assert!(text_is_u64("18446744073709551615"));
    assert!(!text_is_u64("18446744073709551616"));
    assert!(text_is_u64("+7"));
    assert!(!text_is_u64("+"));
    assert!(!text_is_u64("-1"));
    assert!(!text_is_u64(""));
}

#[test]
fn config_defaults() {
    let c = Config::default();
    assert_eq!(c.fetch_timeout, 30);
    assert_eq!(c.cache_timeout, 3600);
    assert_eq!(c.shortforms.len(), 13);
    assert_eq!(default_shortforms()[1].short, "gh:");
    assert_eq!(default_shortforms()[12].full, "https://git.sr.ht/~");
    let s = Shortform::new("x:", "https://x/");
    assert_eq!((s.short.as_str(), s.full.as_str()), ("x:", "https://x/"));
}

#[test]
fn error_messages() {
    assert_eq!(CmdError::OutputInStderr.message(), "output in stderr");
    assert_eq!(CmdError::Timeout.message(), "timeout");
}

#[test]
fn run_count_moves_on() {
    assert_eq!(next_run_count(" 41\n"), 42);
    assert_eq!(next_run_count(""), 1);
    assert_eq!(next_run_count("junk"), 1);
    assert_eq!(next_run_count("18446744073709551615"), u64::MAX);
}

#[test]
fn cache_expiry() {
    assert!(cache_expired(100, 3801, 3600));
    assert!(!cache_expired(100, 3700, 3600));
    assert!(!cache_expired(5000, 100, 3600));
}

#[test]
fn parses_u64_values() {
    assert_eq!(text_to_u64("0042"), Some(42));
    assert_eq!(text_to_u64("+9"), Some(9));
    assert_eq!(text_to_u64("4 2"), None);
}

#[test]
fn packages_sort_by_name() {
    let names = ["tree", "py/build", "glibc", "py", "iana-etc", "glibc"];
    let packages: Vec<Package> = names.iter().map(|n| package(n, 0, vec![])).collect();
    let sorted: Vec<String> = sort_packages(packages).into_iter().map(|p| p.name).collect();
    assert_eq!(sorted, vec!["glibc", "glibc", "iana-etc", "py", "py/build", "tree"]);
    assert!(sort_packages(vec![]).is_empty());
}
