use warm_drive_cache::cache_ops::{format_bytes, format_bytes_compact, format_max_file_size_limit};
use warm_drive_cache::config::{
    choose_source, clamp_display_width, default_checksum, default_initial_secs,
    default_max_file_size_bytes, default_max_threads, default_max_wait_secs,
    default_min_file_size_bytes, default_retry_delays, default_version, default_width,
    load_from_path, max_file_size_from_u64, min_file_size_from_i64, parse_bool,
    parse_non_negative_size, parse_size_expr, source_filename_max_chars, unit_multiplier,
    validate_effective, Config, ConfigFile, ConfigSource, IgnoreOptions, MountWait, PathPair,
    WalkOptions, DISPLAY_WIDTH_DEFAULT, DISPLAY_WIDTH_MAX, DISPLAY_WIDTH_MIN,
    SOURCE_FILENAME_BASE_CHARS,
};
use warm_drive_cache::worker::should_read_file_contents;

const SHOWN: &str = "warm-drive-cache.json";

fn pair(sync: &str, cache: &str) -> PathPair {
    PathPair { sync: sync.to_string(), cache: cache.to_string(), service: None }
}

fn config_with(paths: Vec<PathPair>, walk: WalkOptions) -> Config {
    Config {
        version: default_version(),
        paths,
        walk,
        ignore: IgnoreOptions::default(),
        mount_wait: MountWait::default(),
    }
}

fn one_pair(walk: WalkOptions) -> Config {
    config_with(vec![pair("/abs/one", "/cache/abs")], walk)
}

fn load(cfg: Config) -> Result<Config, String> {
    load_from_path(SHOWN, ConfigFile::Parsed(cfg))
}

#[test]
fn format_bytes_under_1_kib_is_bytes_only() {
    assert_eq!(format_bytes(0), "0 Bytes");
    assert_eq!(format_bytes(1), "1 Bytes");
    assert_eq!(format_bytes(1023), "1023 Bytes");
}

#[test]
fn format_bytes_exact_kib() {
    // 65536 = 64 * 1024
    assert_eq!(format_bytes(65_536), "64KiB (65536 Bytes)");
    assert_eq!(format_bytes(1024), "1KiB (1024 Bytes)");
}

#[test]
fn format_bytes_fractional_kib_and_mib() {
    assert_eq!(format_bytes(494_072), "482.49KiB (494072 Bytes)");
    assert_eq!(format_bytes(2_724_922), "2.60MiB (2724922 Bytes)");
    assert_eq!(format_bytes(1024 * 1024), "1MiB (1048576 Bytes)");
}

#[test]
fn format_bytes_gib_and_tib() {
    let gib = 1024u64 * 1024 * 1024;
    assert_eq!(format_bytes(gib), "1GiB (1073741824 Bytes)");
    let tib = gib * 1024;
    assert_eq!(format_bytes(tib), "1TiB (1099511627776 Bytes)");
}

#[test]
fn format_max_file_size_specials() {
    assert!(format_max_file_size_limit(-1).contains("metadata only"));
    assert!(format_max_file_size_limit(0).contains("all files"));
    assert_eq!(format_max_file_size_limit(65_536), "64KiB (65536 Bytes)");
}

#[test]
fn format_bytes_extremes() {
    assert_eq!(format_bytes(12_939_427), "12.34MiB (12939427 Bytes)");
    assert_eq!(format_bytes(1u64 << 50), "1PiB (1125899906842624 Bytes)");
    assert_eq!(format_bytes(u64::MAX), "16384.00PiB (18446744073709551615 Bytes)");
    assert_eq!(format_max_file_size_limit(-7), "invalid (-7)");
    assert_eq!(format_bytes_compact(8), "8B");
}

#[test]
fn two_decimals_agree_with_floating_point() {
    let mut n: u64 = 1025;
    while n < 1u64 << 44 {
        let mut value = n as f64;
        let mut unit = 0;
        value /= 1024.0;
        while value >= 1024.0 {
            value /= 1024.0;
            unit += 1;
        }
        let name = ["KiB", "MiB", "GiB", "TiB"][unit];
        if (value - value.round()).abs() >= 1e-9 {
            assert_eq!(format_bytes(n), format!("{value:.2}{name} ({n} Bytes)"));
        }
        n = n * 3 / 2 + 7;
    }
}

#[test]
fn config_load_from_tempfile_and_validation() {
    let mut good = config_with(
        vec![pair("/abs/one", "/cache/abs"), pair("/abs/two", "/cache/abs")],
        WalkOptions::default(),
    );
    good.ignore = IgnoreOptions { names: vec![".git".to_string()] };
    let c = load(good).expect("load good config");
    assert_eq!(c.paths.len(), 2);
    assert_eq!(c.paths[0].sync, "/abs/one");
    assert_eq!(c.paths[0].cache, "/cache/abs");
    assert_eq!(c.ignore.names, vec![".git".to_string()]);

    // Relative path must be rejected
    let relative = config_with(vec![pair("relative/path", "/cache/foo")], WalkOptions::default());
    let err = load(relative).unwrap_err();
    assert!(err.contains("relative"), "expected relative rejection: {}", err);

    // Bad JSON
    let cause = "key must be a string at line 1 column 3";
    let err = load_from_path(SHOWN, ConfigFile::Malformed(cause.to_string())).unwrap_err();
    assert!(err.contains("invalid JSON"), "{}", err);
    assert_eq!(err, format!("invalid JSON in {SHOWN}: {cause}"));
}

#[test]
fn config_missing_file_returns_defaults_but_empty_paths() {
    let c = load_from_path(
        "/this/path/does/not/exist/ever/warm-drive-cache.json",
        ConfigFile::Missing,
    )
    .expect("missing file yields default struct");
    assert!(c.paths.is_empty());
    assert_eq!(c.mount_wait.initial_secs, 3);
    assert!(c.walk.max_depth.is_none());
    assert_eq!(c.walk.min_file_size_bytes, 0);
    assert_eq!(c.walk.max_file_size_bytes, 0);
    assert_eq!(c.walk.max_threads, 8);
    assert_eq!(c.walk.width, DISPLAY_WIDTH_DEFAULT);
}

#[test]
fn config_defaults_one_by_one() {
    assert_eq!(default_version(), 1);
    assert_eq!(default_min_file_size_bytes(), 0);
    assert_eq!(default_max_file_size_bytes(), 0);
    assert_eq!(default_max_threads(), 8);
    assert!(default_checksum());
    assert_eq!(default_width(), 80);
    assert_eq!(default_initial_secs(), 3);
    assert_eq!(default_retry_delays(), vec![3, 5, 8]);
    assert_eq!(default_max_wait_secs(), 30);
}

#[test]
fn display_width_defaults_and_clamps() {
    assert_eq!(clamp_display_width(0), DISPLAY_WIDTH_MIN);
    assert_eq!(clamp_display_width(50), DISPLAY_WIDTH_MIN);
    assert_eq!(clamp_display_width(80), 80);
    assert_eq!(clamp_display_width(120), 120);
    assert_eq!(clamp_display_width(200), DISPLAY_WIDTH_MAX);
    assert_eq!(clamp_display_width(250), DISPLAY_WIDTH_MAX);
    assert_eq!(source_filename_max_chars(50), SOURCE_FILENAME_BASE_CHARS);
    assert_eq!(source_filename_max_chars(80), SOURCE_FILENAME_BASE_CHARS);
    assert_eq!(source_filename_max_chars(120), 80);
    assert_eq!(source_filename_max_chars(200), 160);
    assert_eq!(source_filename_max_chars(999), 160);

    let narrow = one_pair(WalkOptions { width: 50, ..WalkOptions::default() });
    let c = load(narrow).expect("width below 80 clamps");
    assert_eq!(c.walk.width, DISPLAY_WIDTH_MIN);
    assert_eq!(source_filename_max_chars(c.walk.width), SOURCE_FILENAME_BASE_CHARS);

    let wide = one_pair(WalkOptions { width: 250, ..WalkOptions::default() });
    let c = load(wide).expect("width above 200 clamps");
    assert_eq!(c.walk.width, DISPLAY_WIDTH_MAX);
    assert_eq!(source_filename_max_chars(c.walk.width), 160);

    let kept = one_pair(WalkOptions { width: 120, ..WalkOptions::default() });
    let c = load(kept).expect("in-range width kept");
    assert_eq!(c.walk.width, 120);
    assert_eq!(source_filename_max_chars(c.walk.width), 80);
}

#[test]
fn config_rejects_min_greater_than_max_file_size() {
    let err = load(one_pair(WalkOptions {
        min_file_size_bytes: 100,
        max_file_size_bytes: 50,
        ..WalkOptions::default()
    }))
    .unwrap_err();
    assert!(
        err.contains("min_file_size_bytes") && err.contains("max_file_size_bytes"),
        "expected size range error: {}",
        err
    );
}

#[test]
fn config_accepts_max_file_size_specials() {
    for max in [-1i64, 0, 65536] {
        let c = load(one_pair(WalkOptions {
            max_file_size_bytes: max,
            ..WalkOptions::default()
        }))
        .expect("load");
        assert_eq!(c.walk.max_file_size_bytes, max);
    }
}

#[test]
fn config_rejects_other_negative_max_file_size() {
    let err = load(one_pair(WalkOptions { max_file_size_bytes: -2, ..WalkOptions::default() }))
        .unwrap_err();
    assert!(
        err.contains("configuration error") && err.contains("max_file_size_bytes"),
        "expected invalid max error: {}",
        err
    );
}

#[test]
fn parse_size_expr_units_and_shorthand() {
    assert_eq!(parse_size_expr("65536").unwrap(), 65536);
    assert_eq!(parse_size_expr("64KiB").unwrap(), 65536);
    assert_eq!(parse_size_expr("64kib").unwrap(), 65536);
    assert_eq!(parse_size_expr("64K").unwrap(), 65536);
    assert_eq!(parse_size_expr("64k").unwrap(), 65536);
    assert_eq!(parse_size_expr("64 KB").unwrap(), 65536);
    assert_eq!(parse_size_expr("1MiB").unwrap(), 1024 * 1024);
    assert_eq!(parse_size_expr("1mb").unwrap(), 1024 * 1024);
    assert_eq!(parse_size_expr("1M").unwrap(), 1024 * 1024);
    assert_eq!(parse_size_expr("512B").unwrap(), 512);
    assert_eq!(parse_size_expr("512b").unwrap(), 512);
    assert_eq!(parse_size_expr("-1").unwrap(), -1);
    assert!(parse_size_expr("-2").is_err());
    assert!(parse_size_expr("10XB").is_err());
    for bad in ["1.5KiB", "12.5", "1.0MiB", ".5K"] {
        let err = parse_size_expr(bad).unwrap_err();
        assert!(
            err.contains("whole number") || err.contains("fraction"),
            "expected fraction rejection for {bad}: {err}"
        );
    }
}

#[test]
fn sizes() {
    for (s, n) in [("-1", -1), ("0", 0), ("2mb", 2 * 1024 * 1024)] {
        assert_eq!(parse_size_expr(s).unwrap(), n)
    }
    assert!(parse_size_expr("1.5KiB").is_err());
    assert!(parse_size_expr("12.5").is_err());
    assert!(parse_size_expr("-2").is_err());
    assert!(parse_size_expr("999999999999999999999999P").is_err());
    assert!(should_read_file_contents(5, 2, 8));
}

#[test]
fn booleans_all_cases() {
    for s in ["TRUE", "True", "tRuE", "YES", "y", "Y"] {
        assert_eq!(parse_bool(s), Ok(true))
    }
    for s in ["FALSE", "False", "fAlSe", "NO", "n", "N"] {
        assert_eq!(parse_bool(s), Ok(false))
    }
}

#[test]
fn boolean_message_quotes_the_input() {
    assert_eq!(
        parse_bool("may\"be").unwrap_err(),
        "invalid boolean \"may\\\"be\"; use TRUE/YES/Y or FALSE/NO/N"
    );
    assert_eq!(parse_bool(" Yes\t"), Ok(true));
}

#[test]
fn every_size_fault_has_its_message() {
    let message = |s: &str| parse_size_expr(s).unwrap_err();
    assert_eq!(message("  "), "size string is empty");
    assert_eq!(message(" - "), "invalid size expression \" - \"");
    assert_eq!(
        message("1.5KiB"),
        "configuration error: size \"1.5KiB\" must be a whole number of bytes (fractions are not allowed; use 1536 or \"2KiB\", not \"1.5KiB\")"
    );
    assert_eq!(
        message("KiB"),
        "configuration error: size \"KiB\" must start with a number (e.g. 65536, \"64KiB\", \"64K\", \"1MB\")"
    );
    assert_eq!(
        message("18446744073709551616"),
        "configuration error: cannot parse numeric part of size \"18446744073709551616\""
    );
    assert_eq!(
        message("-1K"),
        "configuration error: negative size \"-1K\" is invalid. Only -1 (metadata only) is allowed as a negative value for max_file_size_bytes"
    );
    assert_eq!(
        message("10 XB"),
        "unknown size unit \"XB\" (use B, K/KB/KiB, M/MB/MiB, G/GB/GiB, T/TB/TiB, P/PB/PiB; case-insensitive; bare K means KiB)"
    );
    assert_eq!(
        message("8192P"),
        "configuration error: size \"8192P\" exceeds maximum representable bytes"
    );
    assert_eq!(parse_size_expr("8191P"), Ok(8191i64 << 50));
    assert_eq!(parse_size_expr("+ 3 k"), Ok(3072));
    assert_eq!(
        parse_non_negative_size("-1").unwrap_err(),
        "configuration error: min_file_size_bytes cannot be negative (got \"-1\")"
    );
    assert_eq!(parse_non_negative_size("2GiB"), Ok(2u64 << 30));
}

#[test]
fn every_unit_in_every_case() {
    for (k, units) in [
        (0, vec!["", "b", "B"]),
        (10, vec!["k", "K", "kb", "KB", "KiB", "kIb"]),
        (20, vec!["M", "mB", "MIB"]),
        (30, vec!["g", "GB", "gib"]),
        (40, vec!["T", "tb", "TiB"]),
        (50, vec!["P", "Pb", "PiB"]),
    ] {
        for unit in units {
            assert_eq!(unit_multiplier(unit), Ok(1u64 << k));
            assert_eq!(parse_size_expr(&format!(" 7 {unit} ")), Ok(7i64 << k));
        }
    }
}

#[test]
fn config_rejects_empty_retry_delays() {
    let mut cfg = one_pair(WalkOptions::default());
    cfg.mount_wait.retry_delays_secs = vec![];
    let err = load(cfg).unwrap_err();
    assert!(
        err.contains("retry_delays_secs"),
        "expected empty retry list rejection: {err}"
    );
}

#[test]
fn config_accepts_string_size_units() {
    let c = load(one_pair(WalkOptions {
        min_file_size_bytes: parse_non_negative_size("1K").unwrap(),
        max_file_size_bytes: parse_size_expr("64KiB").unwrap(),
        ..WalkOptions::default()
    }))
    .expect("load unit strings");
    assert_eq!(c.walk.min_file_size_bytes, 1024);
    assert_eq!(c.walk.max_file_size_bytes, 65536);
}

#[test]
fn config_accepts_string_minus_one() {
    let c = load(one_pair(WalkOptions {
        max_file_size_bytes: parse_size_expr("-1").unwrap(),
        ..WalkOptions::default()
    }))
    .expect("load -1 string");
    assert_eq!(c.walk.max_file_size_bytes, -1);
}

#[test]
fn config_rejects_invalid_max_threads() {
    for max_threads in [0, 100] {
        let err =
            load(one_pair(WalkOptions { max_threads, ..WalkOptions::default() })).unwrap_err();
        assert!(err.contains("max_threads"), "expected max_threads error: {}", err);
    }
}

#[test]
fn config_faults_one_by_one() {
    let fault = |p: PathPair| load(config_with(vec![p], WalkOptions::default())).unwrap_err();
    assert_eq!(fault(pair("", "/c")), "empty sync path string in config");
    assert_eq!(fault(pair("/s", "")), "empty cache path string in config");
    assert!(fault(pair("/s", "c")).starts_with("cache path \"c\" is relative."));
    assert_eq!(
        fault(pair("/s\u{1}", "/c")),
        "sync path \"/s\\u{1}\" contains invalid control characters"
    );
    assert!(load(config_with(vec![pair("/s\tx", "/c")], WalkOptions::default())).is_ok());
    for (sync, cache) in [
        ("/a", "/a"),
        ("/a", "/a/b"),
        ("/a/b", "/a"),
        ("/mnt//g", "/mnt/g"),
        ("/mnt/./g/", "/mnt/g/x"),
        ("/", "/c"),
    ] {
        assert_eq!(
            fault(pair(sync, cache)),
            format!(
                "cache \"{cache}\" and sync \"{sync}\" must not overlap or contain each other. Deletion happens ONLY on cache; traversal ONLY on sync."
            )
        );
    }
    for (sync, cache) in [("/mnt/g", "/mnt/g-cache"), ("/mnt/gg", "/mnt/g"), ("/a/b", "/a/c")] {
        assert!(
            load(config_with(vec![pair(sync, cache)], WalkOptions::default())).is_ok(),
            "{sync} {cache}"
        );
    }
    let service = |s: &str| PathPair { service: Some(s.to_string()), ..pair("/s", "/c") };
    assert_eq!(
        fault(service("  ")),
        "paths[].service is empty; omit the field or set a unit name"
    );
    assert_eq!(
        fault(service("a/b.service")),
        "service name \"a/b.service\" looks invalid (no path separators or control characters)"
    );
    assert!(fault(service("a\u{7}b")).contains("looks invalid"));
    assert!(load(config_with(vec![], WalkOptions::default()))
        .unwrap_err()
        .contains("has empty \"paths\" array"));
    let many: Vec<PathPair> = (0..129).map(|_| pair("/s", "/c")).collect();
    assert_eq!(
        load(config_with(many, WalkOptions::default())).unwrap_err(),
        "too many paths in config (max 128)"
    );
    assert_eq!(
        load(one_pair(WalkOptions { max_depth: Some(0), ..WalkOptions::default() })).unwrap_err(),
        "walk.max_depth 0 is not useful (would only visit the roots themselves)"
    );
    assert_eq!(
        load_from_path(SHOWN, ConfigFile::Unreadable("denied".to_string())).unwrap_err(),
        "cannot read config warm-drive-cache.json: denied"
    );
}

#[test]
fn json_numbers_for_sizes() {
    assert_eq!(min_file_size_from_i64(12), Ok(12));
    assert_eq!(
        min_file_size_from_i64(-3).unwrap_err(),
        "configuration error: walk.min_file_size_bytes cannot be negative (got -3)"
    );
    assert_eq!(max_file_size_from_u64(9), Ok(9));
    assert_eq!(
        max_file_size_from_u64(1 << 63).unwrap_err(),
        "configuration error: walk.max_file_size_bytes exceeds i64 range"
    );
}

#[test]
fn effective_configuration_is_checked_again() {
    let with = |walk: WalkOptions| validate_effective(&one_pair(walk));
    assert_eq!(with(WalkOptions::default()), Ok(()));
    assert_eq!(
        with(WalkOptions { max_threads: 65, ..WalkOptions::default() }).unwrap_err(),
        "walk.max_threads must be between 1 and 64 (got 65)"
    );
    assert_eq!(
        with(WalkOptions { max_file_size_bytes: -2, ..WalkOptions::default() }).unwrap_err(),
        "walk.max_file_size_bytes (-2) is invalid; use -1, 0, or a positive size"
    );
    assert_eq!(
        with(WalkOptions {
            min_file_size_bytes: 9,
            max_file_size_bytes: 8,
            ..WalkOptions::default()
        })
        .unwrap_err(),
        "walk.min_file_size_bytes (9) cannot be greater than walk.max_file_size_bytes (8)"
    );
}

#[test]
fn configuration_is_looked_for_in_order() {
    let env = || Some("/etc/profile.json".to_string());
    assert!(matches!(choose_source(true, env(), true, None), ConfigSource::RunDirectory));
    match choose_source(false, env(), true, None) {
        ConfigSource::Environment(p) => assert_eq!(p, "/etc/profile.json"),
        other => panic!("{other:?}"),
    }
    assert!(matches!(
        choose_source(false, Some(String::new()), true, None),
        ConfigSource::ProjectDirectory
    ));
    match choose_source(false, None, false, Some("/home/user".to_string())) {
        ConfigSource::HomeFallback(p) => {
            assert_eq!(p, "/home/user/.config/warm-drive-cache/warm-drive-cache.json")
        }
        other => panic!("{other:?}"),
    }
    match choose_source(false, None, false, None) {
        ConfigSource::HomeFallback(p) => {
            assert_eq!(p, "./.config/warm-drive-cache/warm-drive-cache.json")
        }
        other => panic!("{other:?}"),
    }
}

#[test]
fn a_loaded_configuration_is_effective() {
    let loaded = load(one_pair(WalkOptions { width: 3, ..WalkOptions::default() })).unwrap();
    assert_eq!(validate_effective(&loaded), Ok(()));
    let missing = load_from_path(SHOWN, ConfigFile::Missing).unwrap();
    assert_eq!(validate_effective(&missing), Ok(()));
}
