//! Configuration: size and boolean vocabulary, defaults, validation and overrides.
//!
//! Sizes are whole byte counts, written as bare numbers or with a binary unit
//! (`64KiB`, `64K`, `1MB`); fractions are rejected. A configuration is accepted
//! only if every sync and cache path is absolute and neither lies at or below the
//! other, so that emptying a cache does not reach live data.

use vstd::prelude::*;
use vstd::slice::slice_subrange;
use vstd::string::StringExecFns;

use crate::native;
use crate::native::NativePath;
use crate::text;
use crate::text::{
    char_is_control, chars_of, debug_string, i64_text, slice_has, slice_is, slice_lower,
    slice_number, slice_strip_left, slice_trim, string_of, u64_text, usize_text, CharClass,
};

verus! {

/// The truth value that a word stands for, in any mixture of cases and with
/// surrounding white space ignored.
pub open spec fn bool_word(s: Seq<char>) -> Option<bool> {
    let w = text::lower_all(text::trim(s));
    if w == "true"@ || w == "yes"@ || w == "y"@ {
        Some(true)
    } else if w == "false"@ || w == "no"@ || w == "n"@ {
        Some(false)
    } else {
        None
    }
}

/// The message about a word that is no truth value.
pub open spec fn bool_fault_text(input: Seq<char>) -> Seq<char> {
    "invalid boolean "@ + text::debug_text(input) + "; use TRUE/YES/Y or FALSE/NO/N"@
}

/// Parse the boolean vocabulary shared by JSON configuration and CLI overrides.
pub fn parse_bool(input: &str) -> (r: Result<bool, String>)
    ensures
        match r {
            Ok(b) => bool_word(input@) == Some(b),
            Err(m) => bool_word(input@) is None && m@ == bool_fault_text(input@),
        },
{
    let all = chars_of(input);
    let w = slice_lower(slice_trim(all.as_slice()));
    let w = w.as_slice();
    if slice_is(w, "true") || slice_is(w, "yes") || slice_is(w, "y") {
        return Ok(true);
    }
    if slice_is(w, "false") || slice_is(w, "no") || slice_is(w, "n") {
        return Ok(false);
    }
    let mut m = "invalid boolean ".to_string();
    m.append(debug_string(input).as_str());
    m.append("; use TRUE/YES/Y or FALSE/NO/N");
    Err(m)
}

/// The number of bytes in one unit, in any mixture of cases: powers of 1024, with
/// no unit and `B` meaning bytes.
pub open spec fn unit_bytes(unit: Seq<char>) -> Option<nat> {
    let u = text::lower_all(text::trim(unit));
    if u == ""@ || u == "b"@ {
        Some(1)
    } else if u == "k"@ || u == "kb"@ || u == "kib"@ {
        Some(1024)
    } else if u == "m"@ || u == "mb"@ || u == "mib"@ {
        Some(1048576)
    } else if u == "g"@ || u == "gb"@ || u == "gib"@ {
        Some(1073741824)
    } else if u == "t"@ || u == "tb"@ || u == "tib"@ {
        Some(1099511627776)
    } else if u == "p"@ || u == "pb"@ || u == "pib"@ {
        Some(1125899906842624)
    } else {
        None
    }
}

/// The message about a unit that is not known.
pub open spec fn unknown_unit_text(unit: Seq<char>) -> Seq<char> {
    "unknown size unit "@ + text::debug_text(unit)
        + " (use B, K/KB/KiB, M/MB/MiB, G/GB/GiB, T/TB/TiB, P/PB/PiB; case-insensitive; bare K means KiB)"@
}

/// Multiplier for a unit suffix (case-insensitive). Binary powers of 1024.
pub fn unit_multiplier(unit: &str) -> (r: Result<u64, String>)
    ensures
        match r {
            Ok(n) => unit_bytes(unit@) == Some(n as nat),
            Err(m) => unit_bytes(unit@) is None && m@ == unknown_unit_text(unit@),
        },
{
    let all = chars_of(unit);
    let u = slice_lower(slice_trim(all.as_slice()));
    let u = u.as_slice();
    if slice_is(u, "") || slice_is(u, "b") {
        Ok(1)
    } else if slice_is(u, "k") || slice_is(u, "kb") || slice_is(u, "kib") {
        Ok(1024)
    } else if slice_is(u, "m") || slice_is(u, "mb") || slice_is(u, "mib") {
        Ok(1048576)
    } else if slice_is(u, "g") || slice_is(u, "gb") || slice_is(u, "gib") {
        Ok(1073741824)
    } else if slice_is(u, "t") || slice_is(u, "tb") || slice_is(u, "tib") {
        Ok(1099511627776)
    } else if slice_is(u, "p") || slice_is(u, "pb") || slice_is(u, "pib") {
        Ok(1125899906842624)
    } else {
        let mut m = "unknown size unit ".to_string();
        m.append(debug_string(unit).as_str());
        m.append(
            " (use B, K/KB/KiB, M/MB/MiB, G/GB/GiB, T/TB/TiB, P/PB/PiB; case-insensitive; bare K means KiB)",
        );
        Err(m)
    }
}

/// Why a size expression is rejected.
pub enum SizeFault {
    /// Nothing but white space.
    Empty,
    /// A sign with nothing behind it.
    SignOnly,
    /// A decimal point behind the leading digits.
    Fraction,
    /// No digit where the number should start.
    NoNumber,
    /// The leading digits exceed 64 bits.
    NumberTooLong,
    /// A negative value other than a bare minus one.
    Negative,
    /// A unit that is not known.
    UnknownUnit,
    /// More bytes than a signed 64-bit count holds.
    TooLarge,
}

/// How many decimal digits `s` starts with.
pub open spec fn leading_digits(s: Seq<char>) -> nat
    decreases s.len(),
{
    if s.len() > 0 && text::is_digit(s[0]) {
        1 + leading_digits(s.drop_first())
    } else {
        0
    }
}

/// A size expression is written with a minus sign.
pub open spec fn size_is_negative(input: Seq<char>) -> bool {
    let s = text::trim(input);
    s.len() > 0 && s[0] == '-'
}

/// What follows the sign of a size expression.
pub open spec fn size_body(input: Seq<char>) -> Seq<char> {
    let s = text::trim(input);
    if s.len() > 0 && (s[0] == '-' || s[0] == '+') {
        text::strip_left(s.drop_first(), CharClass::Space)
    } else {
        s
    }
}

/// The digits of a size expression.
pub open spec fn size_number(input: Seq<char>) -> Seq<char> {
    size_body(input).take(leading_digits(size_body(input)) as int)
}

/// The unit of a size expression.
pub open spec fn size_unit(input: Seq<char>) -> Seq<char> {
    text::trim(size_body(input).skip(leading_digits(size_body(input)) as int))
}

/// The byte count that a size expression denotes, or why it denotes none.
pub open spec fn size_value(input: Seq<char>) -> Result<int, SizeFault> {
    let body = size_body(input);
    let n = leading_digits(body) as int;
    let number = text::digits_value(size_number(input));
    let unit = size_unit(input);
    if text::trim(input).len() == 0 {
        Err(SizeFault::Empty)
    } else if body.len() == 0 {
        Err(SizeFault::SignOnly)
    } else if n < body.len() && body[n] == '.' {
        Err(SizeFault::Fraction)
    } else if n == 0 {
        Err(SizeFault::NoNumber)
    } else if number > u64::MAX {
        Err(SizeFault::NumberTooLong)
    } else if size_is_negative(input) {
        if number == 1 && unit.len() == 0 {
            Ok(-1)
        } else {
            Err(SizeFault::Negative)
        }
    } else {
        match unit_bytes(unit) {
            None => Err(SizeFault::UnknownUnit),
            Some(f) => if number * f > i64::MAX {
                Err(SizeFault::TooLarge)
            } else {
                Ok((number * f) as int)
            },
        }
    }
}

/// The message for a rejected size expression.
pub open spec fn size_fault_text(input: Seq<char>, fault: SizeFault) -> Seq<char> {
    let shown = text::debug_text(input);
    match fault {
        SizeFault::Empty => "size string is empty"@,
        SizeFault::SignOnly => "invalid size expression "@ + shown,
        SizeFault::Fraction => "configuration error: size "@ + shown
            + " must be a whole number of bytes (fractions are not allowed; use 1536 or \"2KiB\", not \"1.5KiB\")"@,
        SizeFault::NoNumber => "configuration error: size "@ + shown
            + " must start with a number (e.g. 65536, \"64KiB\", \"64K\", \"1MB\")"@,
        SizeFault::NumberTooLong => "configuration error: cannot parse numeric part of size "@
            + shown,
        SizeFault::Negative => "configuration error: negative size "@ + shown
            + " is invalid. Only -1 (metadata only) is allowed as a negative value for max_file_size_bytes"@,
        SizeFault::UnknownUnit => unknown_unit_text(size_unit(input)),
        SizeFault::TooLarge => "configuration error: size "@ + shown
            + " exceeds maximum representable bytes"@,
    }
}

/// A message that quotes the input between two fixed parts.
fn quoting(before: &str, input: &str, after: &str) -> (m: String)
    ensures
        m@ == before@ + text::debug_text(input@) + after@,
{
    let mut m = before.to_string();
    m.append(debug_string(input).as_str());
    m.append(after);
    m
}

/// Counts the decimal digits at the start of a text.
fn count_leading_digits(s: &[char]) -> (n: usize)
    ensures
        n == leading_digits(s@),
        n <= s@.len(),
        text::all_digits(s@.take(n as int)),
{
    let mut i: usize = 0;
    assert(s@.skip(0) == s@);
    while i < s.len() && '0' <= s[i] && s[i] <= '9'
        invariant
            i <= s.len(),
            leading_digits(s@) == i + leading_digits(s@.skip(i as int)),
            forall|j: int| 0 <= j < i ==> text::is_digit(#[trigger] s@[j]),
        decreases s.len() - i,
    {
        assert(s@.skip(i as int).drop_first() == s@.skip(i as int + 1));
        i = i + 1;
    }
    i
}

/// Parse a size expression into a signed byte count.
///
/// Accepts bare whole integers (`65536`, `-1`), whole coefficients with units
/// (`64k`, `1MiB`), and white space around and between them. Fractions are
/// rejected; `-1` with no unit is the only negative.
pub fn parse_size_expr(input: &str) -> (r: Result<i64, String>)
    ensures
        match r {
            Ok(v) => size_value(input@) == Ok::<int, SizeFault>(v as int),
            Err(m) => size_value(input@) is Err && m@ == size_fault_text(
                input@,
                size_value(input@)->Err_0,
            ),
        },
{
    let all = chars_of(input);
    let s = slice_trim(all.as_slice());
    if s.len() == 0 {
        return Err("size string is empty".to_string());
    }
    let negative = s[0] == '-';
    let body = if s[0] == '-' || s[0] == '+' {
        let rest = slice_subrange(s, 1, s.len());
        assert(rest@ == s@.drop_first());
        slice_strip_left(rest, CharClass::Space)
    } else {
        s
    };
    assert(body@ == size_body(input@));
    if body.len() == 0 {
        let mut m = "invalid size expression ".to_string();
        m.append(debug_string(input).as_str());
        return Err(m);
    }
    let n = count_leading_digits(body);
    if n < body.len() && body[n] == '.' {
        return Err(
            quoting(
                "configuration error: size ",
                input,
                " must be a whole number of bytes (fractions are not allowed; use 1536 or \"2KiB\", not \"1.5KiB\")",
            ),
        );
    }
    if n == 0 {
        return Err(
            quoting(
                "configuration error: size ",
                input,
                " must start with a number (e.g. 65536, \"64KiB\", \"64K\", \"1MB\")",
            ),
        );
    }
    let digits = slice_subrange(body, 0, n);
    assert(digits@ == size_number(input@));
    let tail = slice_subrange(body, n, body.len());
    assert(tail@ == body@.skip(n as int));
    let unit = slice_trim(tail);
    assert(unit@ == size_unit(input@));
    let number = match slice_number(digits, u64::MAX) {
        Some(v) => v,
        None => {
            let mut m = "configuration error: cannot parse numeric part of size ".to_string();
            m.append(debug_string(input).as_str());
            return Err(m);
        },
    };
    if negative {
        if number == 1 && unit.len() == 0 {
            return Ok(-1);
        }
        return Err(
            quoting(
                "configuration error: negative size ",
                input,
                " is invalid. Only -1 (metadata only) is allowed as a negative value for max_file_size_bytes",
            ),
        );
    }
    let unit_name = string_of(unit);
    let factor = match unit_multiplier(unit_name.as_str()) {
        Ok(f) => f,
        Err(m) => {
            return Err(m);
        },
    };
    match number.checked_mul(factor) {
        Some(product) if product <= i64::MAX as u64 => Ok(product as i64),
        _ => Err(
            quoting(
                "configuration error: size ",
                input,
                " exceeds maximum representable bytes",
            ),
        ),
    }
}

/// Parse a non-negative size (for `min_file_size_bytes`).
pub fn parse_non_negative_size(input: &str) -> (r: Result<u64, String>)
    ensures
        match r {
            Ok(v) => size_value(input@) == Ok::<int, SizeFault>(v as int),
            Err(m) => match size_value(input@) {
                Err(fault) => m@ == size_fault_text(input@, fault),
                Ok(v) => v == -1 && m@
                    == "configuration error: min_file_size_bytes cannot be negative (got "@
                    + text::debug_text(input@) + ")"@,
            },
        },
{
    let v = match parse_size_expr(input) {
        Ok(v) => v,
        Err(m) => {
            return Err(m);
        },
    };
    if v < 0 {
        return Err(
            quoting(
                "configuration error: min_file_size_bytes cannot be negative (got ",
                input,
                ")",
            ),
        );
    }
    Ok(v as u64)
}

/// One mount to warm and the cache directory that may be emptied for it.
#[derive(Debug, Clone)]
pub struct PathPair {
    /// The directory exposed by the rclone mount. Only traversed; never deleted from.
    pub sync: String,
    /// The rclone cache directory: measured and emptied.
    pub cache: String,
    /// The systemd unit that mounts `sync`, if one is named.
    pub service: Option<String>,
}

/// How the mounted tree is walked and which files are read.
#[derive(Debug, Clone, Copy, PartialEq, Eq, Structural)]
pub struct WalkOptions {
    /// Compare mount and cache contents by digest.
    pub checksum: bool,
    /// Deepest level to visit; `None` is unlimited.
    pub max_depth: Option<usize>,
    /// Smallest file read when `max_file_size_bytes` is positive; 0 is no lower bound.
    pub min_file_size_bytes: u64,
    /// -1: read no file; 0: read every file; N > 0: read files of at most N bytes.
    pub max_file_size_bytes: i64,
    /// Number of concurrent workers.
    pub max_threads: usize,
    /// Width of the thread display in characters.
    pub width: usize,
}

/// Basenames to skip.
#[derive(Debug, Clone)]
pub struct IgnoreOptions {
    pub names: Vec<String>,
}

/// How long to wait for a mount to populate.
#[derive(Debug, Clone)]
pub struct MountWait {
    pub initial_secs: u64,
    pub retry_delays_secs: Vec<u64>,
    pub max_wait_secs: u64,
}

/// The whole configuration.
#[derive(Debug, Clone)]
pub struct Config {
    pub version: u32,
    pub paths: Vec<PathPair>,
    pub walk: WalkOptions,
    pub ignore: IgnoreOptions,
    pub mount_wait: MountWait,
}

pub const DISPLAY_WIDTH_DEFAULT: usize = 80;

pub const DISPLAY_WIDTH_MIN: usize = 80;

pub const DISPLAY_WIDTH_MAX: usize = 200;

/// Source-filename columns at the default threads-display width.
pub const SOURCE_FILENAME_BASE_CHARS: usize = 40;

/// The most path pairs a configuration may hold.
pub const MAX_PATH_PAIRS: usize = 128;

/// The most worker threads a configuration may ask for.
pub const MAX_WORKER_THREADS: usize = 64;

/// The schema version of a configuration that names none.
pub fn default_version() -> (v: u32)
    ensures
        v == 1,
{
    1
}

/// No lower bound on file sizes.
pub fn default_min_file_size_bytes() -> (v: u64)
    ensures
        v == 0,
{
    0
}

/// Every file is read.
pub fn default_max_file_size_bytes() -> (v: i64)
    ensures
        v == 0,
{
    0
}

/// Eight workers.
pub fn default_max_threads() -> (v: usize)
    ensures
        v == 8,
{
    8
}

/// Digest comparison is on unless it is switched off.
pub fn default_checksum() -> (v: bool)
    ensures
        v,
{
    true
}

/// The default display width.
pub fn default_width() -> (v: usize)
    ensures
        v == DISPLAY_WIDTH_DEFAULT,
{
    DISPLAY_WIDTH_DEFAULT
}

/// Three seconds before the first look at a mount.
pub fn default_initial_secs() -> (v: u64)
    ensures
        v == 3,
{
    3
}

/// The pauses between further looks at a mount.
pub fn default_retry_delays() -> (v: Vec<u64>)
    ensures
        v@ == seq![3u64, 5u64, 8u64],
{
    vec![3, 5, 8]
}

/// At most thirty seconds for one mount.
pub fn default_max_wait_secs() -> (v: u64)
    ensures
        v == 30,
{
    30
}

impl Default for WalkOptions {
    fn default() -> (r: Self)
        ensures
            r == (WalkOptions {
                checksum: true,
                max_depth: None,
                min_file_size_bytes: 0,
                max_file_size_bytes: 0,
                max_threads: 8,
                width: DISPLAY_WIDTH_DEFAULT,
            }),
    {
        WalkOptions {
            checksum: default_checksum(),
            max_depth: None,
            min_file_size_bytes: default_min_file_size_bytes(),
            max_file_size_bytes: default_max_file_size_bytes(),
            max_threads: default_max_threads(),
            width: default_width(),
        }
    }
}

impl Default for IgnoreOptions {
    fn default() -> (r: Self)
        ensures
            r.names@.len() == 0,
    {
        IgnoreOptions { names: Vec::new() }
    }
}

impl Default for MountWait {
    fn default() -> (r: Self)
        ensures
            r.initial_secs == 3,
            r.retry_delays_secs@ == seq![3u64, 5u64, 8u64],
            r.max_wait_secs == 30,
    {
        MountWait {
            initial_secs: default_initial_secs(),
            retry_delays_secs: default_retry_delays(),
            max_wait_secs: default_max_wait_secs(),
        }
    }
}

/// A requested width brought into the displayable range.
pub open spec fn clamped_width(n: int) -> int {
    if n < DISPLAY_WIDTH_MIN {
        DISPLAY_WIDTH_MIN as int
    } else if n > DISPLAY_WIDTH_MAX {
        DISPLAY_WIDTH_MAX as int
    } else {
        n
    }
}

/// Clamp a requested threads-display width into `80..=200`.
pub fn clamp_display_width(n: usize) -> (r: usize)
    ensures
        r == clamped_width(n as int),
{
    if n < DISPLAY_WIDTH_MIN {
        DISPLAY_WIDTH_MIN
    } else if n > DISPLAY_WIDTH_MAX {
        DISPLAY_WIDTH_MAX
    } else {
        n
    }
}

/// Source-filename columns at a threads-display width: 40 at width 80, and one
/// more for each column above that.
pub fn source_filename_max_chars(width: usize) -> (r: usize)
    ensures
        r == SOURCE_FILENAME_BASE_CHARS + (clamped_width(width as int) - DISPLAY_WIDTH_DEFAULT),
{
    SOURCE_FILENAME_BASE_CHARS + (clamp_display_width(width) - DISPLAY_WIDTH_DEFAULT)
}

/// A minimum size given as a signed JSON number.
pub fn min_file_size_from_i64(v: i64) -> (r: Result<u64, String>)
    ensures
        match r {
            Ok(n) => v >= 0 && n == v,
            Err(m) => v < 0 && m@
                == "configuration error: walk.min_file_size_bytes cannot be negative (got "@
                + text::signed_decimal(v as int) + ")"@,
        },
{
    if v < 0 {
        let mut m =
            "configuration error: walk.min_file_size_bytes cannot be negative (got ".to_string();
        m.append(i64_text(v).as_str());
        m.append(")");
        return Err(m);
    }
    Ok(v as u64)
}

/// A maximum size given as an unsigned JSON number.
pub fn max_file_size_from_u64(v: u64) -> (r: Result<i64, String>)
    ensures
        match r {
            Ok(n) => n == v,
            Err(m) => v > i64::MAX && m@
                == "configuration error: walk.max_file_size_bytes exceeds i64 range"@,
        },
{
    if v > i64::MAX as u64 {
        return Err(
            "configuration error: walk.max_file_size_bytes exceeds i64 range".to_string(),
        );
    }
    Ok(v as i64)
}

/// `p` holds a control character other than a tab.
pub open spec fn has_path_control(p: Seq<char>) -> bool {
    exists|i: int|
        0 <= i < p.len() && text::is_control(#[trigger] p[i]) && p[i] != '\t'
}

/// `p` holds a control character.
pub open spec fn has_control(p: Seq<char>) -> bool {
    exists|i: int| 0 <= i < p.len() && text::is_control(#[trigger] p[i])
}

/// What is wrong with a sync or cache path, if anything.
pub open spec fn path_fault(label: Seq<char>, p: Seq<char>) -> Option<Seq<char>> {
    if p.len() == 0 {
        Some("empty "@ + label + " path string in config"@)
    } else if p[0] != '/' {
        Some(
            label + " path "@ + text::debug_text(p)
                + " is relative. Use absolute paths only (e.g. /path/to/...). Relative paths are rejected for safety and predictability."@,
        )
    } else if has_path_control(p) {
        Some(
            label + " path "@ + text::debug_text(p) + " contains invalid control characters"@,
        )
    } else {
        None
    }
}

/// One of two absolute paths names the same directory as the other, or one above it, as
/// far as the paths as written tell.
pub open spec fn overlap(a: Seq<char>, b: Seq<char>) -> bool {
    native::begins(native::written(a), native::written(b)) || native::begins(
        native::written(b),
        native::written(a),
    )
}

/// What is wrong with a unit name, if anything.
pub open spec fn service_fault(service: Option<Seq<char>>) -> Option<Seq<char>> {
    match service {
        None => None,
        Some(svc) => {
            let name = text::trim(svc);
            if name.len() == 0 {
                Some("paths[].service is empty; omit the field or set a unit name"@)
            } else if name.contains('/') || has_control(name) {
                Some(
                    "service name "@ + text::debug_text(svc)
                        + " looks invalid (no path separators or control characters)"@,
                )
            } else {
                None
            }
        },
    }
}

/// What is wrong with a path pair, if anything.
pub open spec fn pair_fault(pair: PathPair) -> Option<Seq<char>> {
    if path_fault("sync"@, pair.sync@) is Some {
        path_fault("sync"@, pair.sync@)
    } else if path_fault("cache"@, pair.cache@) is Some {
        path_fault("cache"@, pair.cache@)
    } else if overlap(pair.cache@, pair.sync@) {
        Some(
            "cache "@ + text::debug_text(pair.cache@) + " and sync "@ + text::debug_text(
                pair.sync@,
            )
                + " must not overlap or contain each other. Deletion happens ONLY on cache; traversal ONLY on sync."@,
        )
    } else {
        service_fault(text::opt_view(pair.service))
    }
}

/// The first fault among path pairs.
pub open spec fn pairs_fault(paths: Seq<PathPair>) -> Option<Seq<char>>
    decreases paths.len(),
{
    if paths.len() == 0 {
        None
    } else if pair_fault(paths[0]) is Some {
        pair_fault(paths[0])
    } else {
        pairs_fault(paths.drop_first())
    }
}

/// The message about a thread count out of range.
pub open spec fn threads_fault_text(n: nat) -> Seq<char> {
    "walk.max_threads must be between 1 and 64 (got "@ + text::decimal(n) + ")"@
}

/// The message about a minimum above the maximum.
pub open spec fn window_fault_text(min: nat, max: int) -> Seq<char> {
    "walk.min_file_size_bytes ("@ + text::decimal(min)
        + ") cannot be greater than walk.max_file_size_bytes ("@ + text::signed_decimal(max)
        + ")"@
}

/// The first fault in the bounds of a configuration.
pub open spec fn bounds_fault(paths: nat, walk: WalkOptions) -> Option<Seq<char>> {
    if paths > MAX_PATH_PAIRS {
        Some("too many paths in config (max 128)"@)
    } else if walk.max_depth == Some(0usize) {
        Some("walk.max_depth 0 is not useful (would only visit the roots themselves)"@)
    } else if walk.max_threads == 0 || walk.max_threads > MAX_WORKER_THREADS {
        Some(threads_fault_text(walk.max_threads as nat))
    } else if walk.max_file_size_bytes < -1 {
        Some(
            "configuration error: walk.max_file_size_bytes ("@ + text::signed_decimal(
                walk.max_file_size_bytes as int,
            )
                + ") is invalid. Allowed: -1 (metadata only), 0 (File contents read for all files), or a size limit as bytes or a unit string (e.g. 65536, \"64KiB\", \"64K\"). Other negative values are rejected."@,
        )
    } else if walk.max_file_size_bytes > 0 && walk.min_file_size_bytes
        > walk.max_file_size_bytes {
        Some(
            window_fault_text(walk.min_file_size_bytes as nat, walk.max_file_size_bytes as int),
        )
    } else {
        None
    }
}

/// The first fault of a parsed configuration that was read from `shown`.
pub open spec fn config_fault(shown: Seq<char>, cfg: Config) -> Option<Seq<char>> {
    if cfg.mount_wait.retry_delays_secs@.len() == 0 {
        Some(
            "mount_wait.retry_delays_secs must not be empty (omit the field to use [3, 5, 8])"@,
        )
    } else if cfg.paths@.len() == 0 {
        Some(
            "config "@ + shown
                + " has empty \"paths\" array. Add at least one path pair with \"sync\" and \"cache\"."@,
        )
    } else if pairs_fault(cfg.paths@) is Some {
        pairs_fault(cfg.paths@)
    } else {
        bounds_fault(cfg.paths@.len(), cfg.walk)
    }
}

/// A parsed configuration with its display width brought into range.
pub open spec fn width_clamped(cfg: Config) -> Config {
    Config {
        walk: WalkOptions { width: clamped_width(cfg.walk.width as int) as usize, ..cfg.walk },
        ..cfg
    }
}

fn check_path(label: &str, p: &str) -> (r: Result<(), String>)
    ensures
        match r {
            Ok(_) => path_fault(label@, p@) is None,
            Err(m) => path_fault(label@, p@) == Some(m@),
        },
{
    let v = chars_of(p);
    if v.len() == 0 {
        let mut m = "empty ".to_string();
        m.append(label);
        m.append(" path string in config");
        return Err(m);
    }
    if v[0] != '/' {
        let mut m = label.to_string();
        m.append(" path ");
        m.append(debug_string(p).as_str());
        m.append(
            " is relative. Use absolute paths only (e.g. /path/to/...). Relative paths are rejected for safety and predictability.",
        );
        return Err(m);
    }
    let mut i: usize = 0;
    while i < v.len()
        invariant
            i <= v.len(),
            v@ == p@,
            p@.len() > 0 && p@[0] == '/',
            forall|j: int| 0 <= j < i ==> !text::is_control(#[trigger] p@[j]) || p@[j] == '\t',
        decreases v.len() - i,
    {
        if char_is_control(v[i]) && v[i] != '\t' {
            assert(text::is_control(p@[i as int]));
            let mut m = label.to_string();
            m.append(" path ");
            m.append(debug_string(p).as_str());
            m.append(" contains invalid control characters");
            return Err(m);
        }
        i = i + 1;
    }
    Ok(())
}

fn check_service(service: &Option<String>) -> (r: Result<(), String>)
    ensures
        match r {
            Ok(_) => service_fault(text::opt_view(*service)) is None,
            Err(m) => service_fault(text::opt_view(*service)) == Some(m@),
        },
{
    match service {
        None => Ok(()),
        Some(svc) => {
            let all = chars_of(svc.as_str());
            let name = slice_trim(all.as_slice());
            if name.len() == 0 {
                return Err(
                    "paths[].service is empty; omit the field or set a unit name".to_string(),
                );
            }
            let mut bad = slice_has(name, CharClass::Only('/'));
            assert(bad == name@.contains('/')) by {
                if name@.contains('/') {
                    let j = name@.index_of('/');
                    assert(text::in_class(CharClass::Only('/'), name@[j]));
                }
            }
            let mut i: usize = 0;
            while i < name.len()
                invariant
                    i <= name.len(),
                    bad == (name@.contains('/') || exists|j: int|
                        0 <= j < i && text::is_control(#[trigger] name@[j])),
                decreases name.len() - i,
            {
                if char_is_control(name[i]) {
                    bad = true;
                    assert(text::is_control(name@[i as int]));
                }
                i = i + 1;
            }
            assert(bad == (name@.contains('/') || has_control(name@)));
            if bad {
                return Err(
                    quoting(
                        "service name ",
                        svc.as_str(),
                        " looks invalid (no path separators or control characters)",
                    ),
                );
            }
            Ok(())
        },
    }
}

fn check_pair(pair: &PathPair) -> (r: Result<(), String>)
    ensures
        match r {
            Ok(_) => pair_fault(*pair) is None,
            Err(m) => pair_fault(*pair) == Some(m@),
        },
{
    match check_path("sync", pair.sync.as_str()) {
        Ok(_) => {},
        Err(m) => {
            return Err(m);
        },
    }
    match check_path("cache", pair.cache.as_str()) {
        Ok(_) => {},
        Err(m) => {
            return Err(m);
        },
    }
    let cache = NativePath::of_absolute(pair.cache.as_str());
    let sync = NativePath::of_absolute(pair.sync.as_str());
    if cache.starts_with(&sync) || sync.starts_with(&cache) {
        let mut m = "cache ".to_string();
        m.append(debug_string(pair.cache.as_str()).as_str());
        m.append(" and sync ");
        m.append(debug_string(pair.sync.as_str()).as_str());
        m.append(
            " must not overlap or contain each other. Deletion happens ONLY on cache; traversal ONLY on sync.",
        );
        return Err(m);
    }
    check_service(&pair.service)
}

fn check_pairs(paths: &Vec<PathPair>) -> (r: Result<(), String>)
    ensures
        match r {
            Ok(_) => pairs_fault(paths@) is None,
            Err(m) => pairs_fault(paths@) == Some(m@),
        },
{
    let mut i: usize = 0;
    assert(paths@.skip(0) == paths@);
    while i < paths.len()
        invariant
            i <= paths.len(),
            pairs_fault(paths@) == pairs_fault(paths@.skip(i as int)),
        decreases paths.len() - i,
    {
        assert(paths@.skip(i as int).drop_first() == paths@.skip(i as int + 1));
        match check_pair(&paths[i]) {
            Ok(_) => {},
            Err(m) => {
                return Err(m);
            },
        }
        i = i + 1;
    }
    Ok(())
}

fn threads_fault(n: usize) -> (m: String)
    ensures
        m@ == threads_fault_text(n as nat),
{
    let mut m = "walk.max_threads must be between 1 and 64 (got ".to_string();
    m.append(usize_text(n).as_str());
    m.append(")");
    m
}

fn window_fault(min: u64, max: i64) -> (m: String)
    ensures
        m@ == window_fault_text(min as nat, max as int),
{
    let mut m = "walk.min_file_size_bytes (".to_string();
    m.append(u64_text(min).as_str());
    m.append(") cannot be greater than walk.max_file_size_bytes (");
    m.append(i64_text(max).as_str());
    m.append(")");
    m
}

fn check_bounds(paths: usize, walk: &WalkOptions) -> (r: Result<(), String>)
    ensures
        match r {
            Ok(_) => bounds_fault(paths as nat, *walk) is None,
            Err(m) => bounds_fault(paths as nat, *walk) == Some(m@),
        },
{
    if paths > MAX_PATH_PAIRS {
        return Err("too many paths in config (max 128)".to_string());
    }
    if let Some(d) = walk.max_depth {
        if d == 0 {
            return Err(
                "walk.max_depth 0 is not useful (would only visit the roots themselves)".to_string(),
            );
        }
    }
    if walk.max_threads == 0 || walk.max_threads > MAX_WORKER_THREADS {
        return Err(threads_fault(walk.max_threads));
    }
    let max = walk.max_file_size_bytes;
    if max < -1 {
        let mut m = "configuration error: walk.max_file_size_bytes (".to_string();
        m.append(i64_text(max).as_str());
        m.append(
            ") is invalid. Allowed: -1 (metadata only), 0 (File contents read for all files), or a size limit as bytes or a unit string (e.g. 65536, \"64KiB\", \"64K\"). Other negative values are rejected.",
        );
        return Err(m);
    }
    if max > 0 && walk.min_file_size_bytes > max as u64 {
        return Err(window_fault(walk.min_file_size_bytes, max));
    }
    Ok(())
}

/// What was found where the configuration file should be.
#[derive(Debug)]
pub enum ConfigFile {
    /// There is no such file.
    Missing,
    /// The file exists and could not be read: the reason.
    Unreadable(String),
    /// The file was read and is not a valid document: the reason.
    Malformed(String),
    /// The document, with omitted fields at their defaults.
    Parsed(Config),
}

/// The configuration that stands in for a missing file: every default, no paths.
pub open spec fn is_default_config(c: Config) -> bool {
    &&& c.version == 1
    &&& c.paths@.len() == 0
    &&& c.walk == (WalkOptions {
        checksum: true,
        max_depth: None,
        min_file_size_bytes: 0,
        max_file_size_bytes: 0,
        max_threads: 8,
        width: DISPLAY_WIDTH_DEFAULT,
    })
    &&& c.ignore.names@.len() == 0
    &&& c.mount_wait.initial_secs == 3
    &&& c.mount_wait.retry_delays_secs@ == seq![3u64, 5u64, 8u64]
    &&& c.mount_wait.max_wait_secs == 30
}

/// Validate what was found at an explicit path, `shown` being the path as displayed.
pub fn load_from_path(shown: &str, file: ConfigFile) -> (r: Result<Config, String>)
    ensures
        match file {
            ConfigFile::Missing => r is Ok && is_default_config(r->Ok_0),
            ConfigFile::Unreadable(e) => r is Err && r->Err_0@ == "cannot read config "@ + shown@
                + ": "@ + e@,
            ConfigFile::Malformed(e) => r is Err && r->Err_0@ == "invalid JSON in "@ + shown@
                + ": "@ + e@,
            ConfigFile::Parsed(cfg) => match r {
                Ok(c) => config_fault(shown@, cfg) is None && c == width_clamped(cfg),
                Err(m) => config_fault(shown@, cfg) == Some(m@),
            },
        },
{
    let mut cfg = match file {
        ConfigFile::Missing => {
            return Ok(
                Config {
                    version: default_version(),
                    paths: Vec::new(),
                    walk: WalkOptions::default(),
                    ignore: IgnoreOptions::default(),
                    mount_wait: MountWait::default(),
                },
            );
        },
        ConfigFile::Unreadable(e) => {
            let mut m = "cannot read config ".to_string();
            m.append(shown);
            m.append(": ");
            m.append(e.as_str());
            return Err(m);
        },
        ConfigFile::Malformed(e) => {
            let mut m = "invalid JSON in ".to_string();
            m.append(shown);
            m.append(": ");
            m.append(e.as_str());
            return Err(m);
        },
        ConfigFile::Parsed(cfg) => cfg,
    };
    cfg.walk.width = clamp_display_width(cfg.walk.width);
    if cfg.mount_wait.retry_delays_secs.len() == 0 {
        return Err(
            "mount_wait.retry_delays_secs must not be empty (omit the field to use [3, 5, 8])".to_string(),
        );
    }
    if cfg.paths.len() == 0 {
        let mut m = "config ".to_string();
        m.append(shown);
        m.append(
            " has empty \"paths\" array. Add at least one path pair with \"sync\" and \"cache\".",
        );
        return Err(m);
    }
    match check_pairs(&cfg.paths) {
        Ok(_) => {},
        Err(m) => {
            return Err(m);
        },
    }
    match check_bounds(cfg.paths.len(), &cfg.walk) {
        Ok(_) => {},
        Err(m) => {
            return Err(m);
        },
    }
    Ok(cfg)
}

/// The first fault in the effective walk options.
pub open spec fn effective_fault(walk: WalkOptions) -> Option<Seq<char>> {
    if walk.max_threads < 1 || walk.max_threads > MAX_WORKER_THREADS {
        Some(threads_fault_text(walk.max_threads as nat))
    } else if walk.max_file_size_bytes < -1 {
        Some(
            "walk.max_file_size_bytes ("@ + text::signed_decimal(walk.max_file_size_bytes as int)
                + ") is invalid; use -1, 0, or a positive size"@,
        )
    } else if walk.max_file_size_bytes > 0 && walk.min_file_size_bytes
        > walk.max_file_size_bytes {
        Some(
            window_fault_text(walk.min_file_size_bytes as nat, walk.max_file_size_bytes as int),
        )
    } else {
        None
    }
}

/// Re-run effective configuration validation after command-line overrides.
pub fn validate_effective(cfg: &Config) -> (r: Result<(), String>)
    ensures
        match r {
            Ok(_) => effective_fault(cfg.walk) is None,
            Err(m) => effective_fault(cfg.walk) == Some(m@),
        },
{
    if cfg.walk.max_threads < 1 || cfg.walk.max_threads > MAX_WORKER_THREADS {
        return Err(threads_fault(cfg.walk.max_threads));
    }
    let max = cfg.walk.max_file_size_bytes;
    if max < -1 {
        let mut m = "walk.max_file_size_bytes (".to_string();
        m.append(i64_text(max).as_str());
        m.append(") is invalid; use -1, 0, or a positive size");
        return Err(m);
    }
    if max > 0 && cfg.walk.min_file_size_bytes > max as u64 {
        return Err(window_fault(cfg.walk.min_file_size_bytes, max));
    }
    Ok(())
}

/// Where the configuration is read from.
#[derive(Debug, Clone)]
pub enum ConfigSource {
    /// `warm-drive-cache.json` in the directory of the executable.
    RunDirectory,
    /// The file that the environment names.
    Environment(String),
    /// `warm-drive-cache.json` in the platform's configuration directory.
    ProjectDirectory,
    /// The file under `$HOME/.config`: its path as text.
    HomeFallback(String),
}

/// Chooses where to read the configuration: next to the executable where such a
/// file exists, else the file that a non-empty environment variable names, else the
/// platform's configuration directory, else `.config` below the home directory
/// (the current one if there is none).
pub fn choose_source(
    run_directory_has_file: bool,
    environment: Option<String>,
    has_project_directory: bool,
    home: Option<String>,
) -> (r: ConfigSource)
    ensures
        run_directory_has_file ==> r is RunDirectory,
        !run_directory_has_file && environment is Some && environment->0@.len() > 0 ==> (r
            is Environment && r->Environment_0@ == environment->0@),
        !run_directory_has_file && !(environment is Some && environment->0@.len() > 0) ==> {
            &&& has_project_directory ==> r is ProjectDirectory
            &&& !has_project_directory ==> r is HomeFallback && r->HomeFallback_0@ == (
            if home is Some {
                home->0@
            } else {
                "."@
            }) + "/.config/warm-drive-cache/warm-drive-cache.json"@
        },
{
    if run_directory_has_file {
        return ConfigSource::RunDirectory;
    }
    if let Some(p) = environment {
        if chars_of(p.as_str()).len() > 0 {
            return ConfigSource::Environment(p);
        }
    }
    if has_project_directory {
        return ConfigSource::ProjectDirectory;
    }
    let mut path = match home {
        Some(h) => h,
        None => ".".to_string(),
    };
    path.append("/.config/warm-drive-cache/warm-drive-cache.json");
    ConfigSource::HomeFallback(path)
}

/// A size expression denotes minus one or a count that a signed 64-bit number holds.
pub proof fn law_size_range(input: Seq<char>)
    ensures
        size_value(input) matches Ok(n) ==> -1 <= n <= i64::MAX,
{
    if size_value(input) is Ok && !size_is_negative(input) {
        let f = unit_bytes(size_unit(input))->0;
        let number = text::digits_value(size_number(input));
        assert(number * f >= 0) by (nonlinear_arith)
            requires
                number >= 0,
                f >= 0,
        ;
    }
}

/// A truth value may be written in any mixture of cases.
pub proof fn law_bool_ignores_case(a: Seq<char>, b: Seq<char>)
    requires
        text::lower_all(a) == text::lower_all(b),
    ensures
        bool_word(a) == bool_word(b),
{
    text::lemma_trim_case(a, b);
}

/// A size may be written in any mixture of cases.
pub proof fn law_size_ignores_case(a: Seq<char>, b: Seq<char>)
    requires
        text::lower_all(a) == text::lower_all(b),
    ensures
        size_value(a) == size_value(b),
{
    text::lemma_trim_case(a, b);
    let ta = text::trim(a);
    let tb = text::trim(b);
    assert(text::lower_all(ta).len() == ta.len());
    assert(text::lower_all(tb).len() == tb.len());
    if ta.len() > 0 {
        text::lemma_case(ta, tb, 0);
        assert(text::lower_all(ta).drop_first() == text::lower_all(ta.drop_first()));
        assert(text::lower_all(tb).drop_first() == text::lower_all(tb.drop_first()));
        text::lemma_strip_left_case(ta.drop_first(), tb.drop_first());
    }
    let ba = size_body(a);
    let bb = size_body(b);
    assert(text::lower_all(ba) == text::lower_all(bb));
    assert(text::lower_all(ba).len() == ba.len());
    assert(text::lower_all(bb).len() == bb.len());
    lemma_digits_case(ba, bb);
    let n = leading_digits(ba) as int;
    lemma_leading_digits(ba);
    assert(size_number(a) == size_number(b));
    assert(text::lower_all(ba).skip(n) == text::lower_all(ba.skip(n)));
    assert(text::lower_all(bb).skip(n) == text::lower_all(bb.skip(n)));
    text::lemma_trim_case(ba.skip(n), bb.skip(n));
    assert(text::lower_all(size_unit(a)) == text::lower_all(size_unit(b)));
    assert(text::lower_all(size_unit(a)).len() == size_unit(a).len());
    assert(text::lower_all(size_unit(b)).len() == size_unit(b).len());
    text::lemma_trim_case(size_unit(a), size_unit(b));
    if n < ba.len() {
        text::lemma_case(ba, bb, n);
    }
}

proof fn lemma_leading_digits(s: Seq<char>)
    ensures
        leading_digits(s) <= s.len(),
        text::all_digits(s.take(leading_digits(s) as int)),
    decreases s.len(),
{
    if s.len() > 0 && text::is_digit(s[0]) {
        lemma_leading_digits(s.drop_first());
        let t = s.take(leading_digits(s) as int);
        assert forall|i: int| 0 <= i < t.len() implies text::is_digit(#[trigger] t[i]) by {
            if i > 0 {
                assert(s.drop_first().take(leading_digits(s.drop_first()) as int)[i - 1] == t[i]);
            }
        }
    }
}

proof fn lemma_digits_case(a: Seq<char>, b: Seq<char>)
    requires
        text::lower_all(a) == text::lower_all(b),
    ensures
        leading_digits(a) == leading_digits(b),
        a.take(leading_digits(a) as int) == b.take(leading_digits(a) as int),
    decreases a.len(),
{
    assert(text::lower_all(a).len() == a.len());
    assert(text::lower_all(b).len() == b.len());
    if a.len() > 0 {
        text::lemma_case(a, b, 0);
        assert(text::lower_all(a).drop_first() == text::lower_all(a.drop_first()));
        assert(text::lower_all(b).drop_first() == text::lower_all(b.drop_first()));
        if text::is_digit(a[0]) {
            lemma_digits_case(a.drop_first(), b.drop_first());
            lemma_leading_digits(a);
            lemma_leading_digits(b);
            let n = leading_digits(a) as int;
            let ra = a.drop_first().take(n - 1);
            let rb = b.drop_first().take(n - 1);
            assert(ra == rb);
            assert forall|i: int| 0 <= i < n implies a.take(n)[i] == b.take(n)[i] by {
                if i > 0 {
                    assert(ra[i - 1] == a[i]);
                    assert(rb[i - 1] == b[i]);
                }
            }
            assert(a.take(n) == b.take(n));
        }
    }
}

proof fn lemma_leading_digits_of(d: Seq<char>, rest: Seq<char>)
    requires
        text::all_digits(d),
        rest.len() > 0 ==> !text::is_digit(rest[0]),
    ensures
        leading_digits(d + rest) == d.len(),
    decreases d.len(),
{
    if d.len() > 0 {
        assert(text::is_digit(d[0]));
        assert((d + rest).drop_first() == d.drop_first() + rest);
        assert forall|i: int| 0 <= i < d.drop_first().len() implies text::is_digit(
            #[trigger] d.drop_first()[i],
        ) by {
            assert(d.drop_first()[i] == d[i + 1]);
        }
        lemma_leading_digits_of(d.drop_first(), rest);
    } else {
        assert(d + rest == rest);
    }
}

/// A unit that is known starts with a letter.
proof fn lemma_unit_starts_with_letter(unit: Seq<char>)
    requires
        text::trim(unit) == unit,
        unit_bytes(unit) is Some,
        unit.len() > 0,
    ensures
        !text::is_digit(unit[0]),
        !text::is_space(unit[0]),
        !text::is_space(unit.last()),
        unit[0] != '.',
{
    text::lemma_strip_left(unit, CharClass::Space);
    text::lemma_strip_right(text::strip_left(unit, CharClass::Space), CharClass::Space);
    let u = text::lower_all(unit);
    assert(u.len() == unit.len());
    assert(u[0] == text::lower(unit[0]));
    reveal_strlit("");
    reveal_strlit("b");
    reveal_strlit("k");
    reveal_strlit("kb");
    reveal_strlit("kib");
    reveal_strlit("m");
    reveal_strlit("mb");
    reveal_strlit("mib");
    reveal_strlit("g");
    reveal_strlit("gb");
    reveal_strlit("gib");
    reveal_strlit("t");
    reveal_strlit("tb");
    reveal_strlit("tib");
    reveal_strlit("p");
    reveal_strlit("pb");
    reveal_strlit("pib");
}

/// A whole number followed by a unit denotes that many units, with any white space
/// around and between the two; without a unit it denotes bytes. More bytes than a signed
/// 64-bit count holds are rejected.
pub proof fn law_size_with_unit(
    before: Seq<char>,
    n: nat,
    between: Seq<char>,
    unit: Seq<char>,
    behind: Seq<char>,
)
    requires
        text::all_space(before),
        text::all_space(between),
        text::all_space(behind),
        text::trim(unit) == unit,
        unit_bytes(unit) is Some,
    ensures
        ({
            let v = size_value(before + (text::decimal(n) + between + unit + behind));
            if n <= u64::MAX && n * unit_bytes(unit)->0 <= i64::MAX {
                v == Ok::<int, SizeFault>((n * unit_bytes(unit)->0) as int)
            } else {
                v is Err
            }
        }),
{
    let d = text::decimal(n);
    let input = before + (d + between + unit + behind);
    text::lemma_decimal(n);
    assert(text::is_digit(d[0]));
    assert(text::is_digit(d.last()));
    text::lemma_strip_left_blank(before, d + between + unit + behind);
    assert((d + between + unit + behind)[0] == d[0]);
    let core = d + between + unit;
    text::lemma_strip_right_blank(core, behind);
    let body = if unit.len() > 0 {
        lemma_unit_starts_with_letter(unit);
        assert(core.last() == unit.last());
        core
    } else {
        assert(core == d + between);
        text::lemma_strip_right_blank(d, between);
        d
    };
    assert(text::trim(input) == body);
    assert(body[0] == d[0]);
    assert(size_body(input) == body);
    let rest = if unit.len() > 0 {
        between + unit
    } else {
        Seq::<char>::empty()
    };
    assert(body == d + rest);
    if rest.len() > 0 {
        if between.len() > 0 {
            assert(text::is_space(between[0]));
            assert(rest[0] == between[0]);
        } else {
            assert(rest[0] == unit[0]);
        }
        assert(body[d.len() as int] == rest[0]);
    }
    lemma_leading_digits_of(d, rest);
    assert(body.take(d.len() as int) == d);
    assert(body.skip(d.len() as int) == rest);
    if unit.len() > 0 {
        text::lemma_strip_left_blank(between, unit);
    } else {
        assert(rest == unit);
    }
    assert(size_unit(input) == unit);
}

/// No path lies at or below both directories of an accepted pair, component by component:
/// what is deleted below the cache is never written as lying below the mount.
pub proof fn law_accepted_pairs_apart(
    shown: Seq<char>,
    cfg: Config,
    i: int,
    path: Seq<native::Part>,
)
    requires
        config_fault(shown, cfg) is None,
        0 <= i < cfg.paths@.len(),
    ensures
        !(native::begins(path, native::written(cfg.paths@[i].sync@)) && native::begins(
            path,
            native::written(cfg.paths@[i].cache@),
        )),
{
    lemma_no_pair_fault(cfg.paths@, i);
    let a = native::written(cfg.paths@[i].sync@);
    let b = native::written(cfg.paths@[i].cache@);
    if native::begins(path, a) && native::begins(path, b) {
        if a.len() <= b.len() {
            assert(b.take(a.len() as int) == path.take(a.len() as int));
        } else {
            assert(a.take(b.len() as int) == path.take(b.len() as int));
        }
    }
}

proof fn lemma_no_pair_fault(paths: Seq<PathPair>, i: int)
    requires
        pairs_fault(paths) is None,
        0 <= i < paths.len(),
    ensures
        pair_fault(paths[i]) is None,
    decreases paths.len(),
{
    if i > 0 {
        lemma_no_pair_fault(paths.drop_first(), i - 1);
        assert(paths.drop_first()[i - 1] == paths[i]);
    }
}

/// Every path of an accepted configuration is absolute, and there is at least one pair.
pub proof fn law_accepted_paths_absolute(shown: Seq<char>, cfg: Config, i: int)
    requires
        config_fault(shown, cfg) is None,
    ensures
        cfg.paths@.len() > 0,
        0 <= i < cfg.paths@.len() ==> cfg.paths@[i].sync@.len() > 0 && cfg.paths@[i].sync@[0] == '/'
            && cfg.paths@[i].cache@.len() > 0 && cfg.paths@[i].cache@[0] == '/',
{
    if 0 <= i < cfg.paths@.len() {
        lemma_no_pair_fault(cfg.paths@, i);
    }
}

/// A configuration that was loaded passes the validation that follows the overrides, as
/// long as nothing is overridden, and its width can be displayed.
pub proof fn law_loaded_is_effective(shown: Seq<char>, cfg: Config)
    requires
        config_fault(shown, cfg) is None || is_default_config(cfg),
    ensures
        effective_fault(width_clamped(cfg).walk) is None,
        DISPLAY_WIDTH_MIN <= width_clamped(cfg).walk.width <= DISPLAY_WIDTH_MAX,
        width_clamped(width_clamped(cfg)) == width_clamped(cfg),
{
}

/// A word is a truth value exactly when it is, but for white space around it and the case
/// of its letters, one of the six words of the vocabulary.
pub proof fn law_truth_words(s: Seq<char>)
    ensures
        ({
            let w = text::trim(s);
            &&& bool_word(s) == Some(true) <==> text::same_but_case(w, seq!['t', 'r', 'u', 'e'])
                || text::same_but_case(w, seq!['y', 'e', 's']) || text::same_but_case(w, seq!['y'])
            &&& bool_word(s) == Some(false) <==> text::same_but_case(
                w,
                seq!['f', 'a', 'l', 's', 'e'],
            ) || text::same_but_case(w, seq!['n', 'o']) || text::same_but_case(w, seq!['n'])
        }),
{
    let w = text::trim(s);
    reveal_strlit("true");
    reveal_strlit("yes");
    reveal_strlit("y");
    reveal_strlit("false");
    reveal_strlit("no");
    reveal_strlit("n");
    lemma_spelled(w, "true"@);
    lemma_spelled(w, "yes"@);
    lemma_spelled(w, "y"@);
    lemma_spelled(w, "false"@);
    lemma_spelled(w, "no"@);
    lemma_spelled(w, "n"@);
    assert("true"@ =~= seq!['t', 'r', 'u', 'e']);
    assert("yes"@ =~= seq!['y', 'e', 's']);
    assert("y"@ =~= seq!['y']);
    assert("false"@ =~= seq!['f', 'a', 'l', 's', 'e']);
    assert("no"@ =~= seq!['n', 'o']);
    assert("n"@ =~= seq!['n']);
    assert("true"@[0] == 't' && "yes"@[0] == 'y' && "y"@[0] == 'y');
    assert("false"@[0] == 'f' && "no"@[0] == 'n' && "n"@[0] == 'n');
}

proof fn lemma_spelled(w: Seq<char>, word: Seq<char>)
    requires
        forall|i: int| 0 <= i < word.len() ==> !('A' <= #[trigger] word[i] <= 'Z'),
    ensures
        text::lower_all(w) == word <==> text::same_but_case(w, word),
{
    text::law_case_of_letters(w, word);
    assert(text::lower_all(word) =~= word);
}

/// The unit is written as the letter alone, or with `B` or `iB` behind it, in any mixture of
/// cases.
pub open spec fn unit_of_letter(unit: Seq<char>, letter: char) -> bool {
    let u = text::trim(unit);
    text::same_but_case(u, seq![letter]) || text::same_but_case(u, seq![letter, 'b'])
        || text::same_but_case(u, seq![letter, 'i', 'b'])
}

/// The units are those of the letters K, M, G, T and P, each 1024 times the one before, and
/// bytes, which may go without a name. There are no others.
pub proof fn law_units(unit: Seq<char>)
    ensures
        unit_bytes(unit) == Some(1nat) <==> text::trim(unit).len() == 0 || text::same_but_case(
            text::trim(unit),
            seq!['b'],
        ),
        unit_bytes(unit) == Some(1024nat) <==> unit_of_letter(unit, 'k'),
        unit_bytes(unit) == Some((1024 * 1024) as nat) <==> unit_of_letter(unit, 'm'),
        unit_bytes(unit) == Some((1024 * 1024 * 1024) as nat) <==> unit_of_letter(unit, 'g'),
        unit_bytes(unit) == Some((1024 * 1024 * 1024 * 1024) as nat) <==> unit_of_letter(unit, 't'),
        unit_bytes(unit) == Some((1024 * 1024 * 1024 * 1024 * 1024) as nat) <==> unit_of_letter(
            unit,
            'p',
        ),
        unit_bytes(unit) matches Some(n) ==> n == 1 || n == 1024 || n == 1024 * 1024 || n == 1024
            * 1024 * 1024 || n == 1024 * 1024 * 1024 * 1024 || n == 1024 * 1024 * 1024 * 1024
            * 1024,
{
    let u = text::trim(unit);
    let low = text::lower_all(u);
    assert(low.len() == u.len());
    reveal_strlit("");
    reveal_strlit("b");
    reveal_strlit("k");
    reveal_strlit("kb");
    reveal_strlit("kib");
    reveal_strlit("m");
    reveal_strlit("mb");
    reveal_strlit("mib");
    reveal_strlit("g");
    reveal_strlit("gb");
    reveal_strlit("gib");
    reveal_strlit("t");
    reveal_strlit("tb");
    reveal_strlit("tib");
    reveal_strlit("p");
    reveal_strlit("pb");
    reveal_strlit("pib");
    assert("b"@ =~= seq!['b']);
    lemma_spelled(u, seq!['b']);
    if u.len() == 0 {
        assert(low =~= ""@);
    }
    lemma_unit_spellings(u, 'k');
    lemma_unit_spellings(u, 'm');
    lemma_unit_spellings(u, 'g');
    lemma_unit_spellings(u, 't');
    lemma_unit_spellings(u, 'p');
    assert("k"@ =~= seq!['k'] && "kb"@ =~= seq!['k', 'b'] && "kib"@ =~= seq!['k', 'i', 'b']);
    assert("m"@ =~= seq!['m'] && "mb"@ =~= seq!['m', 'b'] && "mib"@ =~= seq!['m', 'i', 'b']);
    assert("g"@ =~= seq!['g'] && "gb"@ =~= seq!['g', 'b'] && "gib"@ =~= seq!['g', 'i', 'b']);
    assert("t"@ =~= seq!['t'] && "tb"@ =~= seq!['t', 'b'] && "tib"@ =~= seq!['t', 'i', 'b']);
    assert("p"@ =~= seq!['p'] && "pb"@ =~= seq!['p', 'b'] && "pib"@ =~= seq!['p', 'i', 'b']);
    assert(unit_of_letter(unit, 'k') ==> low.len() > 0 && low[0] == 'k');
    assert(unit_of_letter(unit, 'm') ==> low.len() > 0 && low[0] == 'm');
    assert(unit_of_letter(unit, 'g') ==> low.len() > 0 && low[0] == 'g');
    assert(unit_of_letter(unit, 't') ==> low.len() > 0 && low[0] == 't');
    assert(unit_of_letter(unit, 'p') ==> low.len() > 0 && low[0] == 'p');
    assert(text::same_but_case(u, seq!['b']) ==> low[0] == 'b');
}

proof fn lemma_unit_spellings(u: Seq<char>, letter: char)
    requires
        'a' <= letter <= 'z',
    ensures
        text::lower_all(u) == seq![letter] <==> text::same_but_case(u, seq![letter]),
        text::lower_all(u) == seq![letter, 'b'] <==> text::same_but_case(u, seq![letter, 'b']),
        text::lower_all(u) == seq![letter, 'i', 'b'] <==> text::same_but_case(
            u,
            seq![letter, 'i', 'b'],
        ),
{
    lemma_spelled(u, seq![letter]);
    lemma_spelled(u, seq![letter, 'b']);
    lemma_spelled(u, seq![letter, 'i', 'b']);
}

/// The only negative size is a minus one without a unit; nothing at all is no size.
pub proof fn law_negative_sizes(input: Seq<char>)
    ensures
        text::trim(input).len() > 0 && text::trim(input)[0] == '-' ==> match size_value(input) {
            Ok(v) => v == -1,
            Err(_) => true,
        },
        text::trim(input) == seq!['-', '1'] ==> size_value(input) == Ok::<int, SizeFault>(-1),
        size_value(input) matches Ok(v) && v < 0 ==> text::trim(input)[0] == '-',
        text::trim(input).len() == 0 ==> size_value(input) is Err,
{
    let t = text::trim(input);
    law_size_range(input);
    if t == seq!['-', '1'] {
        let rest = t.drop_first();
        assert(rest =~= seq!['1']);
        assert(size_body(input) == seq!['1']);
        lemma_leading_digits_of(seq!['1'], Seq::empty());
        assert(seq!['1'] + Seq::<char>::empty() == seq!['1']);
        assert(size_number(input) =~= seq!['1']);
        assert(seq!['1'].drop_last() =~= Seq::<char>::empty());
        assert(text::digits_value(Seq::<char>::empty()) == 0);
        assert(text::digits_value(seq!['1']) == 1);
        assert(size_body(input).skip(1) =~= Seq::<char>::empty());
        assert(text::trim(Seq::<char>::empty()) =~= Seq::<char>::empty());
    }
    if size_value(input) is Ok && !size_is_negative(input) {
        let f = unit_bytes(size_unit(input))->0;
        let number = text::digits_value(size_number(input));
        assert(number * f >= 0) by (nonlinear_arith)
            requires
                number >= 0,
                f >= 0,
        ;
    }
}

/// A decimal point behind the digits makes a size invalid, and so does anything but a digit
/// where the number should begin.
pub proof fn law_fractions_are_no_sizes(d: Seq<char>, rest: Seq<char>, input: Seq<char>)
    requires
        text::all_digits(d),
        text::trim(input) == d + seq!['.'] + rest || (text::trim(input) == rest && rest.len() > 0
            && !text::is_digit(rest[0]) && rest[0] != '-' && rest[0] != '+'),
    ensures
        size_value(input) is Err,
{
    let t = text::trim(input);
    if t == d + seq!['.'] + rest {
        let tail = seq!['.'] + rest;
        assert(t =~= d + tail);
        assert(tail[0] == '.');
        lemma_leading_digits_of(d, tail);
        assert(t[d.len() as int] == '.');
        if d.len() > 0 {
            assert(text::is_digit(d[0]));
            assert(t[0] == d[0]);
        }
    } else {
        assert(leading_digits(t) == 0);
    }
}

/// A path is accepted exactly when it is absolute and holds no control character but the tab.
pub proof fn law_path_rules(label: Seq<char>, p: Seq<char>)
    ensures
        path_fault(label, p) is None <==> p.len() > 0 && p[0] == '/' && forall|i: int|
            0 <= i < p.len() ==> (#[trigger] p[i]) == '\t' || !(p[i] as int <= 31 || 127
                <= p[i] as int <= 159),
{
    if has_path_control(p) {
        let i = choose|i: int|
            0 <= i < p.len() && text::is_control(#[trigger] p[i]) && p[i] != '\t';
        assert(p[i] != '\t');
    }
}

/// A unit name is accepted exactly when there is none, or when without the white space around
/// it something is left that holds neither a separator nor a control character.
pub proof fn law_service_rules(service: Option<Seq<char>>)
    ensures
        service_fault(service) is None <==> match service {
            None => true,
            Some(svc) => {
                let name = text::trim(svc);
                name.len() > 0 && forall|i: int|
                    0 <= i < name.len() ==> (#[trigger] name[i]) != '/' && !(name[i] as int <= 31
                        || 127 <= name[i] as int <= 159)
            },
        },
{
    if let Some(svc) = service {
        let name = text::trim(svc);
        if name.contains('/') {
            let i = name.index_of('/');
            assert(name[i] == '/');
        }
        if has_control(name) {
            let i = choose|i: int| 0 <= i < name.len() && text::is_control(#[trigger] name[i]);
            assert(text::is_control(name[i]));
        }
    }
}

/// A pair is accepted exactly when both of its paths and its unit name are, and neither
/// directory lies at or below the other, name by name.
pub proof fn law_pair_rules(pair: PathPair)
    ensures
        pair_fault(pair) is None <==> {
            &&& path_fault("sync"@, pair.sync@) is None
            &&& path_fault("cache"@, pair.cache@) is None
            &&& !(exists|rest: Seq<native::Part>|
                native::written(pair.cache@) == #[trigger] (native::written(pair.sync@) + rest))
            &&& !(exists|rest: Seq<native::Part>|
                native::written(pair.sync@) == #[trigger] (native::written(pair.cache@) + rest))
            &&& service_fault(text::opt_view(pair.service)) is None
        },
{
    native::law_path_beginnings(native::written(pair.cache@), native::written(pair.sync@));
    native::law_path_beginnings(native::written(pair.sync@), native::written(pair.cache@));
}

/// Every pair is looked at: pairs are accepted exactly when each of them is, and otherwise
/// the first that is not gives the reason.
pub proof fn law_every_pair_is_checked(paths: Seq<PathPair>, i: int)
    ensures
        pairs_fault(paths) is None <==> forall|j: int|
            0 <= j < paths.len() ==> pair_fault(#[trigger] paths[j]) is None,
        0 <= i < paths.len() && pair_fault(paths[i]) is Some && (forall|j: int|
            0 <= j < i ==> pair_fault(#[trigger] paths[j]) is None) ==> pairs_fault(paths)
            == pair_fault(paths[i]),
    decreases paths.len(),
{
    if paths.len() > 0 {
        let rest = paths.drop_first();
        law_every_pair_is_checked(rest, i - 1);
        assert(forall|j: int| 0 <= j < rest.len() ==> #[trigger] rest[j] == paths[j + 1]);
        if pair_fault(paths[0]) is None {
            if forall|j: int| 0 <= j < rest.len() ==> pair_fault(#[trigger] rest[j]) is None {
                assert forall|j: int| 0 <= j < paths.len() implies pair_fault(#[trigger] paths[j])
                    is None by {
                    if j > 0 {
                        assert(rest[j - 1] == paths[j]);
                    }
                }
            } else {
                let j = choose|j: int|
                    0 <= j < rest.len() && !(pair_fault(#[trigger] rest[j]) is None);
                assert(paths[j + 1] == rest[j]);
            }
        } else {
            assert(pair_fault(paths[0]) is Some);
        }
    }
}

/// A configuration is accepted exactly when it has a delay to wait for a mount, from one to
/// 128 pairs that are all accepted, a depth that reaches below the roots, from one to 64
/// workers, a maximum of minus one or more, and no minimum above a positive maximum.
pub proof fn law_configuration_rules(shown: Seq<char>, cfg: Config)
    ensures
        config_fault(shown, cfg) is None <==> {
            &&& cfg.mount_wait.retry_delays_secs@.len() > 0
            &&& 1 <= cfg.paths@.len() <= 128
            &&& forall|i: int|
                0 <= i < cfg.paths@.len() ==> pair_fault(#[trigger] cfg.paths@[i]) is None
            &&& cfg.walk.max_depth != Some(0usize)
            &&& 1 <= cfg.walk.max_threads <= 64
            &&& cfg.walk.max_file_size_bytes >= -1
            &&& cfg.walk.max_file_size_bytes > 0 ==> cfg.walk.min_file_size_bytes
                <= cfg.walk.max_file_size_bytes
        },
{
    law_every_pair_is_checked(cfg.paths@, 0);
}

/// The overridden options are accepted exactly when they name from one to 64 workers, a
/// maximum of minus one or more, and no minimum above a positive maximum.
pub proof fn law_effective_rules(walk: WalkOptions)
    ensures
        effective_fault(walk) is None <==> 1 <= walk.max_threads <= 64 && walk.max_file_size_bytes
            >= -1 && (walk.max_file_size_bytes > 0 ==> walk.min_file_size_bytes
            <= walk.max_file_size_bytes),
{
}

/// A width is brought to the nearest one from 80 to 200, and is the only thing that loading
/// changes.
pub proof fn law_width(n: int, cfg: Config)
    ensures
        80 <= clamped_width(n) <= 200,
        80 <= n <= 200 ==> clamped_width(n) == n,
        n < 80 ==> clamped_width(n) == 80,
        n > 200 ==> clamped_width(n) == 200,
        width_clamped(cfg).walk.width == clamped_width(cfg.walk.width as int),
        width_clamped(cfg).version == cfg.version,
        width_clamped(cfg).paths == cfg.paths,
        width_clamped(cfg).ignore == cfg.ignore,
        width_clamped(cfg).mount_wait == cfg.mount_wait,
        width_clamped(cfg).walk.checksum == cfg.walk.checksum,
        width_clamped(cfg).walk.max_depth == cfg.walk.max_depth,
        width_clamped(cfg).walk.min_file_size_bytes == cfg.walk.min_file_size_bytes,
        width_clamped(cfg).walk.max_file_size_bytes == cfg.walk.max_file_size_bytes,
        width_clamped(cfg).walk.max_threads == cfg.walk.max_threads,
        SOURCE_FILENAME_BASE_CHARS == 40,
        DISPLAY_WIDTH_DEFAULT == 80,
{
}

/// The parts of a size expression: a sign or none, white space behind the sign, digits, and
/// the rest.
pub open spec fn size_parts(
    sign: Option<char>,
    blank: Seq<char>,
    digits: Seq<char>,
    rest: Seq<char>,
) -> Seq<char> {
    match sign {
        Some(c) => seq![c] + blank + digits + rest,
        None => digits + rest,
    }
}

proof fn lemma_size_body(
    input: Seq<char>,
    sign: Option<char>,
    blank: Seq<char>,
    digits: Seq<char>,
    rest: Seq<char>,
)
    requires
        text::trim(input) == size_parts(sign, blank, digits, rest),
        sign is Some ==> sign->0 == '+' || sign->0 == '-',
        text::all_space(blank),
        text::all_digits(digits),
        rest.len() > 0 ==> !text::is_digit(rest[0]) && !text::is_space(rest[0]),
        digits.len() == 0 && rest.len() > 0 ==> rest[0] != '+' && rest[0] != '-',
    ensures
        size_body(input) == digits + rest,
        leading_digits(digits + rest) == digits.len(),
        size_is_negative(input) <==> sign == Some('-'),
{
    let body = digits + rest;
    let t = text::trim(input);
    if digits.len() > 0 {
        assert(text::is_digit(digits[0]));
        assert(body[0] == digits[0]);
    }
    assert(text::strip_left(body, CharClass::Space) == body);
    if let Some(c) = sign {
        assert(t[0] == c);
        assert(t.drop_first() =~= blank + body);
        text::lemma_strip_left_blank(blank, body);
    } else {
        assert(t =~= body);
    }
    if rest.len() > 0 {
        assert(body[digits.len() as int] == rest[0]);
    }
    lemma_leading_digits_of(digits, rest);
}

/// What a size expression of digits and a unit denotes, with any sign and any white space
/// behind it. A plus sign changes nothing. A minus sign is for minus one without a unit. A
/// number beyond 64 bits, an unknown unit and too many bytes are rejected, each for its own
/// reason.
pub proof fn law_size_expressions(
    input: Seq<char>,
    sign: Option<char>,
    blank: Seq<char>,
    digits: Seq<char>,
    more: Seq<char>,
    unit: Seq<char>,
)
    requires
        text::trim(input) == size_parts(sign, blank, digits, more + unit),
        sign is Some ==> sign->0 == '+' || sign->0 == '-',
        text::all_space(blank),
        text::all_space(more),
        text::all_digits(digits),
        digits.len() > 0,
        unit.len() == 0 ==> more.len() == 0,
        unit.len() > 0 ==> !text::is_digit(unit[0]) && unit[0] != '.' && !text::is_space(unit[0])
            && !text::is_space(unit.last()),
    ensures
        ({
            let n = text::digits_value(digits);
            let v = size_value(input);
            if n > u64::MAX {
                v == Err::<int, SizeFault>(SizeFault::NumberTooLong)
            } else if sign == Some('-') {
                v == if n == 1 && unit.len() == 0 {
                    Ok::<int, SizeFault>(-1)
                } else {
                    Err(SizeFault::Negative)
                }
            } else {
                match unit_bytes(unit) {
                    None => v == Err::<int, SizeFault>(SizeFault::UnknownUnit),
                    Some(f) => v == if n * f <= i64::MAX {
                        Ok::<int, SizeFault>((n * f) as int)
                    } else {
                        Err(SizeFault::TooLarge)
                    },
                }
            }
        }),
{
    let rest = more + unit;
    let body = digits + rest;
    let t = text::trim(input);
    assert(text::is_digit(digits[0]));
    assert(body[0] == digits[0]);
    assert(text::strip_left(body, CharClass::Space) == body);
    if let Some(c) = sign {
        assert(t[0] == c);
        assert(t.drop_first() =~= blank + body);
        text::lemma_strip_left_blank(blank, body);
    } else {
        assert(t =~= body);
    }
    assert(size_body(input) == body);
    if rest.len() > 0 {
        assert(body[digits.len() as int] == rest[0]);
        if more.len() > 0 {
            assert(rest[0] == more[0]);
            assert(text::is_space(more[0]));
        } else {
            assert(rest[0] == unit[0]);
        }
        assert(!text::is_digit(rest[0]) && rest[0] != '.');
    }
    lemma_leading_digits_of(digits, rest);
    assert(body.take(digits.len() as int) =~= digits);
    assert(body.skip(digits.len() as int) =~= rest);
    text::law_strip(more, unit, Seq::empty(), CharClass::Space);
    assert(more + unit + Seq::<char>::empty() =~= rest);
    assert(size_unit(input) == unit);
    assert(t.len() > 0);
}

/// What is no size at all, and why: nothing, a sign alone, a decimal point behind the digits,
/// and anything else where the digits should stand.
pub proof fn law_no_sizes(
    input: Seq<char>,
    sign: Option<char>,
    blank: Seq<char>,
    digits: Seq<char>,
    rest: Seq<char>,
)
    requires
        text::trim(input) == size_parts(sign, blank, digits, rest),
        sign is Some ==> sign->0 == '+' || sign->0 == '-',
        text::all_space(blank),
        text::all_digits(digits),
        rest.len() > 0 ==> !text::is_digit(rest[0]) && !text::is_space(rest[0]),
        digits.len() == 0 && rest.len() > 0 ==> rest[0] != '+' && rest[0] != '-',
    ensures
        sign is None && digits.len() == 0 && rest.len() == 0 ==> size_value(input) == Err::<
            int,
            SizeFault,
        >(SizeFault::Empty),
        sign is Some && digits.len() == 0 && rest.len() == 0 ==> size_value(input) == Err::<
            int,
            SizeFault,
        >(SizeFault::SignOnly),
        rest.len() > 0 && rest[0] == '.' ==> size_value(input) == Err::<int, SizeFault>(
            SizeFault::Fraction,
        ),
        digits.len() == 0 && rest.len() > 0 && rest[0] != '.' ==> size_value(input) == Err::<
            int,
            SizeFault,
        >(SizeFault::NoNumber),
{
    lemma_size_body(input, sign, blank, digits, rest);
    if rest.len() > 0 {
        assert((digits + rest)[digits.len() as int] == rest[0]);
    }
}

/// The messages quote what was given and name the limits that it misses.
pub proof fn law_messages_quote_the_input(input: Seq<char>, n: nat, max: int)
    ensures
        text::contains_text(bool_fault_text(input), text::debug_text(input)),
        text::contains_text(size_fault_text(input, SizeFault::Fraction), text::debug_text(input)),
        text::contains_text(size_fault_text(input, SizeFault::NoNumber), text::debug_text(input)),
        text::contains_text(
            size_fault_text(input, SizeFault::NumberTooLong),
            text::debug_text(input),
        ),
        text::contains_text(size_fault_text(input, SizeFault::SignOnly), text::debug_text(input)),
        text::contains_text(size_fault_text(input, SizeFault::Negative), text::debug_text(input)),
        text::contains_text(size_fault_text(input, SizeFault::TooLarge), text::debug_text(input)),
        text::contains_text(unknown_unit_text(input), text::debug_text(input)),
        text::contains_text(threads_fault_text(n), text::decimal(n)),
        text::contains_text(window_fault_text(n, max), text::decimal(n)),
        text::contains_text(window_fault_text(n, max), text::signed_decimal(max)),
{
    let d = text::debug_text(input);
    let none = Seq::<char>::empty();
    text::lemma_stands_in("invalid boolean "@, d, "; use TRUE/YES/Y or FALSE/NO/N"@);
    let size = "configuration error: size "@;
    text::lemma_stands_in(
        size,
        d,
        " must be a whole number of bytes (fractions are not allowed; use 1536 or \"2KiB\", not \"1.5KiB\")"@,
    );
    text::lemma_stands_in(
        size,
        d,
        " must start with a number (e.g. 65536, \"64KiB\", \"64K\", \"1MB\")"@,
    );
    text::lemma_stands_in(size, d, " exceeds maximum representable bytes"@);
    let long = "configuration error: cannot parse numeric part of size "@;
    text::lemma_stands_in(long, d, none);
    assert(long + d + none =~= long + d);
    let alone = "invalid size expression "@;
    text::lemma_stands_in(alone, d, none);
    assert(alone + d + none =~= alone + d);
    text::lemma_stands_in(
        "configuration error: negative size "@,
        d,
        " is invalid. Only -1 (metadata only) is allowed as a negative value for max_file_size_bytes"@,
    );
    text::lemma_stands_in(
        "unknown size unit "@,
        d,
        " (use B, K/KB/KiB, M/MB/MiB, G/GB/GiB, T/TB/TiB, P/PB/PiB; case-insensitive; bare K means KiB)"@,
    );
    text::lemma_stands_in(
        "walk.max_threads must be between 1 and 64 (got "@,
        text::decimal(n),
        ")"@,
    );
    let a = "walk.min_file_size_bytes ("@;
    let b = ") cannot be greater than walk.max_file_size_bytes ("@;
    text::lemma_stands_in(a, text::decimal(n), b + text::signed_decimal(max) + ")"@);
    assert(a + text::decimal(n) + (b + text::signed_decimal(max) + ")"@) =~= window_fault_text(
        n,
        max,
    ));
    text::lemma_stands_in(a + text::decimal(n) + b, text::signed_decimal(max), ")"@);
}

/// The order in which a configuration's faults are told: those of the waits and of the pairs
/// before those of the bounds, and in a pair the sync path, the cache, the two together, and
/// the unit.
pub proof fn law_first_fault_is_told(shown: Seq<char>, cfg: Config, pair: PathPair, i: int)
    ensures
        path_fault("sync"@, pair.sync@) is Some ==> pair_fault(pair) == path_fault(
            "sync"@,
            pair.sync@,
        ),
        path_fault("sync"@, pair.sync@) is None && path_fault("cache"@, pair.cache@) is Some
            ==> pair_fault(pair) == path_fault("cache"@, pair.cache@),
        cfg.mount_wait.retry_delays_secs@.len() > 0 && 0 <= i < cfg.paths@.len() && pair_fault(
            cfg.paths@[i],
        ) is Some && (forall|j: int| 0 <= j < i ==> pair_fault(#[trigger] cfg.paths@[j]) is None)
            ==> config_fault(shown, cfg) == pair_fault(cfg.paths@[i]),
        cfg.mount_wait.retry_delays_secs@.len() > 0 && 0 < cfg.paths@.len() <= 128 && (forall|
            j: int,
        |
            0 <= j < cfg.paths@.len() ==> pair_fault(#[trigger] cfg.paths@[j]) is None)
            && cfg.walk.max_depth != Some(0usize) && !(1 <= cfg.walk.max_threads <= 64)
            ==> config_fault(shown, cfg) == Some(threads_fault_text(cfg.walk.max_threads as nat)),
{
    law_every_pair_is_checked(cfg.paths@, i);
}

} // verus!
