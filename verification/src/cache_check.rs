//! Pre-flight checks before warming: systemd unit state and filesystem permissions.
//!
//! When a required service is not running and the user declines to start it, the pair
//! is skipped: warming an unmounted tree would not help. The decisions and the words
//! stand here; the caller runs commands and touches files.

use vstd::prelude::*;
use vstd::slice::slice_subrange;
use vstd::string::StringExecFns;

use crate::cache_ops;
use crate::cache_ops::{format_bytes, format_max_file_size_limit};
use crate::config::{Config, PathPair};
use crate::report;
use crate::report::{
    alert, glue, glue3, no_lines, number_list_text, optional_number_text, out, quoted_list_text,
    truth_text, Line, Shown,
};
use crate::text;
use crate::text::{
    chars_of, debug_string, i64_text, join, slice_find, slice_is, slice_strip_left, slice_trim,
    slice_until, str_eq, string_of, u128_text, u64_text, usize_text, CharClass,
};

verus! {

/// The flag that names the cache directory in a unit.
pub const CACHE_DIR_FLAG: &'static str = "--cache-dir";

/// What follows a flag as its value: behind an equals sign or behind white space.
pub open spec fn flag_value(after: Seq<char>) -> Seq<char> {
    let t = text::strip_left(after, CharClass::Space);
    let v = if t.len() > 0 && t[0] == '=' {
        text::strip_left(t.drop_first(), CharClass::Space)
    } else {
        t
    };
    v.take(text::until(v, CharClass::SpaceOrQuote) as int)
}

/// The first absolute path that follows the flag in a text.
pub open spec fn cache_dir_in(s: Seq<char>) -> Option<Seq<char>>
    decreases s.len(),
{
    match text::first_at(s, CACHE_DIR_FLAG@, 0) {
        None => None,
        Some(i) => {
            let after = s.skip(i + CACHE_DIR_FLAG@.len());
            let value = flag_value(after);
            if value.len() > 0 && value[0] == '/' {
                Some(value)
            } else {
                proof {
                    reveal_strlit("--cache-dir");
                    text::lemma_first_at(s, CACHE_DIR_FLAG@, 0);
                }
                cache_dir_in(after)
            }
        },
    }
}

/// Parse `--cache-dir PATH` or `--cache-dir=PATH` from unit / ExecStart text.
pub fn parse_cache_dir_flag(unit_text: &str) -> (r: Option<String>)
    ensures
        match r {
            Some(p) => cache_dir_in(unit_text@) == Some(p@),
            None => cache_dir_in(unit_text@) is None,
        },
{
    let all = chars_of(unit_text);
    let flag = chars_of(CACHE_DIR_FLAG);
    proof {
        reveal_strlit("--cache-dir");
    }
    let mut search: &[char] = all.as_slice();
    loop
        invariant
            flag@ == CACHE_DIR_FLAG@,
            flag@.len() > 0,
            cache_dir_in(unit_text@) == cache_dir_in(search@),
        decreases search@.len(),
    {
        match slice_find(search, flag.as_slice(), 0) {
            None => {
                return None;
            },
            Some(i) => {
                let total = search.len();
                assert(i + flag@.len() <= total);
                let after = slice_subrange(search, i + flag.len(), total);
                assert(after@ == search@.skip(i + flag@.len()));
                let t = slice_strip_left(after, CharClass::Space);
                let v = if t.len() > 0 && t[0] == '=' {
                    let rest = slice_subrange(t, 1, t.len());
                    assert(rest@ == t@.drop_first());
                    slice_strip_left(rest, CharClass::Space)
                } else {
                    t
                };
                let n = slice_until(v, CharClass::SpaceOrQuote);
                let value = slice_subrange(v, 0, n);
                assert(value@ == flag_value(after@));
                if value.len() > 0 && value[0] == '/' {
                    return Some(string_of(value));
                }
                search = after;
            },
        }
    }
}

/// Whether a unit is managed by system systemd or the per-user instance.
#[derive(Debug, Clone, Copy, PartialEq, Eq, Structural)]
pub enum SystemdScope {
    System,
    User,
}

/// The word for a scope.
pub open spec fn scope_label(scope: SystemdScope) -> Seq<char> {
    match scope {
        SystemdScope::System => "system"@,
        SystemdScope::User => "user"@,
    }
}

impl SystemdScope {
    /// The word for the scope.
    pub fn label(self) -> (r: &'static str)
        ensures
            r@ == scope_label(self),
    {
        match self {
            SystemdScope::System => "system",
            SystemdScope::User => "user",
        }
    }

    /// The extra argument before the systemctl verb, if any.
    pub fn flag(self) -> (r: Option<&'static str>)
        ensures
            match self {
                SystemdScope::System => r is None,
                SystemdScope::User => r matches Some(f) && f@ == "--user"@,
            },
    {
        match self {
            SystemdScope::System => None,
            SystemdScope::User => Some("--user"),
        }
    }
}

/// What a finished command left behind.
#[derive(Debug)]
pub struct CommandOutput {
    pub success: bool,
    pub code: Option<i32>,
    pub stdout: String,
    pub stderr: String,
}

/// Whether the answer to a query for the load state says that the unit is loaded. A
/// query that failed says nothing of the kind.
pub fn says_loaded(reply: &Result<CommandOutput, String>) -> (r: bool)
    ensures
        r == (reply matches Ok(o) && o.success && text::trim(o.stdout@) == "loaded"@),
{
    match reply {
        Ok(o) => {
            if !o.success {
                return false;
            }
            let all = chars_of(o.stdout.as_str());
            slice_is(slice_trim(all.as_slice()), "loaded")
        },
        Err(_) => false,
    }
}

/// The scope of a unit that is loaded somewhere: that in which it is loaded; of two the one in
/// which it is active, and otherwise system.
pub open spec fn scope_of(
    system_loaded: bool,
    user_loaded: bool,
    system_active: bool,
    user_active: bool,
) -> Option<SystemdScope> {
    if system_loaded && (!user_loaded || system_active || !user_active) {
        Some(SystemdScope::System)
    } else if user_loaded {
        Some(SystemdScope::User)
    } else {
        None
    }
}

/// Resolve whether `unit` is a system or user unit: the scope in which it is loaded; of
/// two the one in which it is active, and otherwise system. The activity matters only
/// where the unit is loaded in both.
pub fn resolve_unit_scope(
    unit: &str,
    system_loaded: bool,
    user_loaded: bool,
    system_active: bool,
    user_active: bool,
) -> (r: Result<SystemdScope, String>)
    ensures
        match r {
            Ok(scope) => scope_of(system_loaded, user_loaded, system_active, user_active) == Some(
                scope,
            ),
            Err(_) => scope_of(system_loaded, user_loaded, system_active, user_active) is None,
        },
        match r {
            Ok(scope) => {
                &&& system_loaded || user_loaded
                &&& scope == SystemdScope::User <==> user_loaded && (!system_loaded || (
                !system_active && user_active))
            },
            Err(m) => !system_loaded && !user_loaded && m@ == "unit "@ + unit@
                + " not found as a system or user unit (check the name; drop a mistaken rclone- prefix if the unit is gdrive-*.service)"@,
        },
{
    if system_loaded {
        if user_loaded && !system_active && user_active {
            return Ok(SystemdScope::User);
        }
        return Ok(SystemdScope::System);
    }
    if user_loaded {
        return Ok(SystemdScope::User);
    }
    Err(
        glue3(
            "unit ",
            unit,
            " not found as a system or user unit (check the name; drop a mistaken rclone- prefix if the unit is gdrive-*.service)",
        ),
    )
}

/// Whether the unit is active, from the exit status of the query.
pub fn is_unit_active(scope: SystemdScope, status: Result<bool, String>) -> (r: Result<bool, String>)
    ensures
        match status {
            Ok(success) => r == Ok::<bool, String>(success),
            Err(e) => r is Err && r->Err_0@ == "cannot run systemctl "@ + scope_label(scope)
                + " is-active (is systemd available?): "@ + e@,
        },
{
    match status {
        Ok(success) => Ok(success),
        Err(e) => {
            let mut m = "cannot run systemctl ".to_string();
            m.append(scope.label());
            m.append(" is-active (is systemd available?): ");
            m.append(e.as_str());
            Err(m)
        },
    }
}

/// The words for a unit that will be started without further ado.
pub open spec fn enabled_word(w: Seq<char>) -> bool {
    w == "enabled"@ || w == "enabled-runtime"@ || w == "static"@ || w == "indirect"@ || w
        == "generated"@ || w == "alias"@
}

/// What the query printed, or that it succeeded, says that the unit is enabled.
pub open spec fn counts_as_enabled(printed: Seq<char>, success: bool) -> bool {
    success || enabled_word(text::trim(printed))
}

/// Whether the unit is enabled, from what the query printed and its exit status.
pub fn is_unit_enabled(scope: SystemdScope, reply: Result<CommandOutput, String>) -> (r: Result<
    bool,
    String,
>)
    ensures
        match reply {
            Ok(o) => r == Ok::<bool, String>(counts_as_enabled(o.stdout@, o.success)) && r == Ok::<
                bool,
                String,
            >(enabled_word(text::trim(o.stdout@)) || o.success),
            Err(e) => r is Err && r->Err_0@ == "cannot run systemctl "@ + scope_label(scope)
                + " is-enabled: "@ + e@,
        },
{
    match reply {
        Ok(o) => {
            let all = chars_of(o.stdout.as_str());
            let w = slice_trim(all.as_slice());
            let known = slice_is(w, "enabled") || slice_is(w, "enabled-runtime") || slice_is(
                w,
                "static",
            ) || slice_is(w, "indirect") || slice_is(w, "generated") || slice_is(w, "alias");
            Ok(known || o.success)
        },
        Err(e) => {
            let mut m = "cannot run systemctl ".to_string();
            m.append(scope.label());
            m.append(" is-enabled: ");
            m.append(e.as_str());
            Err(m)
        },
    }
}

/// An exit code as it appears under `{:?}`.
pub open spec fn code_text(code: Option<i32>) -> Seq<char> {
    match code {
        Some(c) => "Some("@ + text::signed_decimal(c as int) + ")"@,
        None => "None"@,
    }
}

fn code_shown(code: Option<i32>) -> (r: String)
    ensures
        r@ == code_text(code),
{
    match code {
        Some(c) => glue3("Some(", i64_text(c as i64).as_str(), ")"),
        None => "None".to_string(),
    }
}

/// What comes of a command that changes units.
#[derive(Debug)]
pub enum MutStep {
    /// It succeeded.
    Succeeded,
    /// It failed for good: the reason.
    Failed(String),
    /// Print the line and try once more with sudo.
    Elevate(String),
}

/// The first attempt of a mutating systemctl: as the current user. A failed attempt on
/// a **system** unit is retried with `sudo`; one on a user unit is final.
pub fn systemctl_mut(
    scope: SystemdScope,
    args: &Vec<String>,
    reply: &Result<CommandOutput, String>,
) -> (r: MutStep)
    ensures
        ({
            let joined = text::joined(text::texts(args@), " "@);
            match reply {
                Err(e) => r matches MutStep::Failed(m) && m@ == "systemctl "@ + scope_label(scope)
                    + " "@ + joined + " failed to spawn: "@ + e@,
                Ok(o) => if o.success {
                    r is Succeeded
                } else if scope == SystemdScope::System {
                    r matches MutStep::Elevate(l) && l@
                        == "   … elevating with sudo for: systemctl "@ + joined + " …"@
                } else {
                    r matches MutStep::Failed(m) && m@ == "systemctl --user "@ + joined
                        + " failed (exit "@ + code_text(o.code) + "): "@ + text::trim(o.stderr@)
                },
            }
        }),
{
    let joined = join(args, " ");
    match reply {
        Err(e) => {
            let mut m = "systemctl ".to_string();
            m.append(scope.label());
            m.append(" ");
            m.append(joined.as_str());
            m.append(" failed to spawn: ");
            m.append(e.as_str());
            MutStep::Failed(m)
        },
        Ok(o) => {
            if o.success {
                return MutStep::Succeeded;
            }
            if scope == SystemdScope::System {
                return MutStep::Elevate(
                    glue3("   … elevating with sudo for: systemctl ", joined.as_str(), " …"),
                );
            }
            let mut m = "systemctl --user ".to_string();
            m.append(joined.as_str());
            m.append(" failed (exit ");
            m.append(code_shown(o.code).as_str());
            m.append("): ");
            m.append(trimmed(o.stderr.as_str()).as_str());
            MutStep::Failed(m)
        },
    }
}

fn trimmed(s: &str) -> (r: String)
    ensures
        r@ == text::trim(s@),
{
    let all = chars_of(s);
    string_of(slice_trim(all.as_slice()))
}

/// The retry with `sudo` after a first attempt that failed.
pub fn systemctl_sudo(
    args: &Vec<String>,
    first: &CommandOutput,
    reply: &Result<CommandOutput, String>,
) -> (r: Result<(), String>)
    ensures
        ({
            let joined = text::joined(text::texts(args@), " "@);
            match reply {
                Err(e) => r is Err && r->Err_0@ == "sudo systemctl "@ + joined
                    + " failed to spawn (is sudo available?): "@ + e@,
                Ok(o) => if o.success {
                    r is Ok
                } else {
                    r is Err && r->Err_0@ == "systemctl "@ + joined + " failed (exit "@
                        + code_text(first.code) + "): "@ + text::trim(first.stderr@)
                        + "; sudo retry (exit "@ + code_text(o.code) + "): "@ + text::trim(
                        o.stderr@,
                    )
                },
            }
        }),
{
    let joined = join(args, " ");
    match reply {
        Err(e) => {
            let mut m = "sudo systemctl ".to_string();
            m.append(joined.as_str());
            m.append(" failed to spawn (is sudo available?): ");
            m.append(e.as_str());
            Err(m)
        },
        Ok(o) => {
            if o.success {
                return Ok(());
            }
            let mut m = "systemctl ".to_string();
            m.append(joined.as_str());
            m.append(" failed (exit ");
            m.append(code_shown(first.code).as_str());
            m.append("): ");
            m.append(trimmed(first.stderr.as_str()).as_str());
            m.append("; sudo retry (exit ");
            m.append(code_shown(o.code).as_str());
            m.append("): ");
            m.append(trimmed(o.stderr.as_str()).as_str());
            Err(m)
        },
    }
}

/// Whether the answer to a yes-or-no question with default yes is a yes: nothing, or a
/// word that starts with `y` or `Y`. No answer at all is a no.
pub open spec fn answered_yes(answer: Option<Seq<char>>) -> bool {
    match answer {
        None => false,
        Some(a) => {
            let t = text::trim(a);
            t.len() == 0 || t[0] == 'y' || t[0] == 'Y'
        },
    }
}

/// Y/n with default yes.
pub fn prompt_yes_no(answer: Option<&str>) -> (r: bool)
    ensures
        r == answered_yes(
            match answer {
                Some(a) => Some(a@),
                None => None,
            },
        ),
{
    match answer {
        None => false,
        Some(a) => {
            let all = chars_of(a);
            let t = slice_trim(all.as_slice());
            t.len() == 0 || t[0] == 'y' || t[0] == 'Y'
        },
    }
}

/// Read the unit definition and extract the rclone `--cache-dir` path from it, given the
/// scope of the unit and the reply to `systemctl cat`.
pub fn extract_cache_dir_from_unit(
    unit: &str,
    scope: SystemdScope,
    reply: Result<CommandOutput, String>,
) -> (r: Result<String, String>)
    ensures
        match reply {
            Err(e) => r is Err && r->Err_0@ == "systemctl "@ + scope_label(scope) + " cat "@
                + unit@ + ": "@ + e@,
            Ok(o) => if !o.success {
                r is Err && r->Err_0@ == "cannot read "@ + scope_label(scope) + " unit "@ + unit@
                    + ": "@ + (if text::trim(o.stderr@).len() == 0 {
                    "not found or not loaded"@
                } else {
                    text::trim(o.stderr@)
                })
            } else {
                match cache_dir_in(o.stdout@) {
                    Some(p) => r is Ok && r->Ok_0@ == p,
                    None => r is Err && r->Err_0@ == "no --cache-dir found in unit "@ + unit@,
                }
            },
        },
{
    match reply {
        Err(e) => {
            let mut m = "systemctl ".to_string();
            m.append(scope.label());
            m.append(" cat ");
            m.append(unit);
            m.append(": ");
            m.append(e.as_str());
            Err(m)
        },
        Ok(o) => {
            if !o.success {
                let detail = trimmed(o.stderr.as_str());
                let mut m = "cannot read ".to_string();
                m.append(scope.label());
                m.append(" unit ");
                m.append(unit);
                m.append(": ");
                if chars_of(detail.as_str()).len() == 0 {
                    m.append("not found or not loaded");
                } else {
                    m.append(detail.as_str());
                }
                return Err(m);
            }
            match parse_cache_dir_flag(o.stdout.as_str()) {
                Some(p) => Ok(p),
                None => Err(glue("no --cache-dir found in unit ", unit)),
            }
        },
    }
}

/// The kinds of file-system failures that get advice of their own.
#[derive(Debug, Clone, Copy, PartialEq, Eq, Structural)]
pub enum FaultKind {
    PermissionDenied,
    NotFound,
    NotADirectory,
    Other,
}

/// A file-system failure.
#[derive(Debug)]
pub struct IoFault {
    pub kind: FaultKind,
    pub text: String,
}

/// The advice for a kind of failure.
pub open spec fn hint(kind: FaultKind) -> Seq<char> {
    match kind {
        FaultKind::PermissionDenied =>
            "permission denied — check ownership (chown) and mode (chmod); for FUSE mounts ensure the mount is up and you are the mounting user"@,
        FaultKind::NotFound =>
            "path not found — create the directory or start the mount/service first"@,
        FaultKind::NotADirectory => "not a directory"@,
        FaultKind::Other => "see OS error detail"@,
    }
}

/// The message about a failed operation on a path.
pub open spec fn permission_text(
    what: Seq<char>,
    shown: Seq<char>,
    fault: IoFault,
    op: Seq<char>,
) -> Seq<char> {
    what + " "@ + shown + ": cannot "@ + op + ": "@ + fault.text@ + " ("@ + hint(fault.kind)
        + ")"@
}

/// The message about a failed operation on a path, with advice.
pub fn permission_message(what: &str, shown: &str, fault: &IoFault, op: &str) -> (m: String)
    ensures
        m@ == permission_text(what@, shown@, *fault, op@),
{
    let advice = match fault.kind {
        FaultKind::PermissionDenied =>
            "permission denied — check ownership (chown) and mode (chmod); for FUSE mounts ensure the mount is up and you are the mounting user",
        FaultKind::NotFound =>
            "path not found — create the directory or start the mount/service first",
        FaultKind::NotADirectory => "not a directory",
        FaultKind::Other => "see OS error detail",
    };
    let mut m = what.to_string();
    m.append(" ");
    m.append(shown);
    m.append(": cannot ");
    m.append(op);
    m.append(": ");
    m.append(fault.text.as_str());
    m.append(" (");
    m.append(advice);
    m.append(")");
    m
}

/// How far a look at the sync directory came.
#[derive(Debug)]
pub enum SyncLook {
    Unstatted(IoFault),
    NotADirectory,
    Unlisted(IoFault),
    Listed,
}

/// The verdict on the sync directory.
pub open spec fn sync_verdict(shown: Seq<char>, look: SyncLook) -> Result<Seq<char>, Seq<char>> {
    match look {
        SyncLook::Unstatted(f) => Err(
            permission_text("sync (source) directory"@, shown, f, "stat / access"@),
        ),
        SyncLook::NotADirectory => Err("sync path is not a directory: "@ + shown),
        SyncLook::Unlisted(f) => Err(
            permission_text("sync (source) directory"@, shown, f, "list / read"@),
        ),
        SyncLook::Listed => Ok("directory readable (list OK)"@),
    }
}

/// The view of a check's result.
pub open spec fn checked(r: Result<String, String>) -> Result<Seq<char>, Seq<char>> {
    match r {
        Ok(s) => Ok(s@),
        Err(s) => Err(s@),
    }
}

/// Sync tree must exist as a directory and allow listing.
pub fn check_sync_readable(shown: &str, look: &SyncLook) -> (r: Result<String, String>)
    ensures
        checked(r) == sync_verdict(shown@, *look),
{
    match look {
        SyncLook::Unstatted(f) => Err(
            permission_message("sync (source) directory", shown, f, "stat / access"),
        ),
        SyncLook::NotADirectory => Err(glue("sync path is not a directory: ", shown)),
        SyncLook::Unlisted(f) => Err(
            permission_message("sync (source) directory", shown, f, "list / read"),
        ),
        SyncLook::Listed => Ok("directory readable (list OK)".to_string()),
    }
}

/// What a probe file holds.
pub const PROBE_CONTENT: &'static str = "wdc-ok";

/// The name of a probe file, made unique by a time stamp.
pub fn probe_name(stamp: u128) -> (r: String)
    ensures
        r@ == ".warm-drive-cache-probe-"@ + text::decimal(stamp as nat),
{
    glue(".warm-drive-cache-probe-", u128_text(stamp).as_str())
}

/// How far a probe of the cache directory came.
#[derive(Debug)]
pub enum CacheProbe {
    Unstatted(IoFault),
    NotADirectory,
    NotCreated(IoFault),
    NotWritten(IoFault),
    NotOpened(IoFault),
    NotRead(IoFault),
    /// The probe file was read back, and then deleted or not.
    ReadBack { content: String, deleted: Result<(), IoFault> },
}

/// The verdict on the cache directory.
pub open spec fn probe_verdict(cache: Seq<char>, probe: Seq<char>, result: CacheProbe) -> Result<
    Seq<char>,
    Seq<char>,
> {
    match result {
        CacheProbe::Unstatted(f) => Err(
            permission_text("rclone cache directory"@, cache, f, "stat / access"@),
        ),
        CacheProbe::NotADirectory => Err("cache path is not a directory: "@ + cache),
        CacheProbe::NotCreated(f) => Err(
            permission_text("rclone cache directory"@, cache, f, "create/write probe file"@),
        ),
        CacheProbe::NotWritten(f) => Err(
            permission_text("rclone cache probe file"@, probe, f, "write"@),
        ),
        CacheProbe::NotOpened(f) => Err(
            permission_text("rclone cache probe file"@, probe, f, "open for read"@),
        ),
        CacheProbe::NotRead(f) => Err(
            permission_text("rclone cache probe file"@, probe, f, "read"@),
        ),
        CacheProbe::ReadBack { content, deleted } => if content@ != PROBE_CONTENT@ {
            Err(
                "cache probe read-back mismatch at "@ + probe + " (got "@ + text::debug_text(
                    content@,
                ) + ")"@,
            )
        } else {
            match deleted {
                Ok(_) => Ok("write/read/delete probe OK"@),
                Err(f) => Err(permission_text("rclone cache probe file"@, probe, f, "delete"@)),
            }
        },
    }
}

/// Cache dir: a probe file must be created, written, read back and deleted.
pub fn check_cache_permissions(cache: &str, probe: &str, result: &CacheProbe) -> (r: Result<
    String,
    String,
>)
    ensures
        checked(r) == probe_verdict(cache@, probe@, *result),
{
    match result {
        CacheProbe::Unstatted(f) => Err(
            permission_message("rclone cache directory", cache, f, "stat / access"),
        ),
        CacheProbe::NotADirectory => Err(glue("cache path is not a directory: ", cache)),
        CacheProbe::NotCreated(f) => Err(
            permission_message("rclone cache directory", cache, f, "create/write probe file"),
        ),
        CacheProbe::NotWritten(f) => Err(
            permission_message("rclone cache probe file", probe, f, "write"),
        ),
        CacheProbe::NotOpened(f) => Err(
            permission_message("rclone cache probe file", probe, f, "open for read"),
        ),
        CacheProbe::NotRead(f) => Err(
            permission_message("rclone cache probe file", probe, f, "read"),
        ),
        CacheProbe::ReadBack { content, deleted } => {
            if !str_eq(content.as_str(), PROBE_CONTENT) {
                let mut m = glue3("cache probe read-back mismatch at ", probe, " (got ");
                m.append(debug_string(content.as_str()).as_str());
                m.append(")");
                return Err(m);
            }
            match deleted {
                Ok(_) => Ok("write/read/delete probe OK".to_string()),
                Err(f) => Err(permission_message("rclone cache probe file", probe, f, "delete")),
            }
        },
    }
}

/// The path of the unit file, from the reply to the query for it.
pub fn unit_file_path(unit: &str, scope: SystemdScope, reply: Result<CommandOutput, String>) -> (r:
    Result<String, String>)
    ensures
        match reply {
            Err(e) => r is Err && r->Err_0@ == "systemctl "@ + scope_label(scope)
                + " show FragmentPath: "@ + e@,
            Ok(o) => if !o.success {
                r is Err && r->Err_0@ == "could not resolve unit path for "@ + unit@
                    + " (not installed as "@ + scope_label(scope) + " unit?)"@
            } else if text::trim(o.stdout@).len() == 0 {
                r is Err && r->Err_0@ == "FragmentPath empty for "@ + unit@
            } else {
                r is Ok && r->Ok_0@ == text::trim(o.stdout@)
            },
        },
{
    match reply {
        Err(e) => {
            let mut m = "systemctl ".to_string();
            m.append(scope.label());
            m.append(" show FragmentPath: ");
            m.append(e.as_str());
            Err(m)
        },
        Ok(o) => {
            if !o.success {
                let mut m = "could not resolve unit path for ".to_string();
                m.append(unit);
                m.append(" (not installed as ");
                m.append(scope.label());
                m.append(" unit?)");
                return Err(m);
            }
            let path = trimmed(o.stdout.as_str());
            if chars_of(path.as_str()).len() == 0 {
                return Err(glue("FragmentPath empty for ", unit));
            }
            Ok(path)
        },
    }
}

/// How far a look at the unit file came.
#[derive(Debug)]
pub enum UnitLook {
    Missing,
    ParentUnstatted { parent: String, fault: IoFault },
    ParentUnlisted { parent: String, fault: IoFault },
    Unopened(IoFault),
    Unread(IoFault),
    Readable,
}

/// The verdict on a unit file.
pub open spec fn unit_verdict(path: Seq<char>, scope: SystemdScope, look: UnitLook) -> Result<
    Seq<char>,
    Seq<char>,
> {
    match look {
        UnitLook::Missing => Err("unit file missing: "@ + path),
        UnitLook::ParentUnstatted { parent, fault } => Err(
            permission_text("service unit directory"@, parent@, fault, "read metadata / list"@),
        ),
        UnitLook::ParentUnlisted { parent, fault } => Err(
            permission_text("service unit directory"@, parent@, fault, "list entries"@),
        ),
        UnitLook::Unopened(f) => Err(
            permission_text("service unit file"@, path, f, "open for read"@),
        ),
        UnitLook::Unread(f) => Err(permission_text("service unit file"@, path, f, "read"@)),
        UnitLook::Readable => Ok(
            "readable ("@ + path + ", "@ + scope_label(scope) + " scope)"@,
        ),
    }
}

/// The unit file and its directory must be readable.
pub fn check_unit_file_permissions(path: &str, scope: SystemdScope, look: &UnitLook) -> (r: Result<
    String,
    String,
>)
    ensures
        checked(r) == unit_verdict(path@, scope, *look),
{
    match look {
        UnitLook::Missing => Err(glue("unit file missing: ", path)),
        UnitLook::ParentUnstatted { parent, fault } => Err(
            permission_message(
                "service unit directory",
                parent.as_str(),
                fault,
                "read metadata / list",
            ),
        ),
        UnitLook::ParentUnlisted { parent, fault } => Err(
            permission_message("service unit directory", parent.as_str(), fault, "list entries"),
        ),
        UnitLook::Unopened(f) => Err(
            permission_message("service unit file", path, f, "open for read"),
        ),
        UnitLook::Unread(f) => Err(permission_message("service unit file", path, f, "read")),
        UnitLook::Readable => {
            let mut m = glue3("readable (", path, ", ");
            m.append(scope.label());
            m.append(" scope)");
            Ok(m)
        },
    }
}

/// Where the check of a service stands.
#[derive(Debug, Clone, Copy, PartialEq, Eq, Structural)]
pub enum ReadyPhase {
    /// Waiting to hear whether the unit is active.
    Active,
    /// The unit is active; waiting to hear whether it is enabled too.
    NoteEnabled,
    /// Waiting for the user's decision.
    Deciding,
    Reloading,
    Enabling,
    Starting,
    /// The unit was started; waiting to hear whether it is enabled.
    EnabledAfter,
    /// Waiting to hear whether it is active.
    ActiveAfter { enabled: bool },
    Done,
}

/// What the caller reports on a service.
#[derive(Debug)]
pub enum ReadyEvent {
    Active(Result<bool, String>),
    Enabled(Result<bool, String>),
    /// The user's decision.
    Answered(bool),
    /// The command that was asked for has run.
    Ran(Result<(), String>),
}

/// What the caller is to do about a service.
#[derive(Debug, Clone, Copy, PartialEq, Eq, Structural)]
pub enum ReadyAction {
    QueryActive,
    QueryEnabled,
    /// Ask the user, default yes.
    Prompt,
    RunReload,
    RunEnable,
    RunStart,
    Finish,
}

/// The effect of one report on a service.
pub struct ReadyMove {
    pub lines: Seq<Shown>,
    pub prompt: Option<Seq<char>>,
    pub phase: ReadyPhase,
    pub action: ReadyAction,
    pub result: Option<Result<bool, Seq<char>>>,
}

/// One step of the check of a service.
#[derive(Debug)]
pub struct ReadyStep {
    /// Lines to print.
    pub lines: Vec<Line>,
    /// The question to ask, where one is to be asked.
    pub prompt: Option<String>,
    pub phase: ReadyPhase,
    pub action: ReadyAction,
    /// Whether the service runs, once that is settled.
    pub result: Option<Result<bool, String>>,
}

/// The check of a service is over.
pub open spec fn settled(lines: Seq<Shown>, result: Result<bool, Seq<char>>) -> ReadyMove {
    ReadyMove {
        lines,
        prompt: None,
        phase: ReadyPhase::Done,
        action: ReadyAction::Finish,
        result: Some(result),
    }
}

/// The check of a service goes on.
pub open spec fn going_on(lines: Seq<Shown>, phase: ReadyPhase, action: ReadyAction) -> ReadyMove {
    ReadyMove { lines, prompt: None, phase, action, result: None }
}

/// `systemd (scope): unit`, as lines about a unit begin.
pub open spec fn unit_label(mark: Seq<char>, scope: SystemdScope, unit: Seq<char>) -> Seq<char> {
    mark + "systemd ("@ + scope_label(scope) + "): "@ + unit
}

/// The question whether to start a unit.
pub open spec fn start_question(scope: SystemdScope, unit: Seq<char>) -> Seq<char> {
    match scope {
        SystemdScope::User => "   Start user unit "@ + unit + " now? [Y/n] "@,
        SystemdScope::System => "   Start system unit "@ + unit
            + " now? (may require sudo) [Y/n] "@,
    }
}

/// The message about a unit that did not come up.
pub open spec fn not_up_text(
    scope: SystemdScope,
    unit: Seq<char>,
    enabled: bool,
    active: bool,
) -> Seq<char> {
    "after enable/start, "@ + unit + " is enabled="@ + report::truth(enabled) + " active="@
        + report::truth(active) + " (check "@ + (match scope {
        SystemdScope::User => "journalctl --user -u "@,
        SystemdScope::System => "journalctl -u "@,
    }) + unit + "; system units may need sudo / polkit)"@
}

/// What the caller is to do in a phase when nothing else is decided.
pub open spec fn ready_usual(phase: ReadyPhase) -> ReadyAction {
    match phase {
        ReadyPhase::Active => ReadyAction::QueryActive,
        ReadyPhase::NoteEnabled => ReadyAction::QueryEnabled,
        ReadyPhase::Deciding => ReadyAction::Prompt,
        ReadyPhase::Reloading => ReadyAction::RunReload,
        ReadyPhase::Enabling => ReadyAction::RunEnable,
        ReadyPhase::Starting => ReadyAction::RunStart,
        ReadyPhase::EnabledAfter => ReadyAction::QueryEnabled,
        ReadyPhase::ActiveAfter { .. } => ReadyAction::QueryActive,
        ReadyPhase::Done => ReadyAction::Finish,
    }
}

/// The steps of the check of a service: an active unit is ready; an inactive one is
/// started only if the user agrees, and never in a dry run; after `daemon-reload`,
/// `enable` and `start` it must be enabled and active.
pub open spec fn ready_move(
    unit: Seq<char>,
    scope: SystemdScope,
    dry_run: bool,
    verbose: bool,
    phase: ReadyPhase,
    event: ReadyEvent,
) -> ReadyMove {
    let none = Seq::<Shown>::empty();
    match (phase, event) {
        (ReadyPhase::Active, ReadyEvent::Active(Err(e))) => settled(none, Err(e@)),
        (ReadyPhase::Active, ReadyEvent::Active(Ok(true))) => if verbose {
            going_on(none, ReadyPhase::NoteEnabled, ReadyAction::QueryEnabled)
        } else {
            settled(none, Ok(true))
        },
        (ReadyPhase::Active, ReadyEvent::Active(Ok(false))) => {
            let lines = none.push(
                Shown::Out(unit_label("   ⚠️  "@, scope, unit) + " is not active"@),
            );
            if dry_run {
                settled(
                    lines.push(
                        Shown::Out(
                            "   --dry-run: would ask to start "@ + unit
                                + "; treating as skip for live warm path"@,
                        ),
                    ),
                    Ok(false),
                )
            } else {
                ReadyMove {
                    lines,
                    prompt: Some(start_question(scope, unit)),
                    phase: ReadyPhase::Deciding,
                    action: ReadyAction::Prompt,
                    result: None,
                }
            }
        },
        (ReadyPhase::NoteEnabled, ReadyEvent::Enabled(r)) => settled(
            none.push(
                Shown::Out(
                    unit_label("   ✓ "@, scope, unit) + " is active"@ + (if r == Ok::<
                        bool,
                        String,
                    >(true) {
                        " and enabled"@
                    } else {
                        ""@
                    }),
                ),
            ),
            Ok(true),
        ),
        (ReadyPhase::Deciding, ReadyEvent::Answered(yes)) => if yes {
            going_on(
                none.push(
                    Shown::Out(
                        "   … systemd "@ + scope_label(scope)
                            + ": daemon-reload, enable, start for "@ + unit + " …"@,
                    ),
                ),
                ReadyPhase::Reloading,
                ReadyAction::RunReload,
            )
        } else {
            settled(none, Ok(false))
        },
        (ReadyPhase::Reloading, ReadyEvent::Ran(Err(e))) => settled(none, Err(e@)),
        (ReadyPhase::Reloading, ReadyEvent::Ran(Ok(_))) => going_on(
            none,
            ReadyPhase::Enabling,
            ReadyAction::RunEnable,
        ),
        (ReadyPhase::Enabling, ReadyEvent::Ran(Err(e))) => settled(none, Err(e@)),
        (ReadyPhase::Enabling, ReadyEvent::Ran(Ok(_))) => going_on(
            none,
            ReadyPhase::Starting,
            ReadyAction::RunStart,
        ),
        (ReadyPhase::Starting, ReadyEvent::Ran(Err(e))) => settled(none, Err(e@)),
        (ReadyPhase::Starting, ReadyEvent::Ran(Ok(_))) => going_on(
            none,
            ReadyPhase::EnabledAfter,
            ReadyAction::QueryEnabled,
        ),
        (ReadyPhase::EnabledAfter, ReadyEvent::Enabled(Err(e))) => settled(none, Err(e@)),
        (ReadyPhase::EnabledAfter, ReadyEvent::Enabled(Ok(enabled))) => going_on(
            none,
            ReadyPhase::ActiveAfter { enabled },
            ReadyAction::QueryActive,
        ),
        (ReadyPhase::ActiveAfter { enabled: _ }, ReadyEvent::Active(Err(e))) => settled(
            none,
            Err(e@),
        ),
        (ReadyPhase::ActiveAfter { enabled }, ReadyEvent::Active(Ok(active))) => if enabled
            && active {
            settled(
                none.push(
                    Shown::Out(unit_label("   ✓ "@, scope, unit) + " is enabled and active"@),
                ),
                Ok(true),
            )
        } else {
            settled(none, Err(not_up_text(scope, unit, enabled, active)))
        },
        _ => going_on(none, phase, ready_usual(phase)),
    }
}

/// The view of a service's verdict.
pub open spec fn ready_result(r: Option<Result<bool, String>>) -> Option<Result<bool, Seq<char>>> {
    match r {
        Some(Ok(b)) => Some(Ok(b)),
        Some(Err(e)) => Some(Err(e@)),
        None => None,
    }
}

/// The step and the move agree.
pub open spec fn ready_agrees(step: ReadyStep, m: ReadyMove) -> bool {
    &&& report::shown(step.lines@) == m.lines
    &&& text::opt_view(step.prompt) == m.prompt
    &&& step.phase == m.phase
    &&& step.action == m.action
    &&& ready_result(step.result) == m.result
}

fn settle_ready(lines: Vec<Line>, result: Result<bool, String>) -> (r: ReadyStep)
    ensures
        ready_agrees(
            r,
            settled(
                report::shown(lines@),
                match result {
                    Ok(b) => Ok(b),
                    Err(e) => Err(e@),
                },
            ),
        ),
{
    ReadyStep {
        lines,
        prompt: None,
        phase: ReadyPhase::Done,
        action: ReadyAction::Finish,
        result: Some(result),
    }
}

fn go_on(lines: Vec<Line>, phase: ReadyPhase, action: ReadyAction) -> (r: ReadyStep)
    ensures
        ready_agrees(r, going_on(report::shown(lines@), phase, action)),
{
    ReadyStep { lines, prompt: None, phase, action, result: None }
}

fn unit_line(mark: &str, scope: SystemdScope, unit: &str, rest: &str) -> (r: String)
    ensures
        r@ == unit_label(mark@, scope, unit@) + rest@,
{
    let mut r = mark.to_string();
    r.append("systemd (");
    r.append(scope.label());
    r.append("): ");
    r.append(unit);
    r.append(rest);
    r
}

fn ask_start(scope: SystemdScope, unit: &str) -> (r: String)
    ensures
        r@ == start_question(scope, unit@),
{
    match scope {
        SystemdScope::User => glue3("   Start user unit ", unit, " now? [Y/n] "),
        SystemdScope::System => glue3(
            "   Start system unit ",
            unit,
            " now? (may require sudo) [Y/n] ",
        ),
    }
}

fn not_up(scope: SystemdScope, unit: &str, enabled: bool, active: bool) -> (r: String)
    ensures
        r@ == not_up_text(scope, unit@, enabled, active),
{
    let mut r = "after enable/start, ".to_string();
    r.append(unit);
    r.append(" is enabled=");
    r.append(truth_text(enabled).as_str());
    r.append(" active=");
    r.append(truth_text(active).as_str());
    r.append(" (check ");
    match scope {
        SystemdScope::User => r.append("journalctl --user -u "),
        SystemdScope::System => r.append("journalctl -u "),
    }
    r.append(unit);
    r.append("; system units may need sudo / polkit)");
    r
}

fn usual_ready_action(phase: ReadyPhase) -> (r: ReadyAction)
    ensures
        r == ready_usual(phase),
{
    match phase {
        ReadyPhase::Active => ReadyAction::QueryActive,
        ReadyPhase::NoteEnabled => ReadyAction::QueryEnabled,
        ReadyPhase::Deciding => ReadyAction::Prompt,
        ReadyPhase::Reloading => ReadyAction::RunReload,
        ReadyPhase::Enabling => ReadyAction::RunEnable,
        ReadyPhase::Starting => ReadyAction::RunStart,
        ReadyPhase::EnabledAfter => ReadyAction::QueryEnabled,
        ReadyPhase::ActiveAfter { .. } => ReadyAction::QueryActive,
        ReadyPhase::Done => ReadyAction::Finish,
    }
}

/// One step of ensuring that a unit is active: if it is not, ask (or simulate in a dry
/// run) to start it, then verify that it is enabled and active.
pub fn ensure_service_ready(
    unit: &str,
    scope: SystemdScope,
    dry_run: bool,
    verbose: bool,
    phase: ReadyPhase,
    event: ReadyEvent,
) -> (r: ReadyStep)
    ensures
        ready_agrees(r, ready_move(unit@, scope, dry_run, verbose, phase, event)),
{
    let mut lines = no_lines();
    match (phase, event) {
        (ReadyPhase::Active, ReadyEvent::Active(reply)) => match reply {
            Err(e) => settle_ready(lines, Err(e)),
            Ok(active) => {
                if active {
                    if verbose {
                        return go_on(lines, ReadyPhase::NoteEnabled, ReadyAction::QueryEnabled);
                    }
                    return settle_ready(lines, Ok(true));
                }
                out(&mut lines, unit_line("   ⚠️  ", scope, unit, " is not active").as_str());
                if dry_run {
                    out(
                        &mut lines,
                        glue3(
                            "   --dry-run: would ask to start ",
                            unit,
                            "; treating as skip for live warm path",
                        ).as_str(),
                    );
                    return settle_ready(lines, Ok(false));
                }
                ReadyStep {
                    lines,
                    prompt: Some(ask_start(scope, unit)),
                    phase: ReadyPhase::Deciding,
                    action: ReadyAction::Prompt,
                    result: None,
                }
            },
        },
        (ReadyPhase::NoteEnabled, ReadyEvent::Enabled(reply)) => {
            let enabled = match &reply {
                Ok(b) => *b,
                Err(_) => false,
            };
            let mut line = unit_line("   ✓ ", scope, unit, " is active");
            if enabled {
                line.append(" and enabled");
            } else {
                line.append("");
            }
            out(&mut lines, line.as_str());
            settle_ready(lines, Ok(true))
        },
        (ReadyPhase::Deciding, ReadyEvent::Answered(yes)) => {
            if !yes {
                return settle_ready(lines, Ok(false));
            }
            let mut line = "   … systemd ".to_string();
            line.append(scope.label());
            line.append(": daemon-reload, enable, start for ");
            line.append(unit);
            line.append(" …");
            out(&mut lines, line.as_str());
            go_on(lines, ReadyPhase::Reloading, ReadyAction::RunReload)
        },
        (ReadyPhase::Reloading, ReadyEvent::Ran(reply)) => match reply {
            Err(e) => settle_ready(lines, Err(e)),
            Ok(_) => go_on(lines, ReadyPhase::Enabling, ReadyAction::RunEnable),
        },
        (ReadyPhase::Enabling, ReadyEvent::Ran(reply)) => match reply {
            Err(e) => settle_ready(lines, Err(e)),
            Ok(_) => go_on(lines, ReadyPhase::Starting, ReadyAction::RunStart),
        },
        (ReadyPhase::Starting, ReadyEvent::Ran(reply)) => match reply {
            Err(e) => settle_ready(lines, Err(e)),
            Ok(_) => go_on(lines, ReadyPhase::EnabledAfter, ReadyAction::QueryEnabled),
        },
        (ReadyPhase::EnabledAfter, ReadyEvent::Enabled(reply)) => match reply {
            Err(e) => settle_ready(lines, Err(e)),
            Ok(enabled) => go_on(
                lines,
                ReadyPhase::ActiveAfter { enabled },
                ReadyAction::QueryActive,
            ),
        },
        (ReadyPhase::ActiveAfter { enabled }, ReadyEvent::Active(reply)) => match reply {
            Err(e) => settle_ready(lines, Err(e)),
            Ok(active) => {
                if enabled && active {
                    out(
                        &mut lines,
                        unit_line("   ✓ ", scope, unit, " is enabled and active").as_str(),
                    );
                    return settle_ready(lines, Ok(true));
                }
                settle_ready(lines, Err(not_up(scope, unit, enabled, active)))
            },
        },
        (phase, _) => go_on(lines, phase, usual_ready_action(phase)),
    }
}

/// Units are changed only on the user's yes, and a dry run never asks: the first
/// command that changes anything follows an answer, and a question is only asked where
/// the run is not a dry one.
pub proof fn law_units_change_only_on_yes(
    unit: Seq<char>,
    scope: SystemdScope,
    dry_run: bool,
    verbose: bool,
    phase: ReadyPhase,
    event: ReadyEvent,
)
    ensures
        ({
            let m = ready_move(unit, scope, dry_run, verbose, phase, event);
            &&& m.action == ReadyAction::RunReload && phase != ReadyPhase::Reloading ==> phase
                == ReadyPhase::Deciding && event == ReadyEvent::Answered(true)
            &&& m.action == ReadyAction::RunEnable && phase != ReadyPhase::Enabling ==> phase
                == ReadyPhase::Reloading
            &&& m.action == ReadyAction::RunStart && phase != ReadyPhase::Starting ==> phase
                == ReadyPhase::Enabling
            &&& m.phase == ReadyPhase::Deciding && phase != ReadyPhase::Deciding ==> !dry_run
            &&& phase == ReadyPhase::Active && event is Active && dry_run ==> m.result is Some
                || m.phase == ReadyPhase::NoteEnabled
        }),
{
}

/// A service that had to be started counts as ready only if it is then enabled and
/// active.
pub proof fn law_started_means_enabled_and_active(
    unit: Seq<char>,
    scope: SystemdScope,
    dry_run: bool,
    verbose: bool,
    phase: ReadyPhase,
    event: ReadyEvent,
)
    requires
        phase != ReadyPhase::Active,
        phase != ReadyPhase::NoteEnabled,
        ready_move(unit, scope, dry_run, verbose, phase, event).result == Some(
            Ok::<bool, Seq<char>>(true),
        ),
    ensures
        phase == (ReadyPhase::ActiveAfter { enabled: true }),
        event == ReadyEvent::Active(Ok(true)),
{
}

/// The unit that a pair names, without white space around it; nothing where there is
/// none.
pub open spec fn named_service(pair: PathPair) -> Option<Seq<char>> {
    match pair.service {
        None => None,
        Some(s) => if text::trim(s@).len() == 0 {
            None
        } else {
            Some(text::trim(s@))
        },
    }
}

/// The unit that a pair names.
pub fn service_of(pair: &PathPair) -> (r: Option<String>)
    ensures
        text::opt_view(r) == named_service(*pair),
{
    match &pair.service {
        None => None,
        Some(s) => {
            let t = trimmed(s.as_str());
            if chars_of(t.as_str()).len() == 0 {
                None
            } else {
                Some(t)
            }
        },
    }
}

/// Where the pre-flight check of a pair stands.
#[derive(Debug, Clone, Copy, PartialEq, Eq, Structural)]
pub enum PairPhase {
    Begin,
    /// Waiting for the scope of the unit.
    Scope,
    /// Waiting for the service.
    Service,
    /// Waiting for the mount to settle.
    Settling,
    /// Waiting for the check of the sync directory.
    Sync,
    /// Waiting for the probe of the cache directory; whether all is well so far.
    Cache { ok: bool },
    /// Waiting for the look at the unit file; whether all is well.
    UnitFile { ok: bool },
    /// The check is over, and whether the pair may be processed.
    Done { go: bool },
}

/// What the caller reports on a pair.
#[derive(Debug)]
pub enum PairEvent {
    Begin,
    Scope(Result<SystemdScope, String>),
    Service(Result<bool, String>),
    Settled,
    Checked(Result<String, String>),
}

/// What the caller is to do for a pair.
#[derive(Debug, Clone, Copy, PartialEq, Eq, Structural)]
pub enum PairAction {
    ResolveScope,
    EnsureService(SystemdScope),
    Settle,
    CheckSync,
    ProbeCache,
    CheckUnitFile,
    Finish(bool),
}

/// The effect of one report on a pair.
pub struct PairMove {
    pub lines: Seq<Shown>,
    pub phase: PairPhase,
    pub action: PairAction,
}

/// A line that only a verbose run prints.
pub open spec fn push_if(lines: Seq<Shown>, verbose: bool, line: Seq<char>) -> Seq<Shown> {
    if verbose {
        lines.push(Shown::Out(line))
    } else {
        lines
    }
}

/// The end of a check.
pub open spec fn concluded(lines: Seq<Shown>, verbose: bool, ok: bool) -> PairMove {
    if ok {
        PairMove {
            lines: push_if(
                lines,
                verbose,
                "   ✓ Pre-flight OK — proceeding with cache maintenance for this pair."@,
            ),
            phase: PairPhase::Done { go: true },
            action: PairAction::Finish(true),
        }
    } else {
        PairMove {
            lines: lines.push(Shown::Out(""@)).push(
                Shown::Out(
                    "   ⛔ Permission or path checks failed — cache warmer will not run for this pair."@,
                ),
            ).push(
                Shown::Out(
                    "   Fix ownership/mode on the sync mount and/or rclone --cache-dir, then retry."@,
                ),
            ),
            phase: PairPhase::Done { go: false },
            action: PairAction::Finish(false),
        }
    }
}

/// The line about a check: what was found is for verbose runs, what is wrong for all.
pub open spec fn check_line(
    lines: Seq<Shown>,
    verbose: bool,
    good: Seq<char>,
    bad: Seq<char>,
    result: Result<String, String>,
) -> Seq<Shown> {
    match result {
        Ok(m) => push_if(lines, verbose, good + m@),
        Err(e) => lines.push(Shown::Out(bad + e@)),
    }
}

/// The pair is skipped because its service does not run.
pub open spec fn no_service(lines: Seq<Shown>) -> PairMove {
    PairMove {
        lines: lines.push(Shown::Out(""@)).push(
            Shown::Out(
                "   ⛔ Service not operational — cache warmer will not run for this pair."@,
            ),
        ),
        phase: PairPhase::Done { go: false },
        action: PairAction::Finish(false),
    }
}

/// On to the mount.
pub open spec fn to_settle(lines: Seq<Shown>) -> PairMove {
    PairMove { lines, phase: PairPhase::Settling, action: PairAction::Settle }
}

/// What the caller is to do in a phase when nothing else is decided.
pub open spec fn pair_usual(phase: PairPhase) -> PairAction {
    match phase {
        PairPhase::Begin => PairAction::ResolveScope,
        PairPhase::Scope => PairAction::ResolveScope,
        PairPhase::Service => PairAction::ResolveScope,
        PairPhase::Settling => PairAction::Settle,
        PairPhase::Sync => PairAction::CheckSync,
        PairPhase::Cache { .. } => PairAction::ProbeCache,
        PairPhase::UnitFile { .. } => PairAction::CheckUnitFile,
        PairPhase::Done { go } => PairAction::Finish(go),
    }
}

/// The steps of a pre-flight check: the service first, then the mount, then the probes.
pub open spec fn pair_move(
    pair: PathPair,
    verbose: bool,
    phase: PairPhase,
    event: PairEvent,
) -> PairMove {
    let none = Seq::<Shown>::empty();
    let service = named_service(pair);
    match (phase, event) {
        (PairPhase::Begin, PairEvent::Begin) => {
            let head = if verbose {
                none.push(Shown::Out(""@)).push(Shown::Out("🔎 Pre-flight checks"@)).push(
                    Shown::Out("   sync:  "@ + pair.sync@),
                ).push(Shown::Out("   cache: "@ + pair.cache@))
            } else {
                none
            };
            match service {
                Some(_) => PairMove {
                    lines: head,
                    phase: PairPhase::Scope,
                    action: PairAction::ResolveScope,
                },
                None => to_settle(
                    push_if(
                        head,
                        verbose,
                        "   unit:  (none configured — skipping systemd checks)"@,
                    ),
                ),
            }
        },
        (PairPhase::Scope, PairEvent::Scope(Ok(scope))) => PairMove {
            lines: push_if(
                none,
                verbose,
                "   unit:  "@ + service->0 + " (systemd "@ + scope_label(scope) + ")"@,
            ),
            phase: PairPhase::Service,
            action: PairAction::EnsureService(scope),
        },
        (PairPhase::Scope, PairEvent::Scope(Err(e))) => no_service(
            push_if(none, verbose, "   unit:  "@ + service->0).push(
                Shown::Out("   ⚠️  systemd: "@ + e@),
            ),
        ),
        (PairPhase::Service, PairEvent::Service(Ok(true))) => to_settle(none),
        (PairPhase::Service, PairEvent::Service(Ok(false))) => {
            let m = no_service(none);
            PairMove {
                lines: m.lines.push(
                    Shown::Out(
                        "   Reason: unit is inactive and was not started; warming an unmounted tree has no benefit."@,
                    ),
                ),
                ..m
            }
        },
        (PairPhase::Service, PairEvent::Service(Err(e))) => no_service(
            none.push(Shown::Out("   ⚠️  systemd check failed: "@ + e@)),
        ),
        (PairPhase::Settling, PairEvent::Settled) => PairMove {
            lines: none,
            phase: PairPhase::Sync,
            action: PairAction::CheckSync,
        },
        (PairPhase::Sync, PairEvent::Checked(r)) => PairMove {
            lines: check_line(none, verbose, "   ✓ sync access: "@, "   ✗ sync access: "@, r),
            phase: PairPhase::Cache { ok: r is Ok },
            action: PairAction::ProbeCache,
        },
        (PairPhase::Cache { ok }, PairEvent::Checked(r)) => {
            let lines = check_line(
                none,
                verbose,
                "   ✓ cache access: "@,
                "   ✗ cache access: "@,
                r,
            );
            match service {
                Some(_) => PairMove {
                    lines,
                    phase: PairPhase::UnitFile { ok: ok && r is Ok },
                    action: PairAction::CheckUnitFile,
                },
                None => concluded(lines, verbose, ok && r is Ok),
            }
        },
        (PairPhase::UnitFile { ok }, PairEvent::Checked(r)) => concluded(
            check_line(none, verbose, "   ✓ unit file: "@, "   ⚠️  unit file: "@, r),
            verbose,
            ok && r is Ok,
        ),
        _ => PairMove { lines: none, phase, action: pair_usual(phase) },
    }
}

fn say_if(lines: &mut Vec<Line>, verbose: bool, line: &str)
    ensures
        report::shown(final(lines)@) == push_if(report::shown(old(lines)@), verbose, line@),
{
    if verbose {
        out(lines, line);
    }
}

fn say_check(
    lines: &mut Vec<Line>,
    verbose: bool,
    good: &str,
    bad: &str,
    result: &Result<String, String>,
)
    ensures
        report::shown(final(lines)@) == check_line(
            report::shown(old(lines)@),
            verbose,
            good@,
            bad@,
            *result,
        ),
{
    match result {
        Ok(m) => say_if(lines, verbose, glue(good, m.as_str()).as_str()),
        Err(e) => out(lines, glue(bad, e.as_str()).as_str()),
    }
}

fn conclude(lines: Vec<Line>, verbose: bool, ok: bool) -> (r: (Vec<Line>, PairPhase, PairAction))
    ensures
        ({
            let m = concluded(report::shown(lines@), verbose, ok);
            report::shown(r.0@) == m.lines && r.1 == m.phase && r.2 == m.action
        }),
{
    let mut lines = lines;
    if ok {
        say_if(
            &mut lines,
            verbose,
            "   ✓ Pre-flight OK — proceeding with cache maintenance for this pair.",
        );
    } else {
        out(&mut lines, "");
        out(
            &mut lines,
            "   ⛔ Permission or path checks failed — cache warmer will not run for this pair.",
        );
        out(
            &mut lines,
            "   Fix ownership/mode on the sync mount and/or rclone --cache-dir, then retry.",
        );
    }
    (lines, PairPhase::Done { go: ok }, PairAction::Finish(ok))
}

fn skip_pair(lines: Vec<Line>) -> (r: (Vec<Line>, PairPhase, PairAction))
    ensures
        ({
            let m = no_service(report::shown(lines@));
            report::shown(r.0@) == m.lines && r.1 == m.phase && r.2 == m.action
        }),
{
    let mut lines = lines;
    out(&mut lines, "");
    out(&mut lines, "   ⛔ Service not operational — cache warmer will not run for this pair.");
    (lines, PairPhase::Done { go: false }, PairAction::Finish(false))
}

/// One step of the pre-flight check of a pair: service status, optional start prompt,
/// settle wait, and permission probes. Failures are always shown; what is well is shown
/// to verbose runs.
pub fn check_path_pair(pair: &PathPair, verbose: bool, phase: PairPhase, event: PairEvent) -> (r: (
    Vec<Line>,
    PairPhase,
    PairAction,
))
    requires
        phase == PairPhase::Scope ==> named_service(*pair) is Some,
    ensures
        ({
            let m = pair_move(*pair, verbose, phase, event);
            &&& report::shown(r.0@) == m.lines
            &&& r.1 == m.phase
            &&& r.2 == m.action
        }),
        r.1 == PairPhase::Scope ==> named_service(*pair) is Some,
{
    let mut lines = no_lines();
    let service = service_of(pair);
    match (phase, event) {
        (PairPhase::Begin, PairEvent::Begin) => {
            if verbose {
                out(&mut lines, "");
                out(&mut lines, "🔎 Pre-flight checks");
                out(&mut lines, glue("   sync:  ", pair.sync.as_str()).as_str());
                out(&mut lines, glue("   cache: ", pair.cache.as_str()).as_str());
            }
            match service {
                Some(_) => (lines, PairPhase::Scope, PairAction::ResolveScope),
                None => {
                    say_if(
                        &mut lines,
                        verbose,
                        "   unit:  (none configured — skipping systemd checks)",
                    );
                    (lines, PairPhase::Settling, PairAction::Settle)
                },
            }
        },
        (PairPhase::Scope, PairEvent::Scope(reply)) => {
            let unit = match &service {
                Some(s) => s.as_str(),
                None => "",
            };
            match reply {
                Ok(scope) => {
                    let mut line = "   unit:  ".to_string();
                    line.append(unit);
                    line.append(" (systemd ");
                    line.append(scope.label());
                    line.append(")");
                    say_if(&mut lines, verbose, line.as_str());
                    (lines, PairPhase::Service, PairAction::EnsureService(scope))
                },
                Err(e) => {
                    say_if(&mut lines, verbose, glue("   unit:  ", unit).as_str());
                    out(&mut lines, glue("   ⚠️  systemd: ", e.as_str()).as_str());
                    skip_pair(lines)
                },
            }
        },
        (PairPhase::Service, PairEvent::Service(reply)) => match reply {
            Ok(ready) => {
                if ready {
                    return (lines, PairPhase::Settling, PairAction::Settle);
                }
                let (mut lines, phase, action) = skip_pair(lines);
                out(
                    &mut lines,
                    "   Reason: unit is inactive and was not started; warming an unmounted tree has no benefit.",
                );
                (lines, phase, action)
            },
            Err(e) => {
                out(&mut lines, glue("   ⚠️  systemd check failed: ", e.as_str()).as_str());
                skip_pair(lines)
            },
        },
        (PairPhase::Settling, PairEvent::Settled) => (
            lines,
            PairPhase::Sync,
            PairAction::CheckSync,
        ),
        (PairPhase::Sync, PairEvent::Checked(result)) => {
            say_check(&mut lines, verbose, "   ✓ sync access: ", "   ✗ sync access: ", &result);
            (lines, PairPhase::Cache { ok: result.is_ok() }, PairAction::ProbeCache)
        },
        (PairPhase::Cache { ok }, PairEvent::Checked(result)) => {
            say_check(&mut lines, verbose, "   ✓ cache access: ", "   ✗ cache access: ", &result);
            let ok = ok && result.is_ok();
            match service {
                Some(_) => (lines, PairPhase::UnitFile { ok }, PairAction::CheckUnitFile),
                None => conclude(lines, verbose, ok),
            }
        },
        (PairPhase::UnitFile { ok }, PairEvent::Checked(result)) => {
            say_check(&mut lines, verbose, "   ✓ unit file: ", "   ⚠️  unit file: ", &result);
            conclude(lines, verbose, ok && result.is_ok())
        },
        (phase, _) => {
            let action = match phase {
                PairPhase::Begin => PairAction::ResolveScope,
                PairPhase::Scope => PairAction::ResolveScope,
                PairPhase::Service => PairAction::ResolveScope,
                PairPhase::Settling => PairAction::Settle,
                PairPhase::Sync => PairAction::CheckSync,
                PairPhase::Cache { .. } => PairAction::ProbeCache,
                PairPhase::UnitFile { .. } => PairAction::CheckUnitFile,
                PairPhase::Done { go } => PairAction::Finish(go),
            };
            (lines, phase, action)
        },
    }
}

/// Where a check stands after a sequence of reports.
pub open spec fn pair_after(pair: PathPair, verbose: bool, events: Seq<PairEvent>) -> PairPhase
    decreases events.len(),
{
    if events.len() == 0 {
        PairPhase::Begin
    } else {
        pair_move(
            pair,
            verbose,
            pair_after(pair, verbose, events.drop_last()),
            events.last(),
        ).phase
    }
}

/// How many of the checks of files and directories have passed: that of the sync
/// directory, the probe of the cache directory and the look at the unit file.
pub open spec fn passed(pair: PathPair, verbose: bool, events: Seq<PairEvent>) -> nat
    decreases events.len(),
{
    if events.len() == 0 {
        0
    } else {
        let before = pair_after(pair, verbose, events.drop_last());
        passed(pair, verbose, events.drop_last()) + if (before == PairPhase::Sync || before is Cache
            || before is UnitFile) && events.last() is Checked && events.last()->Checked_0 is Ok {
            1nat
        } else {
            0
        }
    }
}

/// The service was reported to run while the check was waiting for it.
pub open spec fn service_ran(pair: PathPair, verbose: bool, events: Seq<PairEvent>) -> bool
    decreases events.len(),
{
    events.len() > 0 && (service_ran(pair, verbose, events.drop_last()) || (pair_after(
        pair,
        verbose,
        events.drop_last(),
    ) == PairPhase::Service && events.last() == PairEvent::Service(Ok(true))))
}

/// A pair is processed only if its service, where it names one, was found to run, and
/// only if every check of its files and directories passed: that of the sync directory,
/// the probe of the cache directory and, where a service is named, that of the unit file.
pub proof fn law_go_needs_passed_checks(pair: PathPair, verbose: bool, events: Seq<PairEvent>)
    ensures
        pair_after(pair, verbose, events) == (PairPhase::Done { go: true }) ==> {
            &&& passed(pair, verbose, events) == if named_service(pair) is Some {
                3nat
            } else {
                2nat
            }
            &&& named_service(pair) is Some ==> service_ran(pair, verbose, events)
        },
{
    lemma_checks_so_far(pair, verbose, events);
}

proof fn lemma_checks_so_far(pair: PathPair, verbose: bool, events: Seq<PairEvent>)
    ensures
        ({
            let n = passed(pair, verbose, events);
            let ran = named_service(pair) is Some ==> service_ran(pair, verbose, events);
            match pair_after(pair, verbose, events) {
                PairPhase::Done { go } => go ==> ran && n == if named_service(pair) is Some {
                    3nat
                } else {
                    2nat
                },
                PairPhase::UnitFile { ok } => ran && named_service(pair) is Some && (ok ==> n == 2),
                PairPhase::Cache { ok } => ran && (ok ==> n == 1),
                PairPhase::Settling => ran && n == 0,
                PairPhase::Sync => ran && n == 0,
                _ => n == 0,
            }
        }),
    decreases events.len(),
{
    if events.len() > 0 {
        lemma_checks_so_far(pair, verbose, events.drop_last());
    }
}

/// The name that the report gives for the service of a pair.
pub open spec fn reported_service(pair: PathPair) -> Seq<char> {
    match named_service(pair) {
        Some(s) => s,
        None => "(none — no paths[].service in config)"@,
    }
}

/// What stands where the cache directory should be.
#[derive(Debug, Clone, Copy, PartialEq, Eq, Structural)]
pub enum CacheState {
    /// A directory of this many bytes.
    Directory(u64),
    NotADirectory,
    Missing,
}

/// What was found for one entry of the configuration.
#[derive(Debug)]
pub struct EntryFacts {
    /// The sync path is a directory.
    pub sync_is_dir: bool,
    /// The check of the sync directory, where it is one.
    pub sync_access: Option<Result<String, String>>,
    /// The cache directory that the unit names, where a unit is named.
    pub unit_cache: Option<Result<String, String>>,
    /// What stands at the effective cache path.
    pub cache: CacheState,
    /// The probe of the configured cache directory, where it is one.
    pub cache_access: Option<Result<String, String>>,
    /// The scope of the unit and whether it is active, where a unit is named.
    pub unit: Option<Result<(SystemdScope, Result<bool, String>), String>>,
}

/// The cache path that the size report uses: that of the unit, else the configured one.
pub open spec fn effective(pair: PathPair, unit_cache: Option<Result<String, String>>) -> Seq<char> {
    match unit_cache {
        Some(Ok(p)) => p@,
        _ => pair.cache@,
    }
}

/// The cache path that the size report uses.
pub fn effective_cache(pair: &PathPair, unit_cache: &Option<Result<String, String>>) -> (r: String)
    ensures
        r@ == effective(*pair, *unit_cache),
{
    match unit_cache {
        Some(Ok(p)) => p.clone(),
        _ => pair.cache.clone(),
    }
}

/// A line on standard output.
pub open spec fn o(line: Seq<char>) -> Shown {
    Shown::Out(line)
}

/// A line about the outcome of an access check.
pub open spec fn access_line(
    lines: Seq<Shown>,
    label: Seq<char>,
    access: Option<Result<String, String>>,
) -> Seq<Shown> {
    match access {
        None => lines,
        Some(Ok(m)) => lines.push(o(label + m@)),
        Some(Err(e)) => lines.push(o(label + e@)),
    }
}

/// An access check that was made and failed.
pub open spec fn access_failed(access: Option<Result<String, String>>) -> bool {
    access matches Some(r) && r is Err
}

/// The lines about the cache directory as the unit names it.
pub open spec fn unit_cache_lines(pair: PathPair, unit_cache: Option<Result<String, String>>) -> Seq<
    Shown,
> {
    let none = Seq::<Shown>::empty();
    match unit_cache {
        Some(Ok(p)) => {
            let lines = none.push(o("    from unit --cache-dir:  "@ + p@));
            if p@ != pair.cache@ {
                lines.push(
                    o(
                        "    note: config cache differs from unit --cache-dir (using unit path for size report)"@,
                    ),
                )
            } else {
                lines
            }
        },
        Some(Err(e)) => none.push(
            o("    from unit --cache-dir:  (not found)  ["@ + e@ + "]"@),
        ).push(o("    effective for size:     "@ + pair.cache@ + "  (config value)"@)),
        None => none.push(o("    effective for size:     "@ + pair.cache@ + "  (config value)"@)),
    }
}

/// The line about the size of the cache.
pub open spec fn cache_size_line(state: CacheState) -> Seq<char> {
    match state {
        CacheState::Directory(n) => "    current size:           "@ + cache_ops::bytes_text(
            n as nat,
        ),
        CacheState::NotADirectory =>
            "    current size:           (path exists but is not a directory)"@,
        CacheState::Missing => "    current size:           (directory does not exist yet)"@,
    }
}

/// The lines about the unit of an entry.
pub open spec fn unit_state_lines(
    unit: Option<Result<(SystemdScope, Result<bool, String>), String>>,
) -> Seq<Shown> {
    let none = Seq::<Shown>::empty();
    match unit {
        None => none,
        Some(Err(e)) => none.push(o("  systemd:  (not found: "@ + e@ + ")"@)),
        Some(Ok((scope, Ok(active)))) => none.push(
            o(
                (if active {
                    "  systemd:  active ("@
                } else {
                    "  systemd:  inactive ("@
                }) + scope_label(scope) + ")"@,
            ),
        ),
        Some(Ok((_, Err(e)))) => none.push(o("  systemd:  (check failed: "@ + e@ + ")"@)),
    }
}

/// The first lines about an entry.
pub open spec fn entry_head(i: nat, pair: PathPair, facts: EntryFacts) -> Seq<Shown> {
    let rule = "────────────────────────────────────────────────────────────"@;
    let lines = Seq::<Shown>::empty().push(o(rule)).push(o("  Entry "@ + text::decimal(i))).push(
        o(rule),
    ).push(o(""@)).push(o("  Service name"@)).push(o("    "@ + reported_service(pair))).push(
        o(""@),
    ).push(o("  File directory  (config paths[].sync — mount / warm target)"@)).push(
        o("    "@ + pair.sync@),
    ).push(
        o(
            if facts.sync_is_dir {
                "    status: present (directory)"@
            } else {
                "    status: missing or not a directory"@
            },
        ),
    );
    access_line(lines, "    access: "@, facts.sync_access).push(o(""@)).push(
        o("  Cache directory"@),
    ).push(o("    config paths[].cache:  "@ + pair.cache@))
}

/// The report on one entry.
pub open spec fn entry_lines(i: nat, pair: PathPair, facts: EntryFacts) -> Seq<Shown> {
    access_line(
        (entry_head(i, pair, facts) + unit_cache_lines(pair, facts.unit_cache)).push(
            o(cache_size_line(facts.cache)),
        ),
        "    cache access:           "@,
        facts.cache_access,
    ) + unit_state_lines(facts.unit) + seq![o(""@)]
}

/// An access check that was made and passed.
pub open spec fn access_passed(access: Option<Result<String, String>>) -> bool {
    access matches Some(r) && r is Ok
}

/// The configured cache path is known to be a directory.
pub open spec fn cache_is_dir(pair: PathPair, facts: EntryFacts) -> bool {
    facts.cache is Directory && effective(pair, facts.unit_cache) == pair.cache@
}

/// Nothing about the entry stands in the way of a run: the sync path is a directory and
/// passed its check, no other thing stands in place of the cache directory, and the
/// cache passed its probe where it is a directory.
pub open spec fn entry_ok(pair: PathPair, facts: EntryFacts) -> bool {
    &&& facts.sync_is_dir
    &&& access_passed(facts.sync_access)
    &&& facts.cache != CacheState::NotADirectory
    &&& !access_failed(facts.cache_access)
    &&& cache_is_dir(pair, facts) ==> access_passed(facts.cache_access)
}

fn say_access(lines: &mut Vec<Line>, label: &str, access: &Option<Result<String, String>>) -> (bad:
    bool)
    ensures
        report::shown(final(lines)@) == access_line(report::shown(old(lines)@), label@, *access),
        bad == access_failed(*access),
{
    match access {
        None => false,
        Some(Ok(m)) => {
            out(lines, glue(label, m.as_str()).as_str());
            false
        },
        Some(Err(e)) => {
            out(lines, glue(label, e.as_str()).as_str());
            true
        },
    }
}

fn say_entry_head(i: usize, pair: &PathPair, facts: &EntryFacts) -> (r: (Vec<Line>, bool))
    ensures
        report::shown(r.0@) == entry_head(i as nat, *pair, *facts),
        r.1 == access_failed(facts.sync_access),
{
    let rule = "────────────────────────────────────────────────────────────";
    let mut lines = no_lines();
    out(&mut lines, rule);
    out(&mut lines, glue("  Entry ", usize_text(i).as_str()).as_str());
    out(&mut lines, rule);
    out(&mut lines, "");
    out(&mut lines, "  Service name");
    let service = match service_of(pair) {
        Some(s) => s,
        None => "(none — no paths[].service in config)".to_string(),
    };
    out(&mut lines, glue("    ", service.as_str()).as_str());
    out(&mut lines, "");
    out(&mut lines, "  File directory  (config paths[].sync — mount / warm target)");
    out(&mut lines, glue("    ", pair.sync.as_str()).as_str());
    if facts.sync_is_dir {
        out(&mut lines, "    status: present (directory)");
    } else {
        out(&mut lines, "    status: missing or not a directory");
    }
    let bad = say_access(&mut lines, "    access: ", &facts.sync_access);
    out(&mut lines, "");
    out(&mut lines, "  Cache directory");
    out(&mut lines, glue("    config paths[].cache:  ", pair.cache.as_str()).as_str());
    (lines, bad)
}

fn say_unit_cache(pair: &PathPair, unit_cache: &Option<Result<String, String>>) -> (v: Vec<Line>)
    ensures
        report::shown(v@) == unit_cache_lines(*pair, *unit_cache),
{
    let mut v = no_lines();
    match unit_cache {
        Some(Ok(p)) => {
            out(&mut v, glue("    from unit --cache-dir:  ", p.as_str()).as_str());
            if !str_eq(p.as_str(), pair.cache.as_str()) {
                out(
                    &mut v,
                    "    note: config cache differs from unit --cache-dir (using unit path for size report)",
                );
            }
        },
        Some(Err(e)) => {
            out(
                &mut v,
                glue3("    from unit --cache-dir:  (not found)  [", e.as_str(), "]").as_str(),
            );
            out(
                &mut v,
                glue3("    effective for size:     ", pair.cache.as_str(), "  (config value)").as_str(),
            );
        },
        None => {
            out(
                &mut v,
                glue3("    effective for size:     ", pair.cache.as_str(), "  (config value)").as_str(),
            );
        },
    }
    v
}

fn say_unit_state(
    unit: &Option<Result<(SystemdScope, Result<bool, String>), String>>,
) -> (v: Vec<Line>)
    ensures
        report::shown(v@) == unit_state_lines(*unit),
{
    let mut v = no_lines();
    match unit {
        None => {},
        Some(Err(e)) => {
            out(&mut v, glue3("  systemd:  (not found: ", e.as_str(), ")").as_str());
        },
        Some(Ok((scope, Ok(active)))) => {
            if *active {
                out(&mut v, glue3("  systemd:  active (", scope.label(), ")").as_str());
            } else {
                out(&mut v, glue3("  systemd:  inactive (", scope.label(), ")").as_str());
            }
        },
        Some(Ok((_, Err(e)))) => {
            out(&mut v, glue3("  systemd:  (check failed: ", e.as_str(), ")").as_str());
        },
    }
    v
}

fn size_line(state: CacheState) -> (r: String)
    ensures
        r@ == cache_size_line(state),
{
    match state {
        CacheState::Directory(n) => glue("    current size:           ", format_bytes(n).as_str()),
        CacheState::NotADirectory =>
            "    current size:           (path exists but is not a directory)".to_string(),
        CacheState::Missing =>
            "    current size:           (directory does not exist yet)".to_string(),
    }
}

/// The report on one entry, and whether nothing stands in the way of a run.
pub fn report_entry(i: usize, pair: &PathPair, facts: &EntryFacts) -> (r: (Vec<Line>, bool))
    ensures
        report::shown(r.0@) == entry_lines(i as nat, *pair, *facts),
        r.1 == entry_ok(*pair, *facts),
{
    let (head, bad_sync) = say_entry_head(i, pair, facts);
    let mut lines = report::concat(head, say_unit_cache(pair, &facts.unit_cache));
    out(&mut lines, size_line(facts.cache).as_str());
    let bad_cache = say_access(&mut lines, "    cache access:           ", &facts.cache_access);
    let mut lines = report::concat(lines, say_unit_state(&facts.unit));
    let ghost before = report::shown(lines@);
    out(&mut lines, "");
    assert(before.push(o(""@)) == before + seq![o(""@)]);
    let fit = match facts.cache {
        CacheState::NotADirectory => false,
        CacheState::Missing => true,
        CacheState::Directory(_) => {
            let shown = effective_cache(pair, &facts.unit_cache);
            facts.cache_access.is_some() || !str_eq(shown.as_str(), pair.cache.as_str())
        },
    };
    let checked = facts.sync_is_dir && facts.sync_access.is_some() && !bad_sync;
    (lines, checked && fit && !bad_cache)
}

/// The heading of the report.
pub open spec fn report_head(cfg: Config) -> Seq<Shown> {
    let rule = "════════════════════════════════════════════════════════════"@;
    Seq::<Shown>::empty().push(o(""@)).push(o(rule)).push(
        o("  Config check  (−c / --check)"@),
    ).push(o(rule)).push(o(""@)).push(
        o("Schema version:  "@ + text::decimal(cfg.version as nat)),
    ).push(o("Path pairs:      "@ + text::decimal(cfg.paths@.len()))).push(
        o(
            "Walk:            max_depth="@ + report::optional_number(cfg.walk.max_depth)
                + "  min_size="@ + cache_ops::bytes_text(cfg.walk.min_file_size_bytes as nat)
                + "  max_size="@ + cache_ops::max_size_text(cfg.walk.max_file_size_bytes as int)
                + "  max_threads="@ + text::decimal(cfg.walk.max_threads as nat),
        ),
    ).push(o("Ignore names:    "@ + report::quoted_list(cfg.ignore.names@))).push(
        o(
            "Mount wait:      initial="@ + text::decimal(cfg.mount_wait.initial_secs as nat)
                + "s  retries="@ + report::number_list(cfg.mount_wait.retry_delays_secs@)
                + "  max="@ + text::decimal(cfg.mount_wait.max_wait_secs as nat) + "s"@,
        ),
    ).push(o(""@))
}

/// The end of the report.
pub open spec fn report_tail(ok: bool) -> Seq<Shown> {
    let rule = "════════════════════════════════════════════════════════════"@;
    Seq::<Shown>::empty().push(o(rule)).push(
        o(
            if ok {
                "  Layout check finished — no blocking path issues detected."@
            } else {
                "  Layout check finished — review entries marked missing / not a directory."@
            },
        ),
    ).push(o(rule)).push(o(""@))
}

/// The reports on the first `n` entries.
pub open spec fn entries_report(paths: Seq<PathPair>, facts: Seq<EntryFacts>, n: nat) -> Seq<Shown>
    decreases n,
{
    if n == 0 {
        Seq::empty()
    } else {
        entries_report(paths, facts, (n - 1) as nat) + entry_lines(
            (n - 1) as nat,
            paths[n - 1],
            facts[n - 1],
        )
    }
}

/// Every entry is fit for a run.
pub open spec fn all_entries_ok(paths: Seq<PathPair>, facts: Seq<EntryFacts>) -> bool {
    forall|i: int| 0 <= i < facts.len() ==> entry_ok(paths[i], #[trigger] facts[i])
}

fn say_report_head(cfg: &Config) -> (v: Vec<Line>)
    ensures
        report::shown(v@) == report_head(*cfg),
{
    let rule = "════════════════════════════════════════════════════════════";
    let mut v = no_lines();
    out(&mut v, "");
    out(&mut v, rule);
    out(&mut v, "  Config check  (−c / --check)");
    out(&mut v, rule);
    out(&mut v, "");
    out(&mut v, glue("Schema version:  ", u64_text(cfg.version as u64).as_str()).as_str());
    out(&mut v, glue("Path pairs:      ", usize_text(cfg.paths.len()).as_str()).as_str());
    let mut walk = "Walk:            max_depth=".to_string();
    walk.append(optional_number_text(cfg.walk.max_depth).as_str());
    walk.append("  min_size=");
    walk.append(format_bytes(cfg.walk.min_file_size_bytes).as_str());
    walk.append("  max_size=");
    walk.append(format_max_file_size_limit(cfg.walk.max_file_size_bytes).as_str());
    walk.append("  max_threads=");
    walk.append(usize_text(cfg.walk.max_threads).as_str());
    out(&mut v, walk.as_str());
    out(
        &mut v,
        glue("Ignore names:    ", quoted_list_text(&cfg.ignore.names).as_str()).as_str(),
    );
    let mut wait = "Mount wait:      initial=".to_string();
    wait.append(u64_text(cfg.mount_wait.initial_secs).as_str());
    wait.append("s  retries=");
    wait.append(number_list_text(&cfg.mount_wait.retry_delays_secs).as_str());
    wait.append("  max=");
    wait.append(u64_text(cfg.mount_wait.max_wait_secs).as_str());
    wait.append("s");
    out(&mut v, wait.as_str());
    out(&mut v, "");
    v
}

fn say_report_tail(ok: bool) -> (v: Vec<Line>)
    ensures
        report::shown(v@) == report_tail(ok),
{
    let rule = "════════════════════════════════════════════════════════════";
    let mut v = no_lines();
    out(&mut v, rule);
    if ok {
        out(&mut v, "  Layout check finished — no blocking path issues detected.");
    } else {
        out(
            &mut v,
            "  Layout check finished — review entries marked missing / not a directory.",
        );
    }
    out(&mut v, rule);
    out(&mut v, "");
    v
}

/// Report on a loaded configuration, given what was found for each of its entries. Tells
/// whether every entry is fit for a run.
pub fn run_config_check(cfg: &Config, facts: &Vec<EntryFacts>) -> (r: (Vec<Line>, bool))
    requires
        facts@.len() == cfg.paths@.len(),
    ensures
        if cfg.paths@.len() == 0 {
            &&& !r.1
            &&& report::shown(r.0@) == report_head(*cfg).push(
                Shown::Alert("✗ Config layout invalid: \"paths\" is empty."@),
            )
        } else {
            &&& r.1 == all_entries_ok(cfg.paths@, facts@)
            &&& report::shown(r.0@) == report_head(*cfg) + entries_report(
                cfg.paths@,
                facts@,
                cfg.paths@.len(),
            ) + report_tail(r.1)
        },
{
    let mut lines = say_report_head(cfg);
    if cfg.paths.len() == 0 {
        alert(&mut lines, "✗ Config layout invalid: \"paths\" is empty.");
        return (lines, false);
    }
    let ghost head = report_head(*cfg);
    let mut all_ok = true;
    let mut i: usize = 0;
    assert(head + entries_report(cfg.paths@, facts@, 0) == head);
    while i < cfg.paths.len()
        invariant
            i <= cfg.paths.len(),
            facts@.len() == cfg.paths@.len(),
            report::shown(lines@) == head + entries_report(cfg.paths@, facts@, i as nat),
            all_ok == forall|j: int|
                0 <= j < i ==> entry_ok(cfg.paths@[j], #[trigger] facts@[j]),
        decreases cfg.paths.len() - i,
    {
        let (more, ok) = report_entry(i, &cfg.paths[i], &facts[i]);
        let ghost done = entries_report(cfg.paths@, facts@, i as nat);
        lines = report::concat(lines, more);
        assert(head + done + report::shown(more@) == head + (done + report::shown(more@)));
        if !ok {
            assert(!entry_ok(cfg.paths@[i as int], facts@[i as int]));
        }
        all_ok = all_ok && ok;
        i = i + 1;
    }
    (report::concat(lines, say_report_tail(all_ok)), all_ok)
}

/// A path as it can follow a flag: behind white space, an equals sign, or both.
pub open spec fn following(
    blank: Seq<char>,
    equals: bool,
    more: Seq<char>,
    path: Seq<char>,
    end: Seq<char>,
) -> Seq<char> {
    if equals {
        blank + seq!['='] + more + path + end
    } else {
        blank + path + end
    }
}

/// The path behind the first `--cache-dir` is found, behind an equals sign or white space or
/// both, up to the next white space or quotation mark.
pub proof fn law_cache_dir_is_found(
    s: Seq<char>,
    before: Seq<char>,
    blank: Seq<char>,
    equals: bool,
    more: Seq<char>,
    path: Seq<char>,
    end: Seq<char>,
)
    requires
        text::all_space(blank),
        text::all_space(more),
        path.len() > 0,
        path[0] == '/',
        forall|i: int|
            0 <= i < path.len() ==> !text::is_space(#[trigger] path[i]) && path[i] != '"' && path[i]
                != '\'',
        end.len() > 0 ==> text::is_space(end[0]) || end[0] == '"' || end[0] == '\'',
        s == before + "--cache-dir"@ + following(blank, equals, more, path, end),
        forall|j: int| 0 <= j < before.len() ==> !#[trigger] text::occurs_at(s, "--cache-dir"@, j),
    ensures
        cache_dir_in(s) == Some(path),
{
    let after = following(blank, equals, more, path, end);
    lemma_flag_value(blank, equals, more, path, end);
    lemma_first_flag(s, before, after);
}

proof fn lemma_flag_value(
    blank: Seq<char>,
    equals: bool,
    more: Seq<char>,
    path: Seq<char>,
    end: Seq<char>,
)
    requires
        text::all_space(blank),
        text::all_space(more),
        path.len() > 0,
        path[0] == '/',
        forall|i: int|
            0 <= i < path.len() ==> !text::is_space(#[trigger] path[i]) && path[i] != '"' && path[i]
                != '\'',
        end.len() > 0 ==> text::is_space(end[0]) || end[0] == '"' || end[0] == '\'',
    ensures
        flag_value(following(blank, equals, more, path, end)) == path,
{
    let core = path + end;
    let after = following(blank, equals, more, path, end);
    assert(core[0] == '/');
    assert(text::strip_left(core, CharClass::Space) == core);
    text::lemma_strip_left_blank(more, core);
    if equals {
        let t = seq!['='] + more + core;
        assert(after == blank + t);
        text::lemma_strip_left_blank(blank, t);
        assert(t[0] == '=');
        assert(text::strip_left(t, CharClass::Space) == t);
        assert(t.drop_first() == more + core);
    } else {
        assert(after == blank + core);
        text::lemma_strip_left_blank(blank, core);
    }
    assert forall|i: int| 0 <= i < path.len() implies !text::in_class(
        CharClass::SpaceOrQuote,
        #[trigger] core[i],
    ) by {
        assert(core[i] == path[i]);
    }
    if end.len() > 0 {
        assert(core[path.len() as int] == end[0]);
    }
    text::lemma_until_is(core, CharClass::SpaceOrQuote, path.len() as int);
    assert(core.take(path.len() as int) == path);
}

/// What is found is an absolute path without white space and quotation marks.
pub proof fn law_cache_dir_is_a_path(s: Seq<char>)
    ensures
        cache_dir_in(s) matches Some(p) ==> p.len() > 0 && p[0] == '/' && forall|i: int|
            0 <= i < p.len() ==> !text::is_space(#[trigger] p[i]) && p[i] != '"' && p[i] != '\'',
    decreases s.len(),
{
    reveal_strlit("--cache-dir");
    text::lemma_first_at(s, CACHE_DIR_FLAG@, 0);
    if let Some(i) = text::first_at(s, CACHE_DIR_FLAG@, 0) {
        let after = s.skip(i + CACHE_DIR_FLAG@.len());
        let value = flag_value(after);
        if value.len() > 0 && value[0] == '/' {
            lemma_value_is_one_word(after);
        } else {
            law_cache_dir_is_a_path(after);
        }
    }
}

proof fn lemma_value_is_one_word(after: Seq<char>)
    ensures
        forall|i: int|
            0 <= i < flag_value(after).len() ==> !text::is_space(#[trigger] flag_value(after)[i])
                && flag_value(after)[i] != '"' && flag_value(after)[i] != '\'',
{
    let t = text::strip_left(after, CharClass::Space);
    let v = if t.len() > 0 && t[0] == '=' {
        text::strip_left(t.drop_first(), CharClass::Space)
    } else {
        t
    };
    text::lemma_until(v, CharClass::SpaceOrQuote);
    let value = flag_value(after);
    assert forall|k: int| 0 <= k < value.len() implies !text::is_space(#[trigger] value[k])
        && value[k] != '"' && value[k] != '\'' by {
        assert(value[k] == v[k]);
        assert(!text::in_class(CharClass::SpaceOrQuote, v[k]));
    }
}

/// A flag that no absolute path follows is passed over.
pub proof fn law_other_flags_are_passed_over(s: Seq<char>, before: Seq<char>, after: Seq<char>)
    requires
        s == before + "--cache-dir"@ + after,
        forall|j: int| 0 <= j < before.len() ==> !#[trigger] text::occurs_at(s, "--cache-dir"@, j),
        flag_value(after).len() == 0 || flag_value(after)[0] != '/',
    ensures
        cache_dir_in(s) == cache_dir_in(after),
{
    lemma_first_flag(s, before, after);
}

proof fn lemma_first_flag(s: Seq<char>, before: Seq<char>, after: Seq<char>)
    requires
        s == before + "--cache-dir"@ + after,
        forall|j: int| 0 <= j < before.len() ==> !#[trigger] text::occurs_at(s, "--cache-dir"@, j),
    ensures
        text::first_at(s, "--cache-dir"@, 0) == Some(before.len() as int),
        s.skip(before.len() as int + "--cache-dir"@.len()) == after,
{
    text::lemma_first_at(s, "--cache-dir"@, 0);
    assert(s.subrange(before.len() as int, before.len() as int + "--cache-dir"@.len())
        =~= "--cache-dir"@);
    assert(text::occurs_at(s, "--cache-dir"@, before.len() as int));
    assert(s.skip(before.len() as int + "--cache-dir"@.len()) =~= after);
}

/// Without the flag nothing is found.
pub proof fn law_no_flag_no_cache_dir(s: Seq<char>)
    requires
        forall|j: int| !#[trigger] text::occurs_at(s, "--cache-dir"@, j),
    ensures
        cache_dir_in(s) is None,
{
    text::lemma_first_at(s, "--cache-dir"@, 0);
}

/// An answer is a yes exactly when nothing was typed, or when what was typed begins, behind
/// any white space, with `y` or `Y`. A question that nobody answers is a no.
pub proof fn law_yes_is_the_default(before: Seq<char>, answer: Seq<char>, after: Seq<char>)
    requires
        text::all_space(before),
        text::all_space(after),
        answer.len() > 0 ==> !text::is_space(answer[0]) && !text::is_space(answer.last()),
    ensures
        answered_yes(Some(before + answer + after)) <==> answer.len() == 0 || answer[0] == 'y'
            || answer[0] == 'Y',
        !answered_yes(None),
{
    text::law_strip(before, answer, after, CharClass::Space);
}

/// A check passes only where everything that it looks at is as it should be: the sync
/// directory can be listed; a probe in the cache directory is read back as it was written
/// and then deleted; and the unit file can be read.
pub proof fn law_checks_pass_only_in_full(
    shown: Seq<char>,
    probe: Seq<char>,
    scope: SystemdScope,
    sync: SyncLook,
    cache: CacheProbe,
    unit: UnitLook,
)
    ensures
        sync_verdict(shown, sync) is Ok <==> sync is Listed,
        probe_verdict(shown, probe, cache) is Ok <==> cache is ReadBack && cache->content@
            == "wdc-ok"@ && cache->deleted is Ok,
        unit_verdict(shown, scope, unit) is Ok <==> unit is Readable,
{
}

/// What went wrong is told with the system's own words and the path that it is about.
pub proof fn law_failures_are_told(
    what: Seq<char>,
    shown: Seq<char>,
    fault: IoFault,
    op: Seq<char>,
)
    ensures
        text::contains_text(permission_text(what, shown, fault, op), fault.text@),
        text::contains_text(permission_text(what, shown, fault, op), shown),
        text::contains_text(permission_text(what, shown, fault, op), op),
        text::contains_text(permission_text(what, shown, fault, op), hint(fault.kind)),
{
    let m = permission_text(what, shown, fault, op);
    let h = hint(fault.kind);
    let t = fault.text@;
    let a = what + " "@;
    let b = a + shown + ": cannot "@;
    let c = b + op + ": "@;
    let d = c + t + " ("@;
    text::lemma_stands_in(a, shown, ": cannot "@ + op + ": "@ + t + " ("@ + h + ")"@);
    text::lemma_stands_in(b, op, ": "@ + t + " ("@ + h + ")"@);
    text::lemma_stands_in(c, t, " ("@ + h + ")"@);
    text::lemma_stands_in(d, h, ")"@);
    assert(m =~= a + shown + (": cannot "@ + op + ": "@ + t + " ("@ + h + ")"@));
    assert(m =~= b + op + (": "@ + t + " ("@ + h + ")"@));
    assert(m =~= c + t + (" ("@ + h + ")"@));
}

/// The words of the system's answer that count as enabled.
pub proof fn law_enabled_words(w: Seq<char>)
    ensures
        enabled_word(w) <==> {
            ||| w == seq!['e', 'n', 'a', 'b', 'l', 'e', 'd']
            ||| w == seq!['e', 'n', 'a', 'b', 'l', 'e', 'd'] + seq![
                '-',
                'r',
                'u',
                'n',
                't',
                'i',
                'm',
                'e',
            ]
            ||| w == seq!['s', 't', 'a', 't', 'i', 'c']
            ||| w == seq!['i', 'n', 'd', 'i', 'r', 'e', 'c', 't']
            ||| w == seq!['g', 'e', 'n', 'e', 'r', 'a', 't', 'e', 'd']
            ||| w == seq!['a', 'l', 'i', 'a', 's']
        },
{
    reveal_strlit("enabled");
    reveal_strlit("enabled-runtime");
    reveal_strlit("static");
    reveal_strlit("indirect");
    reveal_strlit("generated");
    reveal_strlit("alias");
    assert("enabled"@ =~= seq!['e', 'n', 'a', 'b', 'l', 'e', 'd']);
    assert("enabled-runtime"@ =~= seq!['e', 'n', 'a', 'b', 'l', 'e', 'd'] + seq![
        '-',
        'r',
        'u',
        'n',
        't',
        'i',
        'm',
        'e',
    ]);
    assert("static"@ =~= seq!['s', 't', 'a', 't', 'i', 'c']);
    assert("indirect"@ =~= seq!['i', 'n', 'd', 'i', 'r', 'e', 'c', 't']);
    assert("generated"@ =~= seq!['g', 'e', 'n', 'e', 'r', 'a', 't', 'e', 'd']);
    assert("alias"@ =~= seq!['a', 'l', 'i', 'a', 's']);
}

/// An active unit is ready, whether or not it is enabled, and nobody is asked about it. A
/// verbose run looks whether it is enabled, and ends the same.
pub proof fn law_active_unit_is_ready(
    unit: Seq<char>,
    scope: SystemdScope,
    dry_run: bool,
    enabled: Result<bool, String>,
)
    ensures
        ({
            let quiet = ready_move(
                unit,
                scope,
                dry_run,
                false,
                ReadyPhase::Active,
                ReadyEvent::Active(Ok(true)),
            );
            let loud = ready_move(
                unit,
                scope,
                dry_run,
                true,
                ReadyPhase::Active,
                ReadyEvent::Active(Ok(true)),
            );
            let noted = ready_move(
                unit,
                scope,
                dry_run,
                true,
                loud.phase,
                ReadyEvent::Enabled(enabled),
            );
            &&& quiet.result == Some(Ok::<bool, Seq<char>>(true))
            &&& quiet.prompt is None && quiet.lines.len() == 0
            &&& loud.action == ReadyAction::QueryEnabled && loud.prompt is None
            &&& noted.result == Some(Ok::<bool, Seq<char>>(true))
        }),
{
}

/// An inactive unit is asked about, and on a yes it is reloaded, enabled and started, in this
/// order, and looked at again; it is ready once it is enabled and active. A no ends the
/// check, and so does a dry run before anything is asked.
pub proof fn law_inactive_unit_is_started_on_yes(
    unit: Seq<char>,
    scope: SystemdScope,
    verbose: bool,
    enabled: bool,
    active: bool,
)
    ensures
        ({
            let ask = ready_move(
                unit,
                scope,
                false,
                verbose,
                ReadyPhase::Active,
                ReadyEvent::Active(Ok(false)),
            );
            let no = ready_move(unit, scope, false, verbose, ask.phase, ReadyEvent::Answered(false));
            let yes = ready_move(unit, scope, false, verbose, ask.phase, ReadyEvent::Answered(true));
            let reloaded = ready_move(
                unit,
                scope,
                false,
                verbose,
                yes.phase,
                ReadyEvent::Ran(Ok(())),
            );
            let enabling = ready_move(
                unit,
                scope,
                false,
                verbose,
                reloaded.phase,
                ReadyEvent::Ran(Ok(())),
            );
            let started = ready_move(
                unit,
                scope,
                false,
                verbose,
                enabling.phase,
                ReadyEvent::Ran(Ok(())),
            );
            let looked = ready_move(
                unit,
                scope,
                false,
                verbose,
                started.phase,
                ReadyEvent::Enabled(Ok(enabled)),
            );
            let end = ready_move(
                unit,
                scope,
                false,
                verbose,
                looked.phase,
                ReadyEvent::Active(Ok(active)),
            );
            let dry = ready_move(
                unit,
                scope,
                true,
                verbose,
                ReadyPhase::Active,
                ReadyEvent::Active(Ok(false)),
            );
            &&& ask.action == ReadyAction::Prompt && ask.prompt == Some(start_question(scope, unit))
            &&& no.result == Some(Ok::<bool, Seq<char>>(false))
            &&& yes.action == ReadyAction::RunReload
            &&& reloaded.action == ReadyAction::RunEnable
            &&& enabling.action == ReadyAction::RunStart
            &&& started.action == ReadyAction::QueryEnabled
            &&& looked.action == ReadyAction::QueryActive
            &&& enabled && active ==> end.result == Some(Ok::<bool, Seq<char>>(true))
            &&& !(enabled && active) ==> end.result is Some && end.result->0 is Err
            &&& dry.result == Some(Ok::<bool, Seq<char>>(false)) && dry.prompt is None
        }),
{
}

/// Whatever fails on the way ends the check of a service with that failure.
pub proof fn law_failures_end_the_service_check(
    unit: Seq<char>,
    scope: SystemdScope,
    dry_run: bool,
    verbose: bool,
    phase: ReadyPhase,
    cause: String,
)
    ensures
        phase is Active || phase is ActiveAfter ==> ready_move(
            unit,
            scope,
            dry_run,
            verbose,
            phase,
            ReadyEvent::Active(Err(cause)),
        ).result == Some(Err::<bool, Seq<char>>(cause@)),
        phase is Reloading || phase is Enabling || phase is Starting ==> ready_move(
            unit,
            scope,
            dry_run,
            verbose,
            phase,
            ReadyEvent::Ran(Err(cause)),
        ).result == Some(Err::<bool, Seq<char>>(cause@)),
        phase is EnabledAfter ==> ready_move(
            unit,
            scope,
            dry_run,
            verbose,
            phase,
            ReadyEvent::Enabled(Err(cause)),
        ).result == Some(Err::<bool, Seq<char>>(cause@)),
{
}

/// A pair names a service exactly when something other than white space stands there, and
/// the white space around it does not belong to the name.
pub proof fn law_named_service(
    pair: PathPair,
    before: Seq<char>,
    name: Seq<char>,
    after: Seq<char>,
)
    requires
        text::all_space(before),
        text::all_space(after),
        name.len() > 0 ==> !text::is_space(name[0]) && !text::is_space(name.last()),
        pair.service is Some,
        pair.service->0@ == before + name + after,
    ensures
        name.len() > 0 ==> named_service(pair) == Some(name),
        name.len() == 0 ==> named_service(pair) is None,
{
    text::law_strip(before, name, after, CharClass::Space);
}

/// A check goes through all its parts: with a service the scope and the service, then in any
/// case the mount, the sync directory and the cache, and with a service the unit file. The
/// pair may be processed exactly when the last three were found in order.
pub proof fn law_pair_is_checked_in_full(
    pair: PathPair,
    verbose: bool,
    scope: SystemdScope,
    sync: Result<String, String>,
    cache: Result<String, String>,
    file: Result<String, String>,
)
    ensures
        ({
            let begun = pair_move(pair, verbose, PairPhase::Begin, PairEvent::Begin);
            let scoped = pair_move(pair, verbose, PairPhase::Scope, PairEvent::Scope(Ok(scope)));
            let served = pair_move(pair, verbose, scoped.phase, PairEvent::Service(Ok(true)));
            let settled = pair_move(pair, verbose, PairPhase::Settling, PairEvent::Settled);
            let synced = pair_move(pair, verbose, settled.phase, PairEvent::Checked(sync));
            let probed = pair_move(pair, verbose, synced.phase, PairEvent::Checked(cache));
            let looked = pair_move(pair, verbose, probed.phase, PairEvent::Checked(file));
            &&& named_service(pair) is Some ==> begun.action == PairAction::ResolveScope
                && begun.phase is Scope
            &&& named_service(pair) is None ==> begun.action == PairAction::Settle && begun.phase
                is Settling
            &&& scoped.action == PairAction::EnsureService(scope)
            &&& served.action == PairAction::Settle && served.phase is Settling
            &&& settled.action == PairAction::CheckSync
            &&& synced.action == PairAction::ProbeCache
            &&& named_service(pair) is Some ==> probed.action == PairAction::CheckUnitFile
                && looked.action == PairAction::Finish(sync is Ok && cache is Ok && file is Ok)
            &&& named_service(pair) is None ==> probed.action == PairAction::Finish(
                sync is Ok && cache is Ok,
            )
        }),
{
}

/// A pair whose service is not found, does not run or cannot be checked is left out at once.
pub proof fn law_pair_without_its_service_is_left_out(
    pair: PathPair,
    verbose: bool,
    cause: String,
    event: PairEvent,
)
    ensures
        pair_move(pair, verbose, PairPhase::Scope, PairEvent::Scope(Err(cause))).action
            == PairAction::Finish(false),
        pair_move(pair, verbose, PairPhase::Service, PairEvent::Service(Err(cause))).action
            == PairAction::Finish(false),
        pair_move(pair, verbose, PairPhase::Service, PairEvent::Service(Ok(false))).action
            == PairAction::Finish(false),
        pair_move(pair, verbose, PairPhase::Done { go: false }, event).action
            == PairAction::Finish(false),
        pair_move(pair, verbose, PairPhase::Done { go: true }, event).action
            == PairAction::Finish(true),
{
}

/// A failed check is told to everyone, and a passed one to those who want to hear more.
pub proof fn law_failed_checks_are_always_told(
    pair: PathPair,
    phase: PairPhase,
    verbose: bool,
    cause: String,
    note: String,
)
    requires
        phase is Sync || phase is Cache || phase is UnitFile,
    ensures
        ({
            let bad = pair_move(pair, verbose, phase, PairEvent::Checked(Err(cause))).lines;
            let good = pair_move(pair, false, phase, PairEvent::Checked(Ok(note))).lines;
            &&& bad.len() > 0 && bad[0] is Out && exists|head: Seq<char>|
                bad[0]->Out_0 == #[trigger] (head + cause@)
            &&& phase is Sync ==> good.len() == 0
        }),
{
    let bad = pair_move(pair, verbose, phase, PairEvent::Checked(Err(cause))).lines;
    let head = match phase {
        PairPhase::Sync => "   ✗ sync access: "@,
        PairPhase::Cache { .. } => "   ✗ cache access: "@,
        _ => "   ⚠️  unit file: "@,
    };
    assert(bad[0]->Out_0 == head + cause@);
}

/// An entry is in order exactly when its sync path is a directory that passed its check, no
/// other thing stands in place of its cache, and its cache was not found wanting: a cache
/// that is there under its configured name was probed and passed.
pub proof fn law_entry_in_order(pair: PathPair, facts: EntryFacts)
    ensures
        !facts.sync_is_dir ==> !entry_ok(pair, facts),
        facts.sync_access is None || facts.sync_access->0 is Err ==> !entry_ok(pair, facts),
        facts.cache is NotADirectory ==> !entry_ok(pair, facts),
        facts.cache_access is Some && facts.cache_access->0 is Err ==> !entry_ok(pair, facts),
        facts.cache is Directory && facts.cache_access is None && (facts.unit_cache is None
            || facts.unit_cache->0 is Err || facts.unit_cache->0->Ok_0@ == pair.cache@)
            ==> !entry_ok(pair, facts),
        facts.sync_is_dir && facts.sync_access is Some && facts.sync_access->0 is Ok && (
        facts.cache is Missing && facts.cache_access is None || facts.cache is Directory
            && facts.cache_access is Some && facts.cache_access->0 is Ok) ==> entry_ok(pair, facts),
{
}

/// The report covers every entry, in order and numbered from zero, and one entry that is not
/// in order is enough for the whole not to be.
pub proof fn law_every_entry_is_reported(
    paths: Seq<PathPair>,
    facts: Seq<EntryFacts>,
    n: nat,
    k: int,
)
    requires
        0 <= k < n,
    ensures
        exists|before: Seq<Shown>, after: Seq<Shown>|
            entries_report(paths, facts, n) == #[trigger] (before + entry_lines(
                k as nat,
                paths[k],
                facts[k],
            ) + after),
        entries_report(paths, facts, 0) == Seq::<Shown>::empty(),
        k < facts.len() && !entry_ok(paths[k], facts[k]) ==> !all_entries_ok(paths, facts),
    decreases n,
{
    let last = entry_lines((n - 1) as nat, paths[n - 1], facts[n - 1]);
    let earlier = entries_report(paths, facts, (n - 1) as nat);
    if k == n - 1 {
        assert(entries_report(paths, facts, n) == earlier + last + Seq::<Shown>::empty());
    } else {
        law_every_entry_is_reported(paths, facts, (n - 1) as nat, k);
        let own = entry_lines(k as nat, paths[k], facts[k]);
        let (before, after) = choose|before: Seq<Shown>, after: Seq<Shown>|
            earlier == #[trigger] (before + own + after);
        assert(entries_report(paths, facts, n) == before + own + (after + last));
    }
}

/// The cache that is measured is the one that the unit names, where it names one, and else
/// the configured one; a difference between the two is noted.
pub proof fn law_unit_names_the_cache(pair: PathPair, path: String, cause: String)
    ensures
        effective(pair, Some(Ok(path))) == path@,
        effective(pair, Some(Err(cause))) == pair.cache@,
        effective(pair, None) == pair.cache@,
        unit_cache_lines(pair, Some(Ok(path))).len() == if path@ == pair.cache@ {
            1int
        } else {
            2
        },
{
}

/// The report says of a unit whether it is active, in which scope, or why that is not known.
pub proof fn law_unit_state_is_told(scope: SystemdScope, cause: String)
    ensures
        unit_state_lines(None).len() == 0,
        unit_state_lines(Some(Ok((scope, Ok(true))))) == seq![
            Shown::Out("  systemd:  active ("@ + scope_label(scope) + ")"@),
        ],
        unit_state_lines(Some(Ok((scope, Ok(false))))) == seq![
            Shown::Out("  systemd:  inactive ("@ + scope_label(scope) + ")"@),
        ],
        unit_state_lines(Some(Err(cause))).len() == 1,
        unit_state_lines(Some(Ok((scope, Err(cause))))).len() == 1,
        scope_label(SystemdScope::System) == seq!['s', 'y', 's', 't', 'e', 'm'],
        scope_label(SystemdScope::User) == seq!['u', 's', 'e', 'r'],
{
    reveal_strlit("system");
    reveal_strlit("user");
    assert("system"@ =~= seq!['s', 'y', 's', 't', 'e', 'm']);
    assert("user"@ =~= seq!['u', 's', 'e', 'r']);
}

/// The lines about an entry name its service, its sync directory and its cache, say whether
/// the sync path is a directory, and give the size of the cache.
pub proof fn law_entry_is_described(i: nat, pair: PathPair, facts: EntryFacts)
    ensures
        ({
            let head = entry_head(i, pair, facts);
            &&& head[1] == Shown::Out("  Entry "@ + text::decimal(i))
            &&& head[5] == Shown::Out("    "@ + reported_service(pair))
            &&& head[8] == Shown::Out("    "@ + pair.sync@)
            &&& facts.sync_is_dir ==> head[9] == Shown::Out("    status: present (directory)"@)
            &&& !facts.sync_is_dir ==> head[9] == Shown::Out(
                "    status: missing or not a directory"@,
            )
            &&& head.last() == Shown::Out("    config paths[].cache:  "@ + pair.cache@)
            &&& named_service(pair) is Some ==> reported_service(pair) == named_service(pair)->0
            &&& entry_lines(i, pair, facts).take(head.len() as int) == head
            &&& entry_lines(i, pair, facts).contains(Shown::Out(cache_size_line(facts.cache)))
        }),
        forall|n: u64|
            #[trigger] cache_size_line(CacheState::Directory(n))
                == "    current size:           "@ + cache_ops::bytes_text(n as nat),
{
    let head = entry_head(i, pair, facts);
    let units = unit_cache_lines(pair, facts.unit_cache);
    let lines = entry_lines(i, pair, facts);
    assert(lines.take(head.len() as int) =~= head);
    assert(lines[head.len() as int + units.len()] == Shown::Out(cache_size_line(facts.cache)));
}

/// The end of the report says that nothing is in the way exactly when nothing is.
pub proof fn law_report_ends_with_its_verdict(ok: bool)
    ensures
        report_tail(ok).len() == 4,
        ok ==> report_tail(ok)[1] == Shown::Out(
            "  Layout check finished — no blocking path issues detected."@,
        ),
        !ok ==> report_tail(ok)[1] == Shown::Out(
            "  Layout check finished — review entries marked missing / not a directory."@,
        ),
{
}

/// A unit that is loaded in one scope belongs to it. One that is loaded in both belongs to
/// the user exactly when it is active there and not in the system's. One that is loaded in
/// neither has none.
pub proof fn law_scope_of_a_unit(system_active: bool, user_active: bool)
    ensures
        scope_of(true, false, system_active, user_active) == Some(SystemdScope::System),
        scope_of(false, true, system_active, user_active) == Some(SystemdScope::User),
        scope_of(false, false, system_active, user_active) is None,
        scope_of(true, true, system_active, user_active) == Some(SystemdScope::User) <==> user_active
            && !system_active,
        scope_of(true, true, system_active, user_active) is Some,
{
}

/// A query that succeeded says that a unit is enabled, and one that did not says so exactly
/// where it printed one of the words for it, with any white space around.
pub proof fn law_enabled_units(before: Seq<char>, word: Seq<char>, after: Seq<char>)
    requires
        text::all_space(before),
        text::all_space(after),
        word.len() > 0 ==> !text::is_space(word[0]) && !text::is_space(word.last()),
    ensures
        counts_as_enabled(before + word + after, true),
        counts_as_enabled(before + word + after, false) <==> enabled_word(word),
{
    text::law_strip(before, word, after, CharClass::Space);
}

} // verus!
