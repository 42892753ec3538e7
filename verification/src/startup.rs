//! The command line, product identity, and the text of help and banners.

use vstd::prelude::*;
use vstd::string::StringExecFns;

use crate::cache_ops;
use crate::cache_ops::{format_bytes, format_max_file_size_limit};
use crate::config;
use crate::config::{clamp_display_width, parse_bool, parse_size_expr, Config, MountWait, PathPair};
use crate::report;
use crate::report::{
    glue, glue3, no_texts, number_list_text, quoted_list_text, say, truth_text,
};
use crate::text;
use crate::text::{
    chars_of, debug_string, push_repeated, slice_is, slice_usize, str_eq, string_of, u64_text,
    usize_text,
};

verus! {

/// Values from the command line that replace those of the configuration.
#[derive(Debug, Clone, Copy, PartialEq, Eq, Structural)]
pub struct CliOverrides {
    pub threads: Option<usize>,
    pub size: Option<i64>,
    pub checksum: Option<bool>,
    /// Already brought into the displayable range.
    pub width: Option<usize>,
}

impl Default for CliOverrides {
    fn default() -> (r: Self)
        ensures
            r == no_overrides(),
    {
        CliOverrides { threads: None, size: None, checksum: None, width: None }
    }
}

/// Nothing replaced.
pub open spec fn no_overrides() -> CliOverrides {
    CliOverrides { threads: None, size: None, checksum: None, width: None }
}

/// What the command line asks for.
#[derive(Debug, Clone, Copy, PartialEq, Eq, Structural)]
pub enum CliAction {
    /// A maintenance run.
    Run {
        dry_run: bool,
        verbose: bool,
        /// Write a time-stamped CSV warm log under `/tmp/`.
        log: bool,
        overrides: CliOverrides,
    },
    /// Print help and exit.
    Help,
    /// Print product information and exit.
    Information,
    /// Validate the configuration and report on services, paths and cache sizes.
    JsonValidation { overrides: CliOverrides },
}

/// The options that the command line knows.
#[derive(Debug, Clone, Copy, PartialEq, Eq, Structural)]
pub enum CliOption {
    Help,
    Json,
    Information,
    Verbose,
    Log,
    DryRun,
    Threads,
    Size,
    Checksum,
    Width,
}

/// The option that an argument names, in its short or long form.
pub open spec fn option_named(arg: Seq<char>) -> Option<CliOption> {
    if arg == "-?"@ || arg == "-h"@ || arg == "--help"@ {
        Some(CliOption::Help)
    } else if arg == "-j"@ || arg == "--json"@ {
        Some(CliOption::Json)
    } else if arg == "-i"@ || arg == "--information"@ {
        Some(CliOption::Information)
    } else if arg == "-v"@ || arg == "--verbose"@ {
        Some(CliOption::Verbose)
    } else if arg == "-l"@ || arg == "--log"@ {
        Some(CliOption::Log)
    } else if arg == "--dry-run"@ {
        Some(CliOption::DryRun)
    } else if arg == "-t"@ || arg == "--threads"@ {
        Some(CliOption::Threads)
    } else if arg == "-s"@ || arg == "--size"@ {
        Some(CliOption::Size)
    } else if arg == "-c"@ || arg == "--checksum"@ {
        Some(CliOption::Checksum)
    } else if arg == "-w"@ || arg == "--width"@ {
        Some(CliOption::Width)
    } else {
        None
    }
}

/// The long form of an option, as messages about duplicates give it.
pub open spec fn long_form(option: CliOption) -> Seq<char> {
    match option {
        CliOption::Help => "--help"@,
        CliOption::Json => "--json"@,
        CliOption::Information => "--information"@,
        CliOption::Verbose => "--verbose"@,
        CliOption::Log => "--log"@,
        CliOption::DryRun => "--dry-run"@,
        CliOption::Threads => "--threads"@,
        CliOption::Size => "--size"@,
        CliOption::Checksum => "--checksum"@,
        CliOption::Width => "--width"@,
    }
}

/// Some argument names the option.
pub open spec fn mentions(args: Seq<Seq<char>>, option: CliOption) -> bool {
    exists|i: int| 0 <= i < args.len() && option_named(#[trigger] args[i]) == Some(option)
}

/// What has been read of the command line.
#[derive(Debug, Clone, Copy, PartialEq, Eq, Structural)]
pub struct CliRead {
    pub json: bool,
    pub information: bool,
    pub dry_run: bool,
    pub verbose: bool,
    pub log: bool,
    pub overrides: CliOverrides,
}

/// Nothing read yet.
pub open spec fn nothing_read() -> CliRead {
    CliRead {
        json: false,
        information: false,
        dry_run: false,
        verbose: false,
        log: false,
        overrides: no_overrides(),
    }
}

/// The message about an option that is given twice.
pub open spec fn duplicate_text(option: CliOption) -> Seq<char> {
    "conflicting duplicate "@ + long_form(option) + " option"@
}

/// Reads a switch: an option without a value. With JSON validation the switches of
/// a maintenance run are rejected.
pub open spec fn read_switch(
    arg: Seq<char>,
    option: CliOption,
    json: bool,
    done: CliRead,
) -> Result<CliRead, Seq<char>> {
    let given = match option {
        CliOption::Json => done.json,
        CliOption::Information => done.information,
        CliOption::Verbose => done.verbose,
        CliOption::Log => done.log,
        CliOption::DryRun => done.dry_run,
        _ => false,
    };
    if json && (option == CliOption::Verbose || option == CliOption::Log || option
        == CliOption::DryRun) {
        Err("option "@ + arg + " is not used with --json"@)
    } else if given {
        Err(duplicate_text(option))
    } else {
        Ok(
            match option {
                CliOption::Json => CliRead { json: true, ..done },
                CliOption::Information => CliRead { information: true, ..done },
                CliOption::Verbose => CliRead { verbose: true, ..done },
                CliOption::Log => CliRead { log: true, ..done },
                CliOption::DryRun => CliRead { dry_run: true, ..done },
                _ => done,
            },
        )
    }
}

/// What is wrong with the argument that stands where a value should, if anything.
pub open spec fn value_fault(arg: Seq<char>, option: CliOption, value: Seq<char>) -> Option<
    Seq<char>,
> {
    if value.len() == 0 {
        Some("empty value for "@ + arg)
    } else if value[0] == '-' && !(option == CliOption::Size && value == "-1"@) {
        Some("value for "@ + arg + " was interpreted as option: "@ + value)
    } else {
        None
    }
}

/// The message about a value that is not a number.
pub open spec fn malformed_text(arg: Seq<char>, value: Seq<char>) -> Seq<char> {
    "malformed integer for "@ + arg + ": "@ + text::debug_text(value)
}

/// Reads the value of an option.
pub open spec fn read_value(
    arg: Seq<char>,
    option: CliOption,
    value: Seq<char>,
    done: CliOverrides,
) -> Result<CliOverrides, Seq<char>> {
    if value_fault(arg, option, value) is Some {
        Err(value_fault(arg, option, value)->0)
    } else {
        match option {
            CliOption::Threads => if done.threads is Some {
                Err(duplicate_text(option))
            } else {
                match text::usize_value(value) {
                    None => Err(malformed_text(arg, value)),
                    Some(n) => if 1 <= n <= config::MAX_WORKER_THREADS {
                        Ok(CliOverrides { threads: Some(n as usize), ..done })
                    } else {
                        Err(
                            "threads must be between 1 and 64 (got "@ + text::decimal(n) + ")"@,
                        )
                    },
                }
            },
            CliOption::Size => if done.size is Some {
                Err(duplicate_text(option))
            } else {
                match config::size_value(value) {
                    Err(fault) => Err(config::size_fault_text(value, fault)),
                    Ok(n) => Ok(CliOverrides { size: Some(n as i64), ..done }),
                }
            },
            CliOption::Checksum => if done.checksum is Some {
                Err(duplicate_text(option))
            } else {
                match config::bool_word(value) {
                    None => Err(config::bool_fault_text(value)),
                    Some(b) => Ok(CliOverrides { checksum: Some(b), ..done }),
                }
            },
            CliOption::Width => if done.width is Some {
                Err(duplicate_text(option))
            } else {
                match text::usize_value(value) {
                    None => Err(malformed_text(arg, value)),
                    Some(n) => Ok(
                        CliOverrides {
                            width: Some(config::clamped_width(n as int) as usize),
                            ..done
                        },
                    ),
                }
            },
            _ => Ok(done),
        }
    }
}

/// Options that take the next argument as their value.
pub open spec fn takes_value(option: CliOption) -> bool {
    option == CliOption::Threads || option == CliOption::Size || option == CliOption::Checksum
        || option == CliOption::Width
}

/// Reads the arguments from left to right; the first fault ends the reading.
pub open spec fn read_args(args: Seq<Seq<char>>, json: bool, done: CliRead) -> Result<
    CliRead,
    Seq<char>,
>
    decreases args.len(),
{
    if args.len() == 0 {
        Ok(done)
    } else {
        match option_named(args[0]) {
            None => Err("unknown option: "@ + args[0]),
            Some(option) => if takes_value(option) {
                if args.len() < 2 {
                    Err("missing value for "@ + args[0])
                } else {
                    match read_value(args[0], option, args[1], done.overrides) {
                        Err(m) => Err(m),
                        Ok(overrides) => read_args(
                            args.skip(2),
                            json,
                            CliRead { overrides, ..done },
                        ),
                    }
                }
            } else {
                match read_switch(args[0], option, json, done) {
                    Err(m) => Err(m),
                    Ok(next) => read_args(args.skip(1), json, next),
                }
            },
        }
    }
}

/// The action that a command line asks for: help before everything, then JSON
/// validation, then information, then a run.
pub open spec fn cli_action(args: Seq<Seq<char>>) -> Result<CliAction, Seq<char>> {
    let json = mentions(args, CliOption::Json);
    if mentions(args, CliOption::Help) {
        Ok(CliAction::Help)
    } else if mentions(args, CliOption::Information) && !json {
        Ok(CliAction::Information)
    } else {
        match read_args(args, json, nothing_read()) {
            Err(m) => Err(m),
            Ok(r) => if json {
                Ok(CliAction::JsonValidation { overrides: r.overrides })
            } else {
                Ok(
                    CliAction::Run {
                        dry_run: r.dry_run,
                        verbose: r.verbose,
                        log: r.log,
                        overrides: r.overrides,
                    },
                )
            },
        }
    }
}

/// Finds the option that an argument names.
pub fn find_option(arg: &str) -> (r: Option<CliOption>)
    ensures
        r == option_named(arg@),
{
    let a = chars_of(arg);
    let a = a.as_slice();
    if slice_is(a, "-?") || slice_is(a, "-h") || slice_is(a, "--help") {
        Some(CliOption::Help)
    } else if slice_is(a, "-j") || slice_is(a, "--json") {
        Some(CliOption::Json)
    } else if slice_is(a, "-i") || slice_is(a, "--information") {
        Some(CliOption::Information)
    } else if slice_is(a, "-v") || slice_is(a, "--verbose") {
        Some(CliOption::Verbose)
    } else if slice_is(a, "-l") || slice_is(a, "--log") {
        Some(CliOption::Log)
    } else if slice_is(a, "--dry-run") {
        Some(CliOption::DryRun)
    } else if slice_is(a, "-t") || slice_is(a, "--threads") {
        Some(CliOption::Threads)
    } else if slice_is(a, "-s") || slice_is(a, "--size") {
        Some(CliOption::Size)
    } else if slice_is(a, "-c") || slice_is(a, "--checksum") {
        Some(CliOption::Checksum)
    } else if slice_is(a, "-w") || slice_is(a, "--width") {
        Some(CliOption::Width)
    } else {
        None
    }
}

fn long_name(option: CliOption) -> (r: String)
    ensures
        r@ == long_form(option),
{
    match option {
        CliOption::Help => "--help".to_string(),
        CliOption::Json => "--json".to_string(),
        CliOption::Information => "--information".to_string(),
        CliOption::Verbose => "--verbose".to_string(),
        CliOption::Log => "--log".to_string(),
        CliOption::DryRun => "--dry-run".to_string(),
        CliOption::Threads => "--threads".to_string(),
        CliOption::Size => "--size".to_string(),
        CliOption::Checksum => "--checksum".to_string(),
        CliOption::Width => "--width".to_string(),
    }
}

fn duplicate(option: CliOption) -> (m: String)
    ensures
        m@ == duplicate_text(option),
{
    let mut m = "conflicting duplicate ".to_string();
    m.append(long_name(option).as_str());
    m.append(" option");
    m
}

fn malformed(arg: &str, value: &str) -> (m: String)
    ensures
        m@ == malformed_text(arg@, value@),
{
    let mut m = "malformed integer for ".to_string();
    m.append(arg);
    m.append(": ");
    m.append(debug_string(value).as_str());
    m
}

fn any_names(args: &Vec<String>, option: CliOption) -> (r: bool)
    ensures
        r == mentions(text::texts(args@), option),
{
    let ghost all = text::texts(args@);
    let mut i: usize = 0;
    while i < args.len()
        invariant
            i <= args.len(),
            all == text::texts(args@),
            forall|j: int| 0 <= j < i ==> option_named(#[trigger] all[j]) != Some(option),
        decreases args.len() - i,
    {
        let named = find_option(args[i].as_str());
        assert(named == option_named(all[i as int]));
        if named == Some(option) {
            return true;
        }
        i = i + 1;
    }
    false
}

fn apply_switch(arg: &str, option: CliOption, json: bool, done: CliRead) -> (r: Result<
    CliRead,
    String,
>)
    ensures
        match r {
            Ok(next) => read_switch(arg@, option, json, done) == Ok::<CliRead, Seq<char>>(next),
            Err(m) => read_switch(arg@, option, json, done) == Err::<CliRead, Seq<char>>(m@),
        },
{
    if json && (option == CliOption::Verbose || option == CliOption::Log || option
        == CliOption::DryRun) {
        let mut m = "option ".to_string();
        m.append(arg);
        m.append(" is not used with --json");
        return Err(m);
    }
    let mut next = done;
    let given = match option {
        CliOption::Json => {
            next.json = true;
            done.json
        },
        CliOption::Information => {
            next.information = true;
            done.information
        },
        CliOption::Verbose => {
            next.verbose = true;
            done.verbose
        },
        CliOption::Log => {
            next.log = true;
            done.log
        },
        CliOption::DryRun => {
            next.dry_run = true;
            done.dry_run
        },
        _ => false,
    };
    if given {
        return Err(duplicate(option));
    }
    Ok(next)
}

fn apply_value(arg: &str, option: CliOption, value: &str, done: CliOverrides) -> (r: Result<
    CliOverrides,
    String,
>)
    ensures
        match r {
            Ok(next) => read_value(arg@, option, value@, done) == Ok::<CliOverrides, Seq<char>>(
                next,
            ),
            Err(m) => read_value(arg@, option, value@, done) == Err::<CliOverrides, Seq<char>>(
                m@,
            ),
        },
{
    let v = chars_of(value);
    if v.len() == 0 {
        let mut m = "empty value for ".to_string();
        m.append(arg);
        return Err(m);
    }
    if v[0] == '-' && !(option == CliOption::Size && str_eq(value, "-1")) {
        let mut m = "value for ".to_string();
        m.append(arg);
        m.append(" was interpreted as option: ");
        m.append(value);
        return Err(m);
    }
    assert(value_fault(arg@, option, value@) is None);
    let mut next = done;
    match option {
        CliOption::Threads => {
            if done.threads.is_some() {
                return Err(duplicate(option));
            }
            match slice_usize(v.as_slice()) {
                None => {
                    return Err(malformed(arg, value));
                },
                Some(n) => {
                    if n < 1 || n > config::MAX_WORKER_THREADS {
                        let mut m = "threads must be between 1 and 64 (got ".to_string();
                        m.append(usize_text(n).as_str());
                        m.append(")");
                        return Err(m);
                    }
                    next.threads = Some(n);
                },
            }
        },
        CliOption::Size => {
            if done.size.is_some() {
                return Err(duplicate(option));
            }
            match parse_size_expr(value) {
                Err(m) => {
                    return Err(m);
                },
                Ok(n) => {
                    next.size = Some(n);
                },
            }
        },
        CliOption::Checksum => {
            if done.checksum.is_some() {
                return Err(duplicate(option));
            }
            match parse_bool(value) {
                Err(m) => {
                    return Err(m);
                },
                Ok(b) => {
                    next.checksum = Some(b);
                },
            }
        },
        CliOption::Width => {
            if done.width.is_some() {
                return Err(duplicate(option));
            }
            match slice_usize(v.as_slice()) {
                None => {
                    return Err(malformed(arg, value));
                },
                Some(n) => {
                    next.width = Some(clamp_display_width(n));
                },
            }
        },
        _ => {},
    }
    Ok(next)
}

/// Parse process arguments into a validated action and typed overrides.
///
/// Help takes first priority. JSON validation is second and accepts the same
/// overrides as a normal run. Information is third and ignores every other
/// argument. Otherwise unknown, missing, malformed and duplicate options are
/// rejected.
pub fn parse_cli_args(args: &Vec<String>) -> (r: Result<CliAction, String>)
    ensures
        match r {
            Ok(a) => cli_action(text::texts(args@)) == Ok::<CliAction, Seq<char>>(a),
            Err(m) => cli_action(text::texts(args@)) == Err::<CliAction, Seq<char>>(m@),
        },
{
    let ghost all = text::texts(args@);
    if any_names(args, CliOption::Help) {
        return Ok(CliAction::Help);
    }
    let json = any_names(args, CliOption::Json);
    if any_names(args, CliOption::Information) && !json {
        return Ok(CliAction::Information);
    }
    let mut done = CliRead {
        json: false,
        information: false,
        dry_run: false,
        verbose: false,
        log: false,
        overrides: CliOverrides::default(),
    };
    let mut i: usize = 0;
    assert(all.skip(0) == all);
    while i < args.len()
        invariant
            i <= args.len(),
            all == text::texts(args@),
            json == mentions(all, CliOption::Json),
            !mentions(all, CliOption::Help),
            !(mentions(all, CliOption::Information) && !json),
            read_args(all, json, nothing_read()) == read_args(all.skip(i as int), json, done),
        decreases args.len() - i,
    {
        let arg = args[i].as_str();
        let ghost rest = all.skip(i as int);
        assert(rest[0] == arg@);
        match find_option(arg) {
            None => {
                let mut m = "unknown option: ".to_string();
                m.append(arg);
                return Err(m);
            },
            Some(option) => {
                if option == CliOption::Threads || option == CliOption::Size || option
                    == CliOption::Checksum || option == CliOption::Width {
                    if args.len() - i < 2 {
                        let mut m = "missing value for ".to_string();
                        m.append(arg);
                        return Err(m);
                    }
                    assert(rest[1] == args@[i + 1]@);
                    match apply_value(arg, option, args[i + 1].as_str(), done.overrides) {
                        Err(m) => {
                            return Err(m);
                        },
                        Ok(overrides) => {
                            done = CliRead { overrides, ..done };
                        },
                    }
                    assert(rest.skip(2) == all.skip(i as int + 2));
                    i = i + 2;
                } else {
                    match apply_switch(arg, option, json, done) {
                        Err(m) => {
                            return Err(m);
                        },
                        Ok(next) => {
                            done = next;
                        },
                    }
                    assert(rest.skip(1) == all.skip(i as int + 1));
                    i = i + 1;
                }
            },
        }
    }
    assert(all.skip(i as int).len() == 0);
    if json {
        return Ok(CliAction::JsonValidation { overrides: done.overrides });
    }
    Ok(
        CliAction::Run {
            dry_run: done.dry_run,
            verbose: done.verbose,
            log: done.log,
            overrides: done.overrides,
        },
    )
}

/// The options of a command line in order, leaving out the arguments that are
/// values of the option before them.
pub open spec fn options_given(args: Seq<Seq<char>>) -> Seq<CliOption>
    decreases args.len(),
{
    if args.len() == 0 {
        Seq::empty()
    } else {
        match option_named(args[0]) {
            None => Seq::empty(),
            Some(option) => if takes_value(option) && args.len() > 1 {
                seq![option] + options_given(args.skip(2))
            } else {
                seq![option] + options_given(args.skip(1))
            },
        }
    }
}

/// `done` already holds the option.
pub open spec fn already_given(done: CliRead, option: CliOption) -> bool {
    match option {
        CliOption::Json => done.json,
        CliOption::Verbose => done.verbose,
        CliOption::Log => done.log,
        CliOption::DryRun => done.dry_run,
        CliOption::Threads => done.overrides.threads is Some,
        CliOption::Size => done.overrides.size is Some,
        CliOption::Checksum => done.overrides.checksum is Some,
        CliOption::Width => done.overrides.width is Some,
        CliOption::Information => done.information,
        CliOption::Help => false,
    }
}

/// The overrides are values that a run can use: threads in range, a size that is
/// minus one or not negative, a width that can be displayed.
pub open spec fn usable_overrides(o: CliOverrides) -> bool {
    &&& o.threads matches Some(n) ==> 1 <= n <= config::MAX_WORKER_THREADS
    &&& o.size matches Some(n) ==> n >= -1
    &&& o.width matches Some(n) ==> config::DISPLAY_WIDTH_MIN <= n <= config::DISPLAY_WIDTH_MAX
}

proof fn lemma_read_args(args: Seq<Seq<char>>, json: bool, done: CliRead)
    requires
        read_args(args, json, done) is Ok,
    ensures
        forall|i: int|
            0 <= i < options_given(args).len() ==> !already_given(
                done,
                #[trigger] options_given(args)[i],
            ),
        forall|i: int, j: int|
            0 <= i < j < options_given(args).len() && #[trigger] options_given(args)[i]
                == #[trigger] options_given(args)[j] ==> options_given(args)[i] == CliOption::Help,
        usable_overrides(done.overrides) ==> usable_overrides(
            read_args(args, json, done)->Ok_0.overrides,
        ),
    decreases args.len(),
{
    if args.len() > 0 {
        let option = option_named(args[0])->0;
        if takes_value(option) {
            let next = CliRead {
                overrides: read_value(args[0], option, args[1], done.overrides)->Ok_0,
                ..done
            };
            lemma_read_args(args.skip(2), json, next);
            let tail = options_given(args.skip(2));
            assert(options_given(args) == seq![option] + tail);
            assert forall|i: int| 0 < i < options_given(args).len() implies
                options_given(args)[i] == tail[i - 1] by {}
            assert(already_given(next, option));
            config::law_size_range(args[1]);
        } else {
            let next = read_switch(args[0], option, json, done)->Ok_0;
            lemma_read_args(args.skip(1), json, next);
            let tail = options_given(args.skip(1));
            assert(options_given(args) == seq![option] + tail);
            assert forall|i: int| 0 < i < options_given(args).len() implies
                options_given(args)[i] == tail[i - 1] by {}
        }
    }
}

/// Help outranks every other argument, whatever else the command line holds.
pub proof fn law_help_first(args: Seq<Seq<char>>)
    requires
        mentions(args, CliOption::Help),
    ensures
        cli_action(args) == Ok::<CliAction, Seq<char>>(CliAction::Help),
{
}

/// JSON validation outranks information and a run: a command line that asks for it
/// and not for help is either rejected or a validation.
pub proof fn law_json_second(args: Seq<Seq<char>>)
    requires
        mentions(args, CliOption::Json),
        !mentions(args, CliOption::Help),
    ensures
        cli_action(args) is Err || cli_action(args)->Ok_0 is JsonValidation,
{
}

/// Information outranks a run and ignores every other argument.
pub proof fn law_information_third(args: Seq<Seq<char>>)
    requires
        mentions(args, CliOption::Information),
        !mentions(args, CliOption::Json),
        !mentions(args, CliOption::Help),
    ensures
        cli_action(args) == Ok::<CliAction, Seq<char>>(CliAction::Information),
{
}

/// An option that is given is named by some argument.
proof fn lemma_given_is_mentioned(args: Seq<Seq<char>>, i: int)
    requires
        0 <= i < options_given(args).len(),
    ensures
        mentions(args, options_given(args)[i]),
    decreases args.len(),
{
    let option = option_named(args[0])->0;
    let rest = if takes_value(option) && args.len() > 1 {
        args.skip(2)
    } else {
        args.skip(1)
    };
    if i > 0 {
        assert(options_given(args)[i] == options_given(rest)[i - 1]);
        lemma_given_is_mentioned(rest, i - 1);
        let j = choose|j: int|
            0 <= j < rest.len() && option_named(#[trigger] rest[j]) == Some(options_given(args)[i]);
        assert(rest[j] == args[j + (args.len() - rest.len())]);
    } else {
        assert(option_named(args[0]) == Some(options_given(args)[0]));
    }
}

/// A command line that leads to a run or to JSON validation gives no option twice.
pub proof fn law_duplicates_rejected(args: Seq<Seq<char>>, i: int, j: int)
    requires
        cli_action(args) is Ok,
        cli_action(args)->Ok_0 is Run || cli_action(args)->Ok_0 is JsonValidation,
        0 <= i < j < options_given(args).len(),
    ensures
        options_given(args)[i] != options_given(args)[j],
{
    lemma_read_args(args, mentions(args, CliOption::Json), nothing_read());
    lemma_given_is_mentioned(args, i);
}

/// Overrides that come out of the command line are within the bounds of the
/// configuration.
pub proof fn law_overrides_usable(args: Seq<Seq<char>>)
    requires
        cli_action(args) is Ok,
    ensures
        match cli_action(args)->Ok_0 {
            CliAction::Run { overrides, .. } => usable_overrides(overrides),
            CliAction::JsonValidation { overrides } => usable_overrides(overrides),
            _ => true,
        },
{
    let json = mentions(args, CliOption::Json);
    if read_args(args, json, nothing_read()) is Ok {
        lemma_read_args(args, json, nothing_read());
    }
}

/// Package name.
pub const PKG_NAME: &'static str = "warm-drive-cache";

/// Program version.
pub const PKG_VERSION: &'static str = "0.2.0";

/// Human-facing codebase version string.
pub const CODEBASE_VERSION: &'static str = "0.2.0";

/// Codebase release date (universal short English form).
pub const CODEBASE_RELEASE: &'static str = "13th August, 2026";

/// SPDX licence id.
pub const PKG_LICENSE: &'static str = "AGPL-3.0-only";

/// Project homepage.
pub const PKG_HOMEPAGE: &'static str = "https://xSAR.com.au";

/// Source repository.
pub const PKG_REPOSITORY: &'static str = "https://github.com/xSAR-research/warm-drive-cache";

/// Human-readable product owner.
pub const PRODUCT_OF: &'static str = "xSAR";

/// Public website for the product line.
pub const XSAR_WEBSITE: &'static str = "https://xSAR.com.au";

/// Safety warning shared by live runs, help, and JSON validation output.
pub const MOUNT_MODIFICATION_WARNING: &'static str = "⚠️  WARNING: Do not modify, add, or delete files in an rclone-mounted directory while warm-drive-cache is running; doing so may cause unexpected behaviour.";

/// The example configuration that help shows (placeholders only).
pub const CONFIG_EXAMPLE_JSON: &'static str = "{\n  \"version\": 1,\n  \"paths\": [\n    {\n      \"sync\": \"/home/user/mounts/project-a\",\n      \"cache\": \"/home/user/.rclone_cache\",\n      \"service\": \"gdrive-project-a.service\"\n    },\n    {\n      \"sync\": \"/home/user/mounts/project-b\",\n      \"cache\": \"/home/user/.rclone_cache\",\n      \"service\": \"gdrive-project-b.service\"\n    }\n  ],\n  \"walk\": {\n    \"checksum\": true,\n    \"max_depth\": null,\n    \"min_file_size_bytes\": 0,\n    \"max_file_size_bytes\": \"64KiB\",\n    \"max_threads\": 8,\n    \"width\": 80\n  },\n  \"ignore\": {\n    \"names\": [\".git\", \".svn\", \"node_modules\", \".cache\", \"target\", \"__pycache__\"]\n  },\n  \"mount_wait\": {\n    \"initial_secs\": 3,\n    \"retry_delays_secs\": [3, 5, 8],\n    \"max_wait_secs\": 30\n  }\n}\n";

/// Title and usage.
pub open spec fn help_usage() -> Seq<Seq<char>> {
    seq![
        PKG_NAME@ + " — Codebase Version: "@ + CODEBASE_VERSION@ + " ("@ + CODEBASE_RELEASE@ + ")"@,
        "rclone FUSE cache maintenance (product of "@ + PRODUCT_OF@ + ")"@,
        ""@,
        "Usage:"@,
        "  "@ + PKG_NAME@ + " [OPTIONS]"@,
        ""@,
    ]
}

/// The options.
pub open spec fn help_options() -> Seq<Seq<char>> {
    seq![
        "Options:"@,
        "  -?, -h, --help      Show this help and example configuration"@,
        "  -j, --json          Validate JSON, all configured paths, and service discoverability"@,
        "  -i, --information   Show version, release date, licence, and project links"@,
        "  -t, --threads VALUE Override worker count (1..=64); also applies with --json"@,
        "  -s, --size VALUE    Override maximum: -1, 0, or a positive whole size/unit"@,
        "  -c, --checksum VALUE Override checksum (TRUE/YES/Y or FALSE/NO/N); also applies with --json"@,
        "  -w, --width VALUE   Override threads-display width (80..=200); also applies with --json"@,
        "  -v, --verbose       Show Configuration and Pre-flight checks detail"@,
        "  -l, --log           Write time-stamped CSV log under /tmp (READ/ATTRIB per file)"@,
        "      --dry-run       Simulate deletion/no warm; concurrency lock is still created"@,
        ""@,
    ]
}

/// Where the configuration lives and what it governs.
pub open spec fn help_configuration() -> Seq<Seq<char>> {
    seq![
        "Configuration:"@,
        "  Place a file named warm-drive-cache.json next to the executable (same directory)."@,
        "  Copy from warm-drive-cache-example.json (shipped with the binary/source) and set your"@,
        "  absolute sync/cache paths and optional systemd unit names (system or --user)."@,
        "  CLI -t/-s/-c/-w override the matching walk fields after JSON is loaded (including --json)."@,
        "  Checksum verification is ENABLED BY DEFAULT."@,
        "  JSON checksum values: true/false or quoted TRUE/YES/Y/FALSE/NO/N."@,
        "  Full reads populate the cache; workers then poll the local VFS cache with a finite timeout."@,
        "  Before deletion, vfsMeta/<remote> is checked every second for Dirty=true entries."@,
        "  Normal runs create warm-drive-cache.lock in each cache; an existing lock defaults to No."@,
        ""@,
    ]
}

/// The special values of the maximum size.
pub open spec fn help_limits() -> Seq<Seq<char>> {
    seq![
        "walk.max_file_size_bytes special values:"@,
        "  -1  metadata only (no File contents read for any file)"@,
        "   0  File contents read for every file (any size)"@,
        "  N>0 File contents read when file size is within min..N window"@,
        ""@,
    ]
}

/// How sizes are written.
pub open spec fn help_sizes() -> Seq<Seq<char>> {
    seq![
        "Sizes may be JSON numbers (whole bytes) or strings with units (case-insensitive):"@,
        "  65536 | \"64KiB\" | \"64K\" | \"64KB\" | \"1MiB\" | \"1M\" | \"512B\""@,
        "  Units: B, K/KB/KiB, M/MB/MiB, G/GB/GiB, T/TB/TiB, P/PB/PiB (binary 1024)."@,
        "  Fractional values are not allowed (not 12.5, not \"1.5KiB\")."@,
        ""@,
    ]
}

/// The example configuration and where to read on.
pub open spec fn help_example() -> Seq<Seq<char>> {
    seq![
        "Embedded warm-drive-cache-example.json template (save as warm-drive-cache.json):"@,
        CONFIG_EXAMPLE_JSON@,
        "For full documentation see README.md in the repository:"@,
        "  "@ + PKG_REPOSITORY@,
        "  "@ + PKG_REPOSITORY@ + "/blob/main/README.md"@,
        "Website: "@ + XSAR_WEBSITE@,
        ""@,
        MOUNT_MODIFICATION_WARNING@,
    ]
}

/// The lines of `--help`: usage, configuration location and the example
/// configuration, with the safety warning as the last line.
pub open spec fn help_text() -> Seq<Seq<char>> {
    help_usage() + help_options() + help_configuration() + help_limits() + help_sizes() + help_example()
}

fn say_usage(v: &mut Vec<String>)
    ensures
        text::texts(final(v)@) == text::texts(old(v)@) + help_usage(),
{
    let mut line = PKG_NAME.to_string();
    line.append(" — Codebase Version: ");
    line.append(CODEBASE_VERSION);
    line.append(" (");
    line.append(CODEBASE_RELEASE);
    line.append(")");
    say(v, line.as_str());
    say(v, glue3("rclone FUSE cache maintenance (product of ", PRODUCT_OF, ")").as_str());
    say(v, "");
    say(v, "Usage:");
    say(v, glue3("  ", PKG_NAME, " [OPTIONS]").as_str());
    say(v, "");
    assert(text::texts(v@) == text::texts(old(v)@) + help_usage());
}

fn say_options(v: &mut Vec<String>)
    ensures
        text::texts(final(v)@) == text::texts(old(v)@) + help_options(),
{
    say(v, "Options:");
    say(v, "  -?, -h, --help      Show this help and example configuration");
    say(v, "  -j, --json          Validate JSON, all configured paths, and service discoverability");
    say(v, "  -i, --information   Show version, release date, licence, and project links");
    say(v, "  -t, --threads VALUE Override worker count (1..=64); also applies with --json");
    say(v, "  -s, --size VALUE    Override maximum: -1, 0, or a positive whole size/unit");
    say(v, "  -c, --checksum VALUE Override checksum (TRUE/YES/Y or FALSE/NO/N); also applies with --json");
    say(v, "  -w, --width VALUE   Override threads-display width (80..=200); also applies with --json");
    say(v, "  -v, --verbose       Show Configuration and Pre-flight checks detail");
    say(v, "  -l, --log           Write time-stamped CSV log under /tmp (READ/ATTRIB per file)");
    say(v, "      --dry-run       Simulate deletion/no warm; concurrency lock is still created");
    say(v, "");
    assert(text::texts(v@) == text::texts(old(v)@) + help_options());
}

fn say_configuration(v: &mut Vec<String>)
    ensures
        text::texts(final(v)@) == text::texts(old(v)@) + help_configuration(),
{
    say(v, "Configuration:");
    say(v, "  Place a file named warm-drive-cache.json next to the executable (same directory).");
    say(v, "  Copy from warm-drive-cache-example.json (shipped with the binary/source) and set your");
    say(v, "  absolute sync/cache paths and optional systemd unit names (system or --user).");
    say(v, "  CLI -t/-s/-c/-w override the matching walk fields after JSON is loaded (including --json).");
    say(v, "  Checksum verification is ENABLED BY DEFAULT.");
    say(v, "  JSON checksum values: true/false or quoted TRUE/YES/Y/FALSE/NO/N.");
    say(v, "  Full reads populate the cache; workers then poll the local VFS cache with a finite timeout.");
    say(v, "  Before deletion, vfsMeta/<remote> is checked every second for Dirty=true entries.");
    say(v, "  Normal runs create warm-drive-cache.lock in each cache; an existing lock defaults to No.");
    say(v, "");
    assert(text::texts(v@) == text::texts(old(v)@) + help_configuration());
}

fn say_limits(v: &mut Vec<String>)
    ensures
        text::texts(final(v)@) == text::texts(old(v)@) + help_limits(),
{
    say(v, "walk.max_file_size_bytes special values:");
    say(v, "  -1  metadata only (no File contents read for any file)");
    say(v, "   0  File contents read for every file (any size)");
    say(v, "  N>0 File contents read when file size is within min..N window");
    say(v, "");
    assert(text::texts(v@) == text::texts(old(v)@) + help_limits());
}

fn say_sizes(v: &mut Vec<String>)
    ensures
        text::texts(final(v)@) == text::texts(old(v)@) + help_sizes(),
{
    say(v, "Sizes may be JSON numbers (whole bytes) or strings with units (case-insensitive):");
    say(v, "  65536 | \"64KiB\" | \"64K\" | \"64KB\" | \"1MiB\" | \"1M\" | \"512B\"");
    say(v, "  Units: B, K/KB/KiB, M/MB/MiB, G/GB/GiB, T/TB/TiB, P/PB/PiB (binary 1024).");
    say(v, "  Fractional values are not allowed (not 12.5, not \"1.5KiB\").");
    say(v, "");
    assert(text::texts(v@) == text::texts(old(v)@) + help_sizes());
}

fn say_example(v: &mut Vec<String>)
    ensures
        text::texts(final(v)@) == text::texts(old(v)@) + help_example(),
{
    say(v, "Embedded warm-drive-cache-example.json template (save as warm-drive-cache.json):");
    say(v, CONFIG_EXAMPLE_JSON);
    say(v, "For full documentation see README.md in the repository:");
    say(v, glue("  ", PKG_REPOSITORY).as_str());
    say(v, glue3("  ", PKG_REPOSITORY, "/blob/main/README.md").as_str());
    say(v, glue("Website: ", XSAR_WEBSITE).as_str());
    say(v, "");
    say(v, MOUNT_MODIFICATION_WARNING);
    assert(text::texts(v@) == text::texts(old(v)@) + help_example());
}

/// Usage, configuration location, and the embedded example configuration.
pub fn help_lines() -> (v: Vec<String>)
    ensures
        text::texts(v@) == help_text(),
{
    let mut v = no_texts();
    say_usage(&mut v);
    say_options(&mut v);
    say_configuration(&mut v);
    say_limits(&mut v);
    say_sizes(&mut v);
    say_example(&mut v);
    v
}

/// The lines of `--information`.
pub open spec fn information_text() -> Seq<Seq<char>> {
    seq![
        PKG_NAME@,
        "Codebase Version: "@ + CODEBASE_VERSION@,
        "Codebase release: "@ + CODEBASE_RELEASE@,
        "A product of "@ + PRODUCT_OF@,
        "Licence: "@ + PKG_LICENSE@ + " by "@ + PRODUCT_OF@,
        "Website: "@ + XSAR_WEBSITE@,
        "Repository: "@ + PKG_REPOSITORY@,
    ]
}

/// Codebase version and release date, licence, repository and website.
pub fn information_lines() -> (v: Vec<String>)
    ensures
        text::texts(v@) == information_text(),
{
    let mut v = no_texts();
    say(&mut v, PKG_NAME);
    say(&mut v, glue("Codebase Version: ", CODEBASE_VERSION).as_str());
    say(&mut v, glue("Codebase release: ", CODEBASE_RELEASE).as_str());
    say(&mut v, glue("A product of ", PRODUCT_OF).as_str());
    let mut line = "Licence: ".to_string();
    line.append(PKG_LICENSE);
    line.append(" by ");
    line.append(PRODUCT_OF);
    say(&mut v, line.as_str());
    say(&mut v, glue("Website: ", XSAR_WEBSITE).as_str());
    say(&mut v, glue("Repository: ", PKG_REPOSITORY).as_str());
    v
}

/// Interior width of the startup identity box (characters between the side borders).
pub const BANNER_BOX_INNER: usize = 65;

/// One closed box row: the content cut or padded to the interior width.
pub open spec fn banner_row(content: Seq<char>) -> Seq<char> {
    let inner = if content.len() > BANNER_BOX_INNER {
        content.take(BANNER_BOX_INNER as int)
    } else {
        content
    };
    "│"@ + text::pad_right(inner, BANNER_BOX_INNER as nat) + "│"@
}

/// A border of the identity box.
pub open spec fn banner_rule(left: Seq<char>, right: Seq<char>) -> Seq<char> {
    left + text::repeated('─', BANNER_BOX_INNER as nat) + right
}

fn banner_box_row(content: &str) -> (r: String)
    ensures
        r@ == banner_row(content@),
{
    let all = chars_of(content);
    let inner = if all.len() > BANNER_BOX_INNER {
        let cut = vstd::slice::slice_subrange(all.as_slice(), 0, BANNER_BOX_INNER);
        assert(cut@ == content@.take(BANNER_BOX_INNER as int));
        string_of(cut)
    } else {
        content.to_string()
    };
    let padded = text::padded_right(inner.as_str(), BANNER_BOX_INNER);
    glue3("│", padded.as_str(), "│")
}

fn banner_border(left: &str, right: &str) -> (r: String)
    ensures
        r@ == banner_rule(left@, right@),
{
    let mut r = left.to_string();
    push_repeated(&mut r, '─', BANNER_BOX_INNER);
    r.append(right);
    r
}

/// The lines of the startup banner.
pub open spec fn banner_text() -> Seq<Seq<char>> {
    seq![
        "Rust utility for removing rclone cache staleness and warming mounts."@,
        "Quit gracefully: Ctrl+C (SIGINT) or press q (TTY) — finishes in-flight workers, starts no new work."@,
        ""@,
        banner_rule("┌"@, "┐"@),
        banner_row("  "@ + PKG_NAME@),
        banner_row("  Codebase Version: "@ + CODEBASE_VERSION@),
        banner_row("  Codebase release: "@ + CODEBASE_RELEASE@),
        banner_row("  Website: "@ + XSAR_WEBSITE@),
        banner_row("  Licence: "@ + PKG_LICENSE@ + " (see LICENSE file)"@),
        banner_row("  Homepage: "@ + PKG_HOMEPAGE@),
        banner_row("  Source:  "@ + PKG_REPOSITORY@),
        banner_rule("└"@, "┘"@),
        ""@,
    ]
}

/// Startup identity block: product, website and licence.
pub fn banner_lines() -> (v: Vec<String>)
    ensures
        text::texts(v@) == banner_text(),
{
    let mut v = no_texts();
    say(&mut v, "Rust utility for removing rclone cache staleness and warming mounts.");
    say(
        &mut v,
        "Quit gracefully: Ctrl+C (SIGINT) or press q (TTY) — finishes in-flight workers, starts no new work.",
    );
    say(&mut v, "");
    say(&mut v, banner_border("┌", "┐").as_str());
    say(&mut v, banner_box_row(glue("  ", PKG_NAME).as_str()).as_str());
    say(&mut v, banner_box_row(glue("  Codebase Version: ", CODEBASE_VERSION).as_str()).as_str());
    say(&mut v, banner_box_row(glue("  Codebase release: ", CODEBASE_RELEASE).as_str()).as_str());
    say(&mut v, banner_box_row(glue("  Website: ", XSAR_WEBSITE).as_str()).as_str());
    say(
        &mut v,
        banner_box_row(glue3("  Licence: ", PKG_LICENSE, " (see LICENSE file)").as_str()).as_str(),
    );
    say(&mut v, banner_box_row(glue("  Homepage: ", PKG_HOMEPAGE).as_str()).as_str());
    say(&mut v, banner_box_row(glue("  Source:  ", PKG_REPOSITORY).as_str()).as_str());
    say(&mut v, banner_border("└", "┘").as_str());
    say(&mut v, "");
    v
}

/// Every row of the startup box has the same width, whatever its content.
pub proof fn law_banner_rows_align(content: Seq<char>)
    ensures
        banner_row(content).len() == BANNER_BOX_INNER + 2,
        banner_rule("┌"@, "┐"@).len() == BANNER_BOX_INNER + 2,
        banner_rule("└"@, "┘"@).len() == BANNER_BOX_INNER + 2,
{
    reveal_strlit("│");
    reveal_strlit("┌");
    reveal_strlit("┐");
    reveal_strlit("└");
    reveal_strlit("┘");
}

/// The safety warning is the last line of help.
pub proof fn law_help_ends_with_warning()
    ensures
        help_text().len() > 0,
        help_text().last() == MOUNT_MODIFICATION_WARNING@,
{
}

/// The service of a pair as the configuration block names it.
pub open spec fn shown_service(service: Option<Seq<char>>) -> Seq<char> {
    match service {
        Some(s) => if s.len() > 0 {
            s
        } else {
            "(none)"@
        },
        None => "(none)"@,
    }
}

/// The line for one path pair.
pub open spec fn pair_line(i: nat, pair: PathPair) -> Seq<char> {
    "   paths["@ + text::decimal(i) + "]: service="@ + shown_service(
        text::opt_view(pair.service),
    ) + "  sync="@ + pair.sync@ + "  cache="@ + pair.cache@
}

/// The lines for the path pairs.
pub open spec fn pair_lines(paths: Seq<PathPair>) -> Seq<Seq<char>> {
    Seq::new(paths.len(), |i: int| pair_line(i as nat, paths[i]))
}

/// The mount settle timings on one line.
pub open spec fn wait_text(w: MountWait) -> Seq<char> {
    "initial="@ + text::decimal(w.initial_secs as nat) + "s retries="@ + report::number_list(
        w.retry_delays_secs@,
    ) + " max="@ + text::decimal(w.max_wait_secs as nat) + "s"@
}

/// The Configuration block.
pub open spec fn config_text(cfg: Config) -> Seq<Seq<char>> {
    seq![
        "📋 Configuration"@,
        "   version: "@ + text::decimal(cfg.version as nat),
        "   path pairs: "@ + text::decimal(cfg.paths@.len()),
    ] + pair_lines(cfg.paths@) + seq![
        match cfg.walk.max_depth {
            Some(d) => "   walk.max_depth: "@ + text::decimal(d as nat),
            None => "   walk.max_depth: unlimited"@,
        },
        if cfg.walk.min_file_size_bytes == 0 {
            "   walk.min_file_size_bytes: 0 (no minimum)"@
        } else {
            "   walk.min_file_size_bytes: "@ + cache_ops::bytes_text(
                cfg.walk.min_file_size_bytes as nat,
            )
        },
        "   walk.max_file_size_bytes: "@ + cache_ops::max_size_text(
            cfg.walk.max_file_size_bytes as int,
        ),
        "   walk.max_threads: "@ + text::decimal(cfg.walk.max_threads as nat),
        "   walk.checksum: "@ + report::truth(cfg.walk.checksum) + " (enabled by default)"@,
        if cfg.ignore.names@.len() == 0 {
            "   ignore.names: []"@
        } else {
            "   ignore.names: "@ + report::quoted_list(cfg.ignore.names@)
        },
        "   mount_wait: "@ + wait_text(cfg.mount_wait),
    ]
}

fn service_shown(service: &Option<String>) -> (r: String)
    ensures
        r@ == shown_service(text::opt_view(*service)),
{
    match service {
        Some(s) => if chars_of(s.as_str()).len() > 0 {
            s.clone()
        } else {
            "(none)".to_string()
        },
        None => "(none)".to_string(),
    }
}

fn wait_shown(w: &MountWait) -> (r: String)
    ensures
        r@ == wait_text(*w),
{
    let mut r = "initial=".to_string();
    r.append(u64_text(w.initial_secs).as_str());
    r.append("s retries=");
    r.append(number_list_text(&w.retry_delays_secs).as_str());
    r.append(" max=");
    r.append(u64_text(w.max_wait_secs).as_str());
    r.append("s");
    r
}

/// The resolved configuration as a verbose run shows it.
pub fn loaded_config_lines(cfg: &Config) -> (v: Vec<String>)
    ensures
        text::texts(v@) == config_text(*cfg),
{
    let mut v = no_texts();
    say(&mut v, "📋 Configuration");
    say(&mut v, glue("   version: ", u64_text(cfg.version as u64).as_str()).as_str());
    say(&mut v, glue("   path pairs: ", usize_text(cfg.paths.len()).as_str()).as_str());
    let ghost head = text::texts(v@);
    let ghost pairs = pair_lines(cfg.paths@);
    let mut i: usize = 0;
    assert(head + pairs.take(0) == head);
    while i < cfg.paths.len()
        invariant
            i <= cfg.paths.len(),
            pairs == pair_lines(cfg.paths@),
            text::texts(v@) == head + pairs.take(i as int),
        decreases cfg.paths.len() - i,
    {
        let pair = &cfg.paths[i];
        let mut line = "   paths[".to_string();
        line.append(usize_text(i).as_str());
        line.append("]: service=");
        line.append(service_shown(&pair.service).as_str());
        line.append("  sync=");
        line.append(pair.sync.as_str());
        line.append("  cache=");
        line.append(pair.cache.as_str());
        say(&mut v, line.as_str());
        assert(line@ == pairs[i as int]);
        assert((head + pairs.take(i as int)).push(pairs[i as int]) == head + pairs.take(
            i as int + 1,
        ));
        i = i + 1;
    }
    assert(pairs.take(pairs.len() as int) == pairs);
    let ghost before = text::texts(v@);
    match cfg.walk.max_depth {
        Some(d) => say(&mut v, glue("   walk.max_depth: ", usize_text(d).as_str()).as_str()),
        None => say(&mut v, "   walk.max_depth: unlimited"),
    }
    if cfg.walk.min_file_size_bytes == 0 {
        say(&mut v, "   walk.min_file_size_bytes: 0 (no minimum)");
    } else {
        say(
            &mut v,
            glue(
                "   walk.min_file_size_bytes: ",
                format_bytes(cfg.walk.min_file_size_bytes).as_str(),
            ).as_str(),
        );
    }
    say(
        &mut v,
        glue(
            "   walk.max_file_size_bytes: ",
            format_max_file_size_limit(cfg.walk.max_file_size_bytes).as_str(),
        ).as_str(),
    );
    say(&mut v, glue("   walk.max_threads: ", usize_text(cfg.walk.max_threads).as_str()).as_str());
    say(
        &mut v,
        glue3(
            "   walk.checksum: ",
            truth_text(cfg.walk.checksum).as_str(),
            " (enabled by default)",
        ).as_str(),
    );
    if cfg.ignore.names.len() == 0 {
        say(&mut v, "   ignore.names: []");
    } else {
        say(
            &mut v,
            glue("   ignore.names: ", quoted_list_text(&cfg.ignore.names).as_str()).as_str(),
        );
    }
    say(&mut v, glue("   mount_wait: ", wait_shown(&cfg.mount_wait).as_str()).as_str());
    assert(text::texts(v@) == config_text(*cfg));
    v
}

/// The spellings of the options: a dash and a letter, or two dashes and the whole word.
/// Nothing else names an option.
pub proof fn law_option_spellings(arg: Seq<char>)
    ensures
        option_named(arg) == Some(CliOption::Help) <==> arg == seq!['-', '?'] || arg == seq!['-', 'h'] || arg == seq!['-', '-', 'h', 'e', 'l', 'p'],
        option_named(arg) == Some(CliOption::Json) <==> arg == seq!['-', 'j'] || arg == seq!['-', '-', 'j', 's', 'o', 'n'],
        option_named(arg) == Some(CliOption::Information) <==> arg == seq!['-', 'i'] || arg == seq!['-', '-', 'i', 'n', 'f', 'o', 'r', 'm', 'a', 't', 'i', 'o', 'n'],
        option_named(arg) == Some(CliOption::Verbose) <==> arg == seq!['-', 'v'] || arg == seq!['-', '-', 'v', 'e', 'r', 'b', 'o', 's', 'e'],
        option_named(arg) == Some(CliOption::Log) <==> arg == seq!['-', 'l'] || arg == seq!['-', '-', 'l', 'o', 'g'],
        option_named(arg) == Some(CliOption::DryRun) <==> arg == seq!['-', '-', 'd', 'r', 'y', '-', 'r', 'u', 'n'],
        option_named(arg) == Some(CliOption::Threads) <==> arg == seq!['-', 't'] || arg == seq!['-', '-', 't', 'h', 'r', 'e', 'a', 'd', 's'],
        option_named(arg) == Some(CliOption::Size) <==> arg == seq!['-', 's'] || arg == seq!['-', '-', 's', 'i', 'z', 'e'],
        option_named(arg) == Some(CliOption::Checksum) <==> arg == seq!['-', 'c'] || arg == seq!['-', '-', 'c', 'h', 'e', 'c', 'k', 's', 'u', 'm'],
        option_named(arg) == Some(CliOption::Width) <==> arg == seq!['-', 'w'] || arg == seq!['-', '-', 'w', 'i', 'd', 't', 'h'],
        option_named(arg) is Some ==> arg.len() >= 2 && arg[0] == '-' && arg[1] != '1',
{
    reveal_strlit("-?");
    assert("-?"@ =~= seq!['-', '?']);
    reveal_strlit("-h");
    assert("-h"@ =~= seq!['-', 'h']);
    reveal_strlit("--help");
    assert("--help"@ =~= seq!['-', '-', 'h', 'e', 'l', 'p']);
    reveal_strlit("-j");
    assert("-j"@ =~= seq!['-', 'j']);
    reveal_strlit("--json");
    assert("--json"@ =~= seq!['-', '-', 'j', 's', 'o', 'n']);
    reveal_strlit("-i");
    assert("-i"@ =~= seq!['-', 'i']);
    reveal_strlit("--information");
    assert("--information"@ =~= seq!['-', '-', 'i', 'n', 'f', 'o', 'r', 'm', 'a', 't', 'i', 'o', 'n']);
    reveal_strlit("-v");
    assert("-v"@ =~= seq!['-', 'v']);
    reveal_strlit("--verbose");
    assert("--verbose"@ =~= seq!['-', '-', 'v', 'e', 'r', 'b', 'o', 's', 'e']);
    reveal_strlit("-l");
    assert("-l"@ =~= seq!['-', 'l']);
    reveal_strlit("--log");
    assert("--log"@ =~= seq!['-', '-', 'l', 'o', 'g']);
    reveal_strlit("--dry-run");
    assert("--dry-run"@ =~= seq!['-', '-', 'd', 'r', 'y', '-', 'r', 'u', 'n']);
    reveal_strlit("-t");
    assert("-t"@ =~= seq!['-', 't']);
    reveal_strlit("--threads");
    assert("--threads"@ =~= seq!['-', '-', 't', 'h', 'r', 'e', 'a', 'd', 's']);
    reveal_strlit("-s");
    assert("-s"@ =~= seq!['-', 's']);
    reveal_strlit("--size");
    assert("--size"@ =~= seq!['-', '-', 's', 'i', 'z', 'e']);
    reveal_strlit("-c");
    assert("-c"@ =~= seq!['-', 'c']);
    reveal_strlit("--checksum");
    assert("--checksum"@ =~= seq!['-', '-', 'c', 'h', 'e', 'c', 'k', 's', 'u', 'm']);
    reveal_strlit("-w");
    assert("-w"@ =~= seq!['-', 'w']);
    reveal_strlit("--width");
    assert("--width"@ =~= seq!['-', '-', 'w', 'i', 'd', 't', 'h']);
    assert("-?"@.len() == 2 && "-?"@[0] == '-' && "-?"@[1] == '?');
    assert("-h"@.len() == 2 && "-h"@[0] == '-' && "-h"@[1] == 'h');
    assert("--help"@.len() == 6 && "--help"@[0] == '-' && "--help"@[1] == '-' && "--help"@[2] == 'h');
    assert("-j"@.len() == 2 && "-j"@[0] == '-' && "-j"@[1] == 'j');
    assert("--json"@.len() == 6 && "--json"@[0] == '-' && "--json"@[1] == '-' && "--json"@[2] == 'j');
    assert("-i"@.len() == 2 && "-i"@[0] == '-' && "-i"@[1] == 'i');
    assert("--information"@.len() == 13 && "--information"@[0] == '-' && "--information"@[1] == '-' && "--information"@[2] == 'i');
    assert("-v"@.len() == 2 && "-v"@[0] == '-' && "-v"@[1] == 'v');
    assert("--verbose"@.len() == 9 && "--verbose"@[0] == '-' && "--verbose"@[1] == '-' && "--verbose"@[2] == 'v');
    assert("-l"@.len() == 2 && "-l"@[0] == '-' && "-l"@[1] == 'l');
    assert("--log"@.len() == 5 && "--log"@[0] == '-' && "--log"@[1] == '-' && "--log"@[2] == 'l');
    assert("--dry-run"@.len() == 9 && "--dry-run"@[0] == '-' && "--dry-run"@[1] == '-' && "--dry-run"@[2] == 'd');
    assert("-t"@.len() == 2 && "-t"@[0] == '-' && "-t"@[1] == 't');
    assert("--threads"@.len() == 9 && "--threads"@[0] == '-' && "--threads"@[1] == '-' && "--threads"@[2] == 't');
    assert("-s"@.len() == 2 && "-s"@[0] == '-' && "-s"@[1] == 's');
    assert("--size"@.len() == 6 && "--size"@[0] == '-' && "--size"@[1] == '-' && "--size"@[2] == 's');
    assert("-c"@.len() == 2 && "-c"@[0] == '-' && "-c"@[1] == 'c');
    assert("--checksum"@.len() == 10 && "--checksum"@[0] == '-' && "--checksum"@[1] == '-' && "--checksum"@[2] == 'c');
    assert("-w"@.len() == 2 && "-w"@[0] == '-' && "-w"@[1] == 'w');
    assert("--width"@.len() == 7 && "--width"@[0] == '-' && "--width"@[1] == '-' && "--width"@[2] == 'w');
}

/// What a value of an option must not look like: it is not empty, and does not begin with a
/// dash unless it is a minus one for the size.
pub proof fn law_values_are_no_options(arg: Seq<char>, option: CliOption, value: Seq<char>)
    ensures
        value_fault(arg, option, value) is None <==> value.len() > 0 && (value[0] != '-' || (
        option is Size && value == seq!['-', '1'])),
        takes_value(option) <==> option is Threads || option is Size || option is Checksum
            || option is Width,
{
    reveal_strlit("-1");
    assert("-1"@ =~= seq!['-', '1']);
}

/// What was read of an argument is what stands behind its option.
pub open spec fn reading_agrees(args: Seq<Seq<char>>, i: int, r: CliRead) -> bool {
    let has_value = i + 1 < args.len();
    let value = args[i + 1];
    match option_named(args[i]) {
        None => i > 0 && option_named(args[i - 1]) is Some && takes_value(
            option_named(args[i - 1])->0,
        ),
        Some(CliOption::Json) => r.json,
        Some(CliOption::Information) => r.information,
        Some(CliOption::Verbose) => r.verbose,
        Some(CliOption::Log) => r.log,
        Some(CliOption::DryRun) => r.dry_run,
        Some(CliOption::Threads) => has_value && r.overrides.threads is Some && text::usize_value(
            value,
        ) == Some(r.overrides.threads->0 as nat) && 1 <= r.overrides.threads->0 <= 64,
        Some(CliOption::Size) => has_value && r.overrides.size is Some && config::size_value(value)
            == Ok::<int, config::SizeFault>(r.overrides.size->0 as int),
        Some(CliOption::Checksum) => has_value && r.overrides.checksum is Some
            && config::bool_word(value) == r.overrides.checksum,
        Some(CliOption::Width) => has_value && r.overrides.width is Some && text::usize_value(value)
            is Some && r.overrides.width->0 == config::clamped_width(
            text::usize_value(value)->0 as int,
        ),
        Some(CliOption::Help) => true,
    }
}

/// What was given before is kept.
pub open spec fn reading_kept(done: CliRead, r: CliRead) -> bool {
    &&& done.json ==> r.json
    &&& done.information ==> r.information
    &&& done.verbose ==> r.verbose
    &&& done.log ==> r.log
    &&& done.dry_run ==> r.dry_run
    &&& done.overrides.threads is Some ==> r.overrides.threads == done.overrides.threads
    &&& done.overrides.size is Some ==> r.overrides.size == done.overrides.size
    &&& done.overrides.checksum is Some ==> r.overrides.checksum == done.overrides.checksum
    &&& done.overrides.width is Some ==> r.overrides.width == done.overrides.width
}

/// What was not given stays as it was.
pub open spec fn reading_untouched(args: Seq<Seq<char>>, done: CliRead, r: CliRead) -> bool {
    &&& mentions(args, CliOption::Json) || r.json == done.json
    &&& mentions(args, CliOption::Information) || r.information == done.information
    &&& mentions(args, CliOption::Verbose) || r.verbose == done.verbose
    &&& mentions(args, CliOption::Log) || r.log == done.log
    &&& mentions(args, CliOption::DryRun) || r.dry_run == done.dry_run
    &&& mentions(args, CliOption::Threads) || r.overrides.threads == done.overrides.threads
    &&& mentions(args, CliOption::Size) || r.overrides.size == done.overrides.size
    &&& mentions(args, CliOption::Checksum) || r.overrides.checksum == done.overrides.checksum
    &&& mentions(args, CliOption::Width) || r.overrides.width == done.overrides.width
}

proof fn lemma_mentions_skip(args: Seq<Seq<char>>, n: int, option: CliOption)
    requires
        0 <= n <= args.len(),
        mentions(args.skip(n), option),
    ensures
        mentions(args, option),
{
    let rest = args.skip(n);
    let j = choose|j: int| 0 <= j < rest.len() && option_named(#[trigger] rest[j]) == Some(option);
    assert(rest[j] == args[j + n]);
}

proof fn lemma_untouched_step(args: Seq<Seq<char>>, n: int, done: CliRead, next: CliRead, r: CliRead)
    requires
        0 < n <= args.len(),
        option_named(args[0]) is Some,
        reading_untouched(args.skip(n), next, r),
        option_named(args[0]) == Some(CliOption::Json) || next.json == done.json,
        option_named(args[0]) == Some(CliOption::Information) || next.information
            == done.information,
        option_named(args[0]) == Some(CliOption::Verbose) || next.verbose == done.verbose,
        option_named(args[0]) == Some(CliOption::Log) || next.log == done.log,
        option_named(args[0]) == Some(CliOption::DryRun) || next.dry_run == done.dry_run,
        option_named(args[0]) == Some(CliOption::Threads) || next.overrides.threads
            == done.overrides.threads,
        option_named(args[0]) == Some(CliOption::Size) || next.overrides.size
            == done.overrides.size,
        option_named(args[0]) == Some(CliOption::Checksum) || next.overrides.checksum
            == done.overrides.checksum,
        option_named(args[0]) == Some(CliOption::Width) || next.overrides.width
            == done.overrides.width,
    ensures
        reading_untouched(args, done, r),
{
    let rest = args.skip(n);
    assert forall|o: CliOption| #[trigger] mentions(rest, o) implies mentions(args, o) by {
        lemma_mentions_skip(args, n, o);
    }
    assert(mentions(args, option_named(args[0])->0));
}

proof fn lemma_reading(args: Seq<Seq<char>>, json: bool, done: CliRead, i: int)
    requires
        read_args(args, json, done) is Ok,
    ensures
        reading_kept(done, read_args(args, json, done)->Ok_0),
        reading_untouched(args, done, read_args(args, json, done)->Ok_0),
        0 <= i < args.len() ==> reading_agrees(args, i, read_args(args, json, done)->Ok_0),
        json && 0 <= i < args.len() ==> option_named(args[i]) != Some(CliOption::Verbose)
            && option_named(args[i]) != Some(CliOption::Log) && option_named(args[i]) != Some(
            CliOption::DryRun,
        ),
    decreases args.len(),
{
    if args.len() > 0 {
        let r = read_args(args, json, done)->Ok_0;
        let option = option_named(args[0])->0;
        if takes_value(option) {
            let overrides = read_value(args[0], option, args[1], done.overrides)->Ok_0;
            let next = CliRead { overrides, ..done };
            lemma_reading(args.skip(2), json, next, i - 2);
            law_values_are_no_options(args[0], option, args[1]);
            law_option_spellings(args[1]);
            config::law_size_range(args[1]);
            lemma_untouched_step(args, 2, done, next, r);
            if 2 <= i < args.len() {
                let rest = args.skip(2);
                assert(rest[i - 2] == args[i]);
                assert(i + 1 < args.len() ==> rest[i - 1] == args[i + 1]);
                assert(i > 2 ==> rest[i - 3] == args[i - 1]);
            }
        } else {
            let next = read_switch(args[0], option, json, done)->Ok_0;
            lemma_reading(args.skip(1), json, next, i - 1);
            lemma_untouched_step(args, 1, done, next, r);
            if 1 <= i < args.len() {
                let rest = args.skip(1);
                assert(rest[i - 1] == args[i]);
                assert(i + 1 < args.len() ==> rest[i] == args[i + 1]);
                assert(i > 1 ==> rest[i - 2] == args[i - 1]);
            }
        }
    }
}

/// A run does what its arguments say. Every argument is an option or the value of the one
/// before it; a switch is on exactly when it is named; and an override has the value behind
/// its option, or none where the option is not named.
pub proof fn law_run_follows_its_arguments(args: Seq<Seq<char>>, i: int)
    requires
        cli_action(args) is Ok,
        cli_action(args)->Ok_0 is Run,
    ensures
        ({
            let run = cli_action(args)->Ok_0;
            let o = run->Run_overrides;
            let value = args[i + 1];
            &&& run->Run_dry_run == mentions(args, CliOption::DryRun)
            &&& run->Run_verbose == mentions(args, CliOption::Verbose)
            &&& run->Run_log == mentions(args, CliOption::Log)
            &&& o.threads is Some <==> mentions(args, CliOption::Threads)
            &&& o.size is Some <==> mentions(args, CliOption::Size)
            &&& o.checksum is Some <==> mentions(args, CliOption::Checksum)
            &&& o.width is Some <==> mentions(args, CliOption::Width)
            &&& 0 <= i < args.len() ==> match option_named(args[i]) {
                None => i > 0 && option_named(args[i - 1]) is Some,
                Some(CliOption::Threads) => i + 1 < args.len() && text::usize_value(value) == Some(
                    o.threads->0 as nat,
                ) && 1 <= o.threads->0 <= 64,
                Some(CliOption::Size) => i + 1 < args.len() && config::size_value(value) == Ok::<
                    int,
                    config::SizeFault,
                >(o.size->0 as int),
                Some(CliOption::Checksum) => i + 1 < args.len() && config::bool_word(value)
                    == o.checksum,
                Some(CliOption::Width) => i + 1 < args.len() && text::usize_value(value) is Some
                    && o.width->0 == config::clamped_width(text::usize_value(value)->0 as int),
                _ => true,
            }
        }),
{
    lemma_reading(args, false, nothing_read(), i);
    let r = read_args(args, false, nothing_read())->Ok_0;
    assert forall|o: CliOption| #[trigger] mentions(args, o) implies given_in(r, o) by {
        let j = choose|j: int| 0 <= j < args.len() && option_named(#[trigger] args[j]) == Some(o);
        lemma_reading(args, false, nothing_read(), j);
    }
}

spec fn given_in(r: CliRead, option: CliOption) -> bool {
    match option {
        CliOption::Help => true,
        _ => already_given(r, option),
    }
}

/// JSON validation takes the overrides, and none of the switches of a run.
pub proof fn law_validation_follows_its_arguments(args: Seq<Seq<char>>, i: int)
    requires
        mentions(args, CliOption::Json),
        !mentions(args, CliOption::Help),
        0 <= i < args.len(),
    ensures
        option_named(args[i]) == Some(CliOption::Verbose) || option_named(args[i]) == Some(
            CliOption::Log,
        ) || option_named(args[i]) == Some(CliOption::DryRun) ==> cli_action(args) is Err,
        cli_action(args) is Ok ==> ({
            let o = cli_action(args)->Ok_0->JsonValidation_overrides;
            let value = args[i + 1];
            match option_named(args[i]) {
                None => i > 0 && option_named(args[i - 1]) is Some,
                Some(CliOption::Threads) => i + 1 < args.len() && o.threads is Some
                    && text::usize_value(value) == Some(o.threads->0 as nat),
                Some(CliOption::Size) => i + 1 < args.len() && o.size is Some && config::size_value(
                    value,
                ) == Ok::<int, config::SizeFault>(o.size->0 as int),
                Some(CliOption::Checksum) => i + 1 < args.len() && o.checksum is Some
                    && config::bool_word(value) == o.checksum,
                Some(CliOption::Width) => i + 1 < args.len() && o.width is Some && text::usize_value(
                    value,
                ) is Some && o.width->0 == config::clamped_width(
                    text::usize_value(value)->0 as int,
                ),
                _ => true,
            }
        }),
{
    if read_args(args, true, nothing_read()) is Ok {
        lemma_reading(args, true, nothing_read(), i);
    }
}

proof fn lemma_read_on(a: Seq<Seq<char>>, b: Seq<Seq<char>>, json: bool, done: CliRead)
    requires
        read_args(a, json, done) is Ok,
    ensures
        read_args(a + b, json, done) == read_args(b, json, read_args(a, json, done)->Ok_0),
    decreases a.len(),
{
    if a.len() == 0 {
        assert(a + b == b);
    } else {
        let option = option_named(a[0])->0;
        let n: int = if takes_value(option) {
            2
        } else {
            1
        };
        assert((a + b)[0] == a[0]);
        assert((a + b).skip(n) == a.skip(n) + b);
        if takes_value(option) {
            assert((a + b)[1] == a[1]);
            let overrides = read_value(a[0], option, a[1], done.overrides)->Ok_0;
            lemma_read_on(a.skip(2), b, json, CliRead { overrides, ..done });
        } else {
            lemma_read_on(a.skip(1), b, json, read_switch(a[0], option, json, done)->Ok_0);
        }
    }
}

proof fn lemma_mentions_add(a: Seq<Seq<char>>, b: Seq<Seq<char>>, option: CliOption)
    ensures
        mentions(a + b, option) <==> mentions(a, option) || mentions(b, option),
{
    let s = a + b;
    if mentions(a, option) {
        let j = choose|j: int| 0 <= j < a.len() && option_named(#[trigger] a[j]) == Some(option);
        assert(s[j] == a[j]);
    }
    if mentions(b, option) {
        let j = choose|j: int| 0 <= j < b.len() && option_named(#[trigger] b[j]) == Some(option);
        assert(s[j + a.len()] == b[j]);
    }
    if mentions(s, option) {
        let j = choose|j: int| 0 <= j < s.len() && option_named(#[trigger] s[j]) == Some(option);
        if j < a.len() {
            assert(s[j] == a[j]);
        } else {
            assert(s[j] == b[j - a.len()]);
        }
    }
}

/// A switch that a run does not have yet can be added at the end: it is switched on, and
/// everything else stays. The same switch again is rejected. Without arguments nothing is
/// switched on and nothing replaced.
pub proof fn law_switches_can_be_added(args: Seq<Seq<char>>, arg: Seq<char>)
    requires
        cli_action(args) is Ok,
        cli_action(args)->Ok_0 is Run,
        option_named(arg) == Some(CliOption::Verbose) || option_named(arg) == Some(CliOption::Log)
            || option_named(arg) == Some(CliOption::DryRun),
    ensures
        ({
            let option = option_named(arg)->0;
            let run = cli_action(args)->Ok_0;
            if mentions(args, option) {
                cli_action(args + seq![arg]) is Err
            } else {
                cli_action(args + seq![arg]) == Ok::<CliAction, Seq<char>>(
                    CliAction::Run {
                        dry_run: run->Run_dry_run || option is DryRun,
                        verbose: run->Run_verbose || option is Verbose,
                        log: run->Run_log || option is Log,
                        overrides: run->Run_overrides,
                    },
                )
            }
        }),
        cli_action(Seq::empty()) == Ok::<CliAction, Seq<char>>(
            CliAction::Run {
                dry_run: false,
                verbose: false,
                log: false,
                overrides: CliOverrides { threads: None, size: None, checksum: None, width: None },
            },
        ),
{
    let b = seq![arg];
    let option = option_named(arg)->0;
    assert(b[0] == arg);
    lemma_mentions_add(args, b, CliOption::Help);
    lemma_mentions_add(args, b, CliOption::Json);
    lemma_mentions_add(args, b, CliOption::Information);
    law_run_follows_its_arguments(args, 0);
    let r = read_args(args, false, nothing_read())->Ok_0;
    lemma_read_on(args, b, false, nothing_read());
    assert(b.skip(1) == Seq::<Seq<char>>::empty());
    assert(read_args(b, false, r) == match read_switch(arg, option, false, r) {
        Err(m) => Err::<CliRead, Seq<char>>(m),
        Ok(next) => read_args(b.skip(1), false, next),
    });
}

/// An option with a value that a run does not have yet can be added at the end: it replaces
/// that one setting. A number of threads is from one to 64; a size and a truth value are
/// those of the configuration; a width is brought into range.
pub proof fn law_values_can_be_added(args: Seq<Seq<char>>, arg: Seq<char>, value: Seq<char>)
    requires
        cli_action(args) is Ok,
        cli_action(args)->Ok_0 is Run,
        option_named(arg) is Some,
        takes_value(option_named(arg)->0),
        value.len() > 0,
        value[0] != '-' || value == seq!['-', '1'],
    ensures
        ({
            let option = option_named(arg)->0;
            let run = cli_action(args)->Ok_0;
            let o = run->Run_overrides;
            let next = cli_action(args + seq![arg, value]);
            let minus = value[0] == '-';
            let accepted = !mentions(args, option) && match option {
                CliOption::Threads => !minus && text::usize_value(value) is Some && 1
                    <= text::usize_value(value)->0 <= 64,
                CliOption::Size => config::size_value(value) is Ok,
                CliOption::Checksum => !minus && config::bool_word(value) is Some,
                _ => !minus && text::usize_value(value) is Some,
            };
            let number = text::usize_value(value)->0;
            &&& next is Ok <==> accepted
            &&& accepted ==> next == Ok::<CliAction, Seq<char>>(
                CliAction::Run {
                    dry_run: run->Run_dry_run,
                    verbose: run->Run_verbose,
                    log: run->Run_log,
                    overrides: match option {
                        CliOption::Threads => CliOverrides { threads: Some(number as usize), ..o },
                        CliOption::Size => CliOverrides {
                            size: Some(config::size_value(value)->Ok_0 as i64),
                            ..o
                        },
                        CliOption::Checksum => CliOverrides {
                            checksum: config::bool_word(value),
                            ..o
                        },
                        _ => CliOverrides {
                            width: Some(config::clamped_width(number as int) as usize),
                            ..o
                        },
                    },
                },
            )
        }),
{
    let b = seq![arg, value];
    let option = option_named(arg)->0;
    assert(b[0] == arg && b[1] == value);
    law_option_spellings(value);
    law_values_are_no_options(arg, option, value);
    assert forall|j: int| 0 <= j < b.len() implies option_named(#[trigger] b[j]) == Some(option)
        || option_named(b[j]) is None by {
        if j == 1 {
            assert(b[j] == value);
        }
    }
    lemma_mentions_add(args, b, CliOption::Help);
    lemma_mentions_add(args, b, CliOption::Json);
    lemma_mentions_add(args, b, CliOption::Information);
    law_run_follows_its_arguments(args, 0);
    let r = read_args(args, false, nothing_read())->Ok_0;
    lemma_read_on(args, b, false, nothing_read());
    assert(b.skip(2) == Seq::<Seq<char>>::empty());
    assert(read_args(b, false, r) == match read_value(arg, option, value, r.overrides) {
        Err(m) => Err::<CliRead, Seq<char>>(m),
        Ok(overrides) => read_args(b.skip(2), false, CliRead { overrides, ..r }),
    });
}

/// A row of the startup box shows its content from the beginning, followed by spaces, between
/// two borders.
pub proof fn law_banner_row_shows_content(content: Seq<char>, i: int)
    requires
        0 <= i < 65,
    ensures
        banner_row(content)[0] == '│',
        banner_row(content)[66] == '│',
        banner_row(content)[i + 1] == if i < content.len() {
            content[i]
        } else {
            ' '
        },
{
    reveal_strlit("│");
}

/// The configuration block has a line for every pair, in order and numbered from zero, with
/// its service, its sync directory and its cache.
pub proof fn law_configuration_block(cfg: Config, i: int)
    requires
        0 <= i < cfg.paths@.len(),
    ensures
        config_text(cfg).len() == cfg.paths@.len() + 10,
        config_text(cfg)[2] == "   path pairs: "@ + text::decimal(cfg.paths@.len()),
        config_text(cfg)[3 + i] == "   paths["@ + text::decimal(i as nat) + "]: service="@ + (
        if cfg.paths@[i].service is Some && cfg.paths@[i].service->0@.len() > 0 {
            cfg.paths@[i].service->0@
        } else {
            "(none)"@
        }) + "  sync="@ + cfg.paths@[i].sync@ + "  cache="@ + cfg.paths@[i].cache@,
        ({
            let n = 3 + cfg.paths@.len() as int;
            &&& config_text(cfg)[n] == match cfg.walk.max_depth {
                Some(d) => "   walk.max_depth: "@ + text::decimal(d as nat),
                None => "   walk.max_depth: unlimited"@,
            }
            &&& config_text(cfg)[n + 3] == "   walk.max_threads: "@ + text::decimal(
                cfg.walk.max_threads as nat,
            )
        }),
{
}

/// The long form of an option names it, and the message about an option that is given twice
/// holds it.
pub proof fn law_long_forms(option: CliOption)
    ensures
        option_named(long_form(option)) == Some(option),
        long_form(option)[0] == '-' && long_form(option)[1] == '-',
        text::contains_text(duplicate_text(option), long_form(option)),
{
    text::lemma_stands_in("conflicting duplicate "@, long_form(option), " option"@);
    law_option_spellings(long_form(option));
    reveal_strlit("--help");
    reveal_strlit("--json");
    reveal_strlit("--information");
    reveal_strlit("--verbose");
    reveal_strlit("--log");
    reveal_strlit("--dry-run");
    reveal_strlit("--threads");
    reveal_strlit("--size");
    reveal_strlit("--checksum");
    reveal_strlit("--width");
    match option {
        CliOption::Help => assert(long_form(option) =~= seq!['-', '-', 'h', 'e', 'l', 'p']),
        CliOption::Json => assert(long_form(option) =~= seq!['-', '-', 'j', 's', 'o', 'n']),
        CliOption::Information => assert(long_form(option) =~= seq![
            '-',
            '-',
            'i',
            'n',
            'f',
            'o',
            'r',
            'm',
            'a',
            't',
            'i',
            'o',
            'n',
        ]),
        CliOption::Verbose => assert(long_form(option) =~= seq![
            '-',
            '-',
            'v',
            'e',
            'r',
            'b',
            'o',
            's',
            'e',
        ]),
        CliOption::Log => assert(long_form(option) =~= seq!['-', '-', 'l', 'o', 'g']),
        CliOption::DryRun => assert(long_form(option) =~= seq![
            '-',
            '-',
            'd',
            'r',
            'y',
            '-',
            'r',
            'u',
            'n',
        ]),
        CliOption::Threads => assert(long_form(option) =~= seq![
            '-',
            '-',
            't',
            'h',
            'r',
            'e',
            'a',
            'd',
            's',
        ]),
        CliOption::Size => assert(long_form(option) =~= seq!['-', '-', 's', 'i', 'z', 'e']),
        CliOption::Checksum => assert(long_form(option) =~= seq![
            '-',
            '-',
            'c',
            'h',
            'e',
            'c',
            'k',
            's',
            'u',
            'm',
        ]),
        CliOption::Width => assert(long_form(option) =~= seq!['-', '-', 'w', 'i', 'd', 't', 'h']),
    }
}

/// The first thing that cannot be read is what is told: an argument that names no option, an
/// option whose value is missing, and an option that is there already.
pub proof fn law_what_cannot_be_read(args: Seq<Seq<char>>, arg: Seq<char>, rest: Seq<Seq<char>>)
    requires
        cli_action(args) is Ok,
        cli_action(args)->Ok_0 is Run,
        forall|i: int|
            0 <= i < rest.len() ==> option_named(#[trigger] rest[i]) != Some(CliOption::Help)
                && option_named(rest[i]) != Some(CliOption::Json) && option_named(rest[i]) != Some(
                CliOption::Information,
            ),
    ensures
        option_named(arg) is None ==> cli_action(args + (seq![arg] + rest)) == Err::<
            CliAction,
            Seq<char>,
        >("unknown option: "@ + arg),
        option_named(arg) is Some && takes_value(option_named(arg)->0) ==> cli_action(
            args + seq![arg],
        ) == Err::<CliAction, Seq<char>>("missing value for "@ + arg),
        option_named(arg) is Some && (option_named(arg)->0 is Verbose || option_named(arg)->0
            is Log || option_named(arg)->0 is DryRun) && mentions(args, option_named(arg)->0)
            ==> cli_action(args + (seq![arg] + rest)) == Err::<CliAction, Seq<char>>(
            duplicate_text(option_named(arg)->0),
        ),
{
    let one = seq![arg];
    let b = one + rest;
    assert(b[0] == arg && one[0] == arg);
    assert forall|j: int| 0 < j < b.len() implies option_named(#[trigger] b[j]) != Some(
        CliOption::Help,
    ) && option_named(b[j]) != Some(CliOption::Json) && option_named(b[j]) != Some(
        CliOption::Information,
    ) by {
        assert(b[j] == rest[j - 1]);
    }
    lemma_mentions_add(args, b, CliOption::Help);
    lemma_mentions_add(args, b, CliOption::Json);
    lemma_mentions_add(args, b, CliOption::Information);
    lemma_mentions_add(args, one, CliOption::Help);
    lemma_mentions_add(args, one, CliOption::Json);
    lemma_mentions_add(args, one, CliOption::Information);
    law_run_follows_its_arguments(args, 0);
    lemma_read_on(args, b, false, nothing_read());
    lemma_read_on(args, one, false, nothing_read());
}

} // verus!
