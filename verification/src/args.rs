use crate::plan::Args;
use vstd::prelude::*;

verus! {

/// The argument parser of the `pico-args` crate, used without any of its
/// optional features: an option and its value are two arguments.
#[verifier::external_type_specification]
#[verifier::external_body]
pub struct ExArguments(pico_args::Arguments);

/// The arguments that a parser still holds, in order: each as its text, or
/// `None` where it is not valid UTF-8.
pub uninterp spec fn left(args: pico_args::Arguments) -> Seq<Option<Seq<char>>>;

/// Whether `key` can be looked up without tripping the parser's checks: a
/// dash and one more character, or two dashes and whatever follows.
pub open spec fn is_key(key: Seq<char>) -> bool {
    &&& key.len() >= 2
    &&& key[0] == '-'
    &&& key[1] != '-' ==> key.len() == 2
}

/// The index of the first argument that is exactly `key`, or the number of
/// arguments where there is none.
pub open spec fn position(args: Seq<Option<Seq<char>>>, key: Seq<char>) -> int
    decreases args.len(),
{
    if args.len() == 0 {
        0
    } else if args[0] == Some(key) {
        0
    } else {
        1 + position(args.skip(1), key)
    }
}

/// Whether some argument is exactly `key`.
pub open spec fn has_key(args: Seq<Option<Seq<char>>>, key: Seq<char>) -> bool {
    position(args, key) < args.len()
}

/// The arguments without the first one that is exactly `key`.
pub open spec fn without_key(args: Seq<Option<Seq<char>>>, key: Seq<char>) -> Seq<
    Option<Seq<char>>,
> {
    if has_key(args, key) {
        args.remove(position(args, key))
    } else {
        args
    }
}

/// What looking up the value of an option finds.
pub enum Lookup {
    /// The option is not there.
    Absent,
    /// The option is the last argument, or what follows it is not valid
    /// UTF-8.
    Broken,
    /// The argument that follows the option.
    Found(Seq<char>),
}

/// The value of the option `key`: the argument after the first one that is
/// exactly `key`, whatever it looks like.
pub open spec fn value_of(args: Seq<Option<Seq<char>>>, key: Seq<char>) -> Lookup {
    let at = position(args, key);
    if at >= args.len() {
        Lookup::Absent
    } else if at + 1 >= args.len() {
        Lookup::Broken
    } else {
        match args[at + 1] {
            Some(text) => Lookup::Found(text),
            None => Lookup::Broken,
        }
    }
}

/// The arguments after the value of `key` was taken: without the option and
/// its value where one was found, unchanged otherwise.
pub open spec fn after_value(args: Seq<Option<Seq<char>>>, key: Seq<char>) -> Seq<
    Option<Seq<char>>,
> {
    match value_of(args, key) {
        Lookup::Found(_) => args.remove(position(args, key)).remove(position(args, key)),
        _ => args,
    }
}

/// Calls `pico_args::Arguments::contains` with a single key. Trusted: the
/// call looks for the first argument that is exactly the key, removes it, and
/// says whether there was one. Keys that the crate's own checks refuse are
/// left out.
#[verifier::external_body]
fn take_flag(args: &mut pico_args::Arguments, key: &'static str) -> (found: bool)
    requires
        is_key(key@),
    ensures
        found == has_key(left(*old(args)), key@),
        left(*final(args)) == without_key(left(*old(args)), key@),
{
    args.contains(key)
}

/// Calls `pico_args::Arguments::opt_value_from_str` with a single key, for a
/// `String`. Trusted: where no argument is exactly the key the call gives
/// `None`; where a UTF-8 argument follows the first such argument it removes
/// both and gives the follower; otherwise it fails and removes nothing. The
/// error is handed on as its debug text, of which nothing is claimed.
#[verifier::external_body]
fn take_value(args: &mut pico_args::Arguments, key: &'static str) -> (r: Result<
    Option<String>,
    String,
>)
    requires
        is_key(key@),
    ensures
        left(*final(args)) == after_value(left(*old(args)), key@),
        match value_of(left(*old(args)), key@) {
            Lookup::Absent => r == Ok::<Option<String>, String>(None),
            Lookup::Broken => r.is_err(),
            Lookup::Found(text) => r.is_ok() && r.unwrap().is_some() && r.unwrap().unwrap()@
                == text,
        },
{
    match args.opt_value_from_str::<&'static str, String>(key) {
        Ok(value) => Ok(value),
        Err(err) => Err(format!("{err:?}")),
    }
}

/// Calls `pico_args::Arguments::finish`. Trusted: the call gives the
/// arguments that are left, in order. Each is turned into text, lossily where
/// it is not valid UTF-8, and only of the valid ones is the text claimed.
#[verifier::external_body]
fn rest(args: pico_args::Arguments) -> (r: Vec<String>)
    ensures
        r@.len() == left(args).len(),
        forall|i: int|
            0 <= i < r@.len() && left(args)[i].is_some() ==> (#[trigger] r@[i])@ == left(
                args,
            )[i].unwrap(),
{
    args.finish().into_iter().map(|arg| arg.to_string_lossy().into_owned()).collect()
}

/// The value of a decimal digit.
pub open spec fn digit(c: char) -> Option<nat> {
    if '0' <= c && c <= '9' {
        Some((c as u32 - '0' as u32) as nat)
    } else {
        None
    }
}

/// The number that a sequence of decimal digits writes. The empty sequence
/// writes zero; a sequence with anything but digits writes nothing.
pub open spec fn digits(text: Seq<char>) -> Option<nat>
    decreases text.len(),
{
    if text.len() == 0 {
        Some(0)
    } else {
        match (digits(text.drop_last()), digit(text.last())) {
            (Some(high), Some(low)) => Some(10 * high + low),
            _ => None,
        }
    }
}

/// The `usize` that `text` writes in decimal: an optional `+`, then at least
/// one digit, the whole within range.
pub open spec fn decimal_usize(text: Seq<char>) -> Option<usize> {
    let body = if text.len() > 0 && text[0] == '+' {
        text.skip(1)
    } else {
        text
    };
    if body.len() == 0 {
        None
    } else {
        match digits(body) {
            Some(n) => if n <= usize::MAX {
                Some(n as usize)
            } else {
                None
            },
            None => None,
        }
    }
}

/// A prefix of a digit sequence writes a number no greater than the whole,
/// and where the prefix writes nothing, neither does the whole.
pub proof fn lemma_digits_prefix(text: Seq<char>, len: int)
    requires
        0 <= len <= text.len(),
    ensures
        digits(text).is_some() ==> digits(text.take(len)).is_some() && digits(
            text.take(len),
        ).unwrap() <= digits(text).unwrap(),
    decreases text.len(),
{
    if len == text.len() {
        assert(text.take(len) =~= text);
    } else {
        assert(text.drop_last().take(len) =~= text.take(len));
        lemma_digits_prefix(text.drop_last(), len);
    }
}

/// Reads a `usize` written in decimal.
pub fn parse_usize(text: &str) -> (r: Option<usize>)
    ensures
        r == decimal_usize(text@),
{
    let len: usize = text.unicode_len();
    let start: usize = if len > 0 && text.get_char(0) == '+' {
        1
    } else {
        0
    };
    if start == len {
        return None;
    }
    let ghost body = text@.skip(start as int);
    proof {
        assert(body.take(0) =~= Seq::<char>::empty());
        assert(text@.skip(0) =~= text@);
    }
    let mut value: usize = 0;
    let mut at: usize = start;
    while at < len
        invariant
            start <= at <= len,
            len == text@.len(),
            body == text@.skip(start as int),
            body == (if text@.len() > 0 && text@[0] == '+' {
                text@.skip(1)
            } else {
                text@
            }),
            digits(body.take(at - start)) == Some(value as nat),
        decreases len - at,
    {
        let c: char = text.get_char(at);
        proof {
            assert(body.take(at - start + 1).drop_last() =~= body.take(at - start));
            assert(body.take(at - start + 1).last() == c);
            lemma_digits_prefix(body, at - start + 1);
        }
        if c < '0' || c > '9' {
            return None;
        }
        let low: usize = (c as u32 - '0' as u32) as usize;
        if value > (usize::MAX - low) / 10 {
            assert(10 * value + low > usize::MAX);
            return None;
        }
        value = value * 10 + low;
        at += 1;
    }
    proof {
        assert(body.take(len - start) =~= body);
    }
    Some(value)
}

/// What a command line asks for.
#[derive(Debug)]
pub enum Parsed {
    /// Print the help text and leave.
    Help,
    /// Run with these options.
    Run(Args),
}

/// Why a command line was refused. The text says what was found.
#[derive(Debug)]
pub enum ArgsError {
    /// `--threads` has no value, or one that is no number: then the text is
    /// that value.
    Threads(String),
    /// `--source` has no value.
    Source(String),
    /// `--target` has no value.
    Target(String),
    /// `--resources` has no value.
    Resources(String),
    /// Arguments were left over that no option accounts for.
    Unused(Vec<String>),
}

/// The options of a run, as mathematical values.
pub struct ArgsView {
    /// Convert for real.
    pub migrate: bool,
    /// Convert even where the target file exists.
    pub force: bool,
    /// The number of worker threads asked for.
    pub threads: Option<usize>,
    /// Source base directory, where given.
    pub source: Option<Seq<char>>,
    /// Target base directory, where given.
    pub target: Option<Seq<char>>,
    /// Directory of the resource lists, where given.
    pub resources: Option<Seq<char>>,
}

/// What a command line comes to.
pub enum Outcome {
    /// Help was asked for.
    Help,
    /// `--threads` is the last argument or has an unreadable value (`None`),
    /// or its value, given here, is no decimal number in range.
    BadThreads(Option<Seq<char>>),
    /// `--source` is the last argument or has an unreadable value.
    BadSource,
    /// `--target` is the last argument or has an unreadable value.
    BadTarget,
    /// `--resources` is the last argument or has an unreadable value.
    BadResources,
    /// These arguments are left over.
    Unused(Seq<Option<Seq<char>>>),
    /// A run with these options.
    Run(ArgsView),
}

/// The text of an option's value, where the lookup found one.
pub open spec fn found_text(lookup: Lookup) -> Option<Seq<char>> {
    match lookup {
        Lookup::Found(text) => Some(text),
        _ => None,
    }
}

/// The view of a `String` that may be absent.
pub open spec fn text_view(text: Option<String>) -> Option<Seq<char>> {
    match text {
        Some(t) => Some(t@),
        None => None,
    }
}

/// The view of the options of a run.
pub open spec fn args_view(args: Args) -> ArgsView {
    ArgsView {
        migrate: args.migrate,
        force: args.force,
        threads: args.threads,
        source: text_view(args.source),
        target: text_view(args.target),
        resources: text_view(args.resources),
    }
}

/// The number of threads that the value of `--threads` asks for.
pub open spec fn threads_of(lookup: Lookup) -> Option<usize> {
    match lookup {
        Lookup::Found(text) => decimal_usize(text),
        _ => None,
    }
}

/// What the command line `args` comes to. Help wins over everything. Then
/// the four options with a value are taken out, in the order threads, source,
/// target, resources, each with the argument that follows it; then the two
/// flags. Whatever is left after that is an error.
pub open spec fn parse_outcome(args: Seq<Option<Seq<char>>>) -> Outcome {
    let threads = value_of(args, "--threads"@);
    let a1 = after_value(args, "--threads"@);
    let source = value_of(a1, "--source"@);
    let a2 = after_value(a1, "--source"@);
    let target = value_of(a2, "--target"@);
    let a3 = after_value(a2, "--target"@);
    let resources = value_of(a3, "--resources"@);
    let a4 = after_value(a3, "--resources"@);
    let a5 = without_key(a4, "--migrate"@);
    let a6 = without_key(a5, "--force"@);
    if has_key(args, "-h"@) || has_key(args, "--help"@) {
        Outcome::Help
    } else if threads is Broken || (threads is Found && threads_of(threads).is_none()) {
        Outcome::BadThreads(found_text(threads))
    } else if source is Broken {
        Outcome::BadSource
    } else if target is Broken {
        Outcome::BadTarget
    } else if resources is Broken {
        Outcome::BadResources
    } else if a6.len() > 0 {
        Outcome::Unused(a6)
    } else {
        Outcome::Run(
            ArgsView {
                migrate: has_key(a4, "--migrate"@),
                force: has_key(a5, "--force"@),
                threads: threads_of(threads),
                source: found_text(source),
                target: found_text(target),
                resources: found_text(resources),
            },
        )
    }
}

/// Whether `r` is what `outcome` asks for.
pub open spec fn answers(r: Result<Parsed, ArgsError>, outcome: Outcome) -> bool {
    match outcome {
        Outcome::Help => r matches Ok(Parsed::Help),
        Outcome::BadThreads(value) => r matches Err(ArgsError::Threads(detail)) && (
        value matches Some(text) ==> detail@ == text),
        Outcome::BadSource => r matches Err(ArgsError::Source(_)),
        Outcome::BadTarget => r matches Err(ArgsError::Target(_)),
        Outcome::BadResources => r matches Err(ArgsError::Resources(_)),
        Outcome::Unused(rest) => r matches Err(ArgsError::Unused(unused)) && unused@.len()
            == rest.len() && forall|i: int|
            0 <= i < rest.len() && rest[i].is_some() ==> (#[trigger] unused@[i])@
                == rest[i].unwrap(),
        Outcome::Run(view) => r matches Ok(Parsed::Run(args)) && args_view(args) == view,
    }
}

/// Reads the options of a run from the command line that `pargs` holds. The
/// answer is the one that `parse_outcome` gives for its arguments: help, a
/// run with its options, or the first thing that is wrong.
pub fn parse_args(pargs: pico_args::Arguments) -> (r: Result<Parsed, ArgsError>)
    ensures
        answers(r, parse_outcome(left(pargs))),
{
    let mut pargs = pargs;
    proof {
        reveal_strlit("-h");
        reveal_strlit("--help");
        reveal_strlit("--threads");
        reveal_strlit("--source");
        reveal_strlit("--target");
        reveal_strlit("--resources");
        reveal_strlit("--migrate");
        reveal_strlit("--force");
    }
    // Help has a higher priority and is handled separately.
    if take_flag(&mut pargs, "-h") {
        return Ok(Parsed::Help);
    }
    if take_flag(&mut pargs, "--help") {
        return Ok(Parsed::Help);
    }
    let threads: Option<usize> = match take_value(&mut pargs, "--threads") {
        Err(detail) => {
            return Err(ArgsError::Threads(detail));
        },
        Ok(None) => None,
        Ok(Some(text)) => match parse_usize(text.as_str()) {
            Some(n) => Some(n),
            None => {
                return Err(ArgsError::Threads(text));
            },
        },
    };
    let source: Option<String> = match take_value(&mut pargs, "--source") {
        Err(detail) => {
            return Err(ArgsError::Source(detail));
        },
        Ok(value) => value,
    };
    let target: Option<String> = match take_value(&mut pargs, "--target") {
        Err(detail) => {
            return Err(ArgsError::Target(detail));
        },
        Ok(value) => value,
    };
    let resources: Option<String> = match take_value(&mut pargs, "--resources") {
        Err(detail) => {
            return Err(ArgsError::Resources(detail));
        },
        Ok(value) => value,
    };
    let migrate: bool = take_flag(&mut pargs, "--migrate");
    let force: bool = take_flag(&mut pargs, "--force");
    // It is up to the caller what to do with the remaining arguments.
    let remaining: Vec<String> = rest(pargs);
    if remaining.len() > 0 {
        return Err(ArgsError::Unused(remaining));
    }
    Ok(Parsed::Run(Args { migrate, force, threads, source, target, resources }))
}

} // verus!
