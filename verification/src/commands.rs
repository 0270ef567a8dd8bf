//! The command lines that the subcommands run.
//!
//! Each function here says which program is to be run, with which arguments. Running it is
//! left to the caller.

use crate::text::{after, before, decimal, decimal_text, length_before};
use vstd::prelude::*;
use vstd::string::{StrSliceExecFns, StringExecFns};

verus! {

/// The words of a command line, as texts.
pub open spec fn words(v: Seq<String>) -> Seq<Seq<char>> {
    Seq::new(v.len(), |i: int| v[i]@)
}

/// The files or directories that a tool works on: those given, or the current directory where
/// none is given.
pub open spec fn targets(files: Seq<Seq<char>>) -> Seq<Seq<char>> {
    if files.len() == 0 {
        seq!["."@]
    } else {
        files
    }
}

/// The words that start `ruff` with the configuration file `config`.
pub open spec fn ruff_words(config: Seq<char>) -> Seq<Seq<char>> {
    seq!["uv"@, "run"@, "--with"@, "ruff"@, "ruff"@, "--config"@, config]
}

/// The command line that formats the files, or only checks their format.
pub open spec fn format_words(config: Seq<char>, files: Seq<Seq<char>>, check: bool) -> Seq<
    Seq<char>,
> {
    ruff_words(config) + seq!["format"@] + (if check {
        seq!["--check"@]
    } else {
        seq![]
    }) + targets(files)
}

/// The command line that sorts the imports of the files, or only checks their order.
pub open spec fn import_words(config: Seq<char>, files: Seq<Seq<char>>, check: bool) -> Seq<
    Seq<char>,
> {
    ruff_words(config) + seq!["check"@, "--select"@, "I"@] + (if check {
        seq![]
    } else {
        seq!["--fix"@]
    }) + targets(files)
}

/// The command line that lints the files. Unsafe fixes are asked for only together with
/// fixes.
pub open spec fn lint_words(
    config: Seq<char>,
    files: Seq<Seq<char>>,
    fix: bool,
    unsafe_fixes: bool,
) -> Seq<Seq<char>> {
    ruff_words(config) + seq!["check"@] + (if fix {
        seq!["--fix"@]
    } else {
        seq![]
    }) + (if fix && unsafe_fixes {
        seq!["--unsafe-fixes"@]
    } else {
        seq![]
    }) + targets(files)
}

/// The command line that runs the tests: `jobs` is the number of parallel jobs as text, or
/// `auto`.
pub open spec fn test_words(
    config: Seq<char>,
    files: Seq<Seq<char>>,
    jobs: Seq<char>,
    filter: Option<Seq<char>>,
) -> Seq<Seq<char>> {
    seq![
        "uv"@,
        "run"@,
        "--with"@,
        "pytest"@,
        "--with"@,
        "pytest-xdist"@,
        "pytest"@,
        "--config-file"@,
        config,
        "-n"@,
        jobs,
    ] + (match filter {
        Some(f) => seq!["-k"@, f],
        None => seq![],
    }) + targets(files)
}

/// The command line that type-checks the files with the `dmypy` daemon whose status file is
/// `status_file`.
pub open spec fn check_words(
    status_file: Seq<char>,
    config: Seq<char>,
    files: Seq<Seq<char>>,
) -> Seq<Seq<char>> {
    seq![
        "uv"@,
        "run"@,
        "--with"@,
        "mypy"@,
        "dmypy"@,
        "--status-file"@,
        status_file,
        "run"@,
        "--"@,
        "--config-file"@,
        config,
    ] + targets(files)
}

/// The number of parallel jobs as the test runner reads it: the number, or `auto`.
pub open spec fn jobs_word(parallel: Option<i32>) -> Seq<char> {
    match parallel {
        Some(n) => decimal(n as int),
        None => "auto"@,
    }
}

fn push_word(v: &mut Vec<String>, word: &str)
    ensures
        words(final(v)@) == words(old(v)@).push(word@),
{
    v.push(word.to_owned());
    assert(words(v@) =~= words(old(v)@).push(word@));
}

fn push_all(v: &mut Vec<String>, more: &Vec<String>)
    ensures
        words(final(v)@) == words(old(v)@) + words(more@),
{
    let mut i: usize = 0;
    while i < more.len()
        invariant
            i <= more@.len(),
            words(v@) == words(old(v)@) + words(more@).take(i as int),
        decreases more@.len() - i,
    {
        let ghost before = words(v@);
        push_word(v, more[i].as_str());
        assert(words(v@) =~= words(old(v)@) + words(more@).take(i + 1));
        i += 1;
    }
    assert(words(more@).take(i as int) =~= words(more@));
}

fn push_targets(v: &mut Vec<String>, files: &Vec<String>)
    ensures
        words(final(v)@) == words(old(v)@) + targets(words(files@)),
{
    if files.len() == 0 {
        push_word(v, ".");
        assert(words(v@) =~= words(old(v)@) + targets(words(files@)));
    } else {
        push_all(v, files);
    }
}

fn ruff(config: &str) -> (r: Vec<String>)
    ensures
        words(r@) == ruff_words(config@),
{
    let mut v: Vec<String> = Vec::new();
    assert(words(v@) =~= seq![]);
    push_word(&mut v, "uv");
    push_word(&mut v, "run");
    push_word(&mut v, "--with");
    push_word(&mut v, "ruff");
    push_word(&mut v, "ruff");
    push_word(&mut v, "--config");
    push_word(&mut v, config);
    assert(words(v@) =~= ruff_words(config@));
    v
}

/// The two command lines of the `fmt` subcommand, in the order in which they are run: the
/// one that formats the files, then the one that sorts their imports. With `check` neither
/// changes a file.
pub fn fmt(config: &str, files: Vec<String>, check: bool) -> (r: (Vec<String>, Vec<String>))
    ensures
        words(r.0@) == format_words(config@, words(files@), check),
        words(r.1@) == import_words(config@, words(files@), check),
{
    let mut format = ruff(config);
    push_word(&mut format, "format");
    if check {
        push_word(&mut format, "--check");
    }
    push_targets(&mut format, &files);
    assert(words(format@) =~= format_words(config@, words(files@), check));
    let mut imports = ruff(config);
    push_word(&mut imports, "check");
    push_word(&mut imports, "--select");
    push_word(&mut imports, "I");
    if !check {
        push_word(&mut imports, "--fix");
    }
    push_targets(&mut imports, &files);
    assert(words(imports@) =~= import_words(config@, words(files@), check));
    (format, imports)
}

/// The command line of the `lint` subcommand.
pub fn lint(config: &str, files: Vec<String>, fix: bool, unsafe_fixes: bool) -> (r: Vec<String>)
    ensures
        words(r@) == lint_words(config@, words(files@), fix, unsafe_fixes),
{
    let mut command = ruff(config);
    push_word(&mut command, "check");
    if fix {
        push_word(&mut command, "--fix");
        if unsafe_fixes {
            push_word(&mut command, "--unsafe-fixes");
        }
    }
    push_targets(&mut command, &files);
    assert(words(command@) =~= lint_words(config@, words(files@), fix, unsafe_fixes));
    command
}

/// The command line of the `test` subcommand. Whether a run without tests is an error is not
/// part of the command line.
pub fn test(
    config: &str,
    files: Vec<String>,
    _allow_no_tests: bool,
    parallel: Option<i32>,
    filter: Option<String>,
) -> (r: Vec<String>)
    ensures
        words(r@) == test_words(
            config@,
            words(files@),
            jobs_word(parallel),
            match filter {
                Some(f) => Some(f@),
                None => None,
            },
        ),
{
    let jobs = match parallel {
        Some(n) => decimal_text(n),
        None => "auto".to_owned(),
    };
    let mut command: Vec<String> = Vec::new();
    assert(words(command@) =~= seq![]);
    push_word(&mut command, "uv");
    push_word(&mut command, "run");
    push_word(&mut command, "--with");
    push_word(&mut command, "pytest");
    push_word(&mut command, "--with");
    push_word(&mut command, "pytest-xdist");
    push_word(&mut command, "pytest");
    push_word(&mut command, "--config-file");
    push_word(&mut command, config);
    push_word(&mut command, "-n");
    push_word(&mut command, jobs.as_str());
    match &filter {
        Some(f) => {
            push_word(&mut command, "-k");
            push_word(&mut command, f.as_str());
        },
        None => {},
    }
    push_targets(&mut command, &files);
    assert(words(command@) =~= test_words(
        config@,
        words(files@),
        jobs@,
        match filter {
            Some(f) => Some(f@),
            None => None,
        },
    ));
    command
}

/// The command line of the `check` subcommand.
pub fn check(status_file: &str, config: &str, files: Vec<String>) -> (r: Vec<String>)
    ensures
        words(r@) == check_words(status_file@, config@, words(files@)),
{
    let mut command: Vec<String> = Vec::new();
    assert(words(command@) =~= seq![]);
    push_word(&mut command, "uv");
    push_word(&mut command, "run");
    push_word(&mut command, "--with");
    push_word(&mut command, "mypy");
    push_word(&mut command, "dmypy");
    push_word(&mut command, "--status-file");
    push_word(&mut command, status_file);
    push_word(&mut command, "run");
    push_word(&mut command, "--");
    push_word(&mut command, "--config-file");
    push_word(&mut command, config);
    push_targets(&mut command, &files);
    assert(words(command@) =~= check_words(status_file@, config@, words(files@)));
    command
}

/// The command line of the `add` subcommand: `uv add` with the arguments as they are.
/// Finding the packages by itself is not supported.
pub fn add(args: Vec<String>, auto: bool) -> (r: Vec<String>)
    requires
        !auto,
    ensures
        words(r@) == seq!["uv"@, "add"@] + words(args@),
{
    let mut command: Vec<String> = Vec::new();
    assert(words(command@) =~= seq![]);
    push_word(&mut command, "uv");
    push_word(&mut command, "add");
    push_all(&mut command, &args);
    command
}

/// Whether an argument of `run` is an option: it begins with a hyphen.
pub open spec fn is_option(arg: Seq<char>) -> bool {
    arg.len() > 0 && arg[0] == '-'
}

/// Whether the target of `run` stands at `t`: it is the first argument that is no option.
pub open spec fn is_target_at(args: Seq<Seq<char>>, t: int) -> bool {
    &&& 0 <= t < args.len()
    &&& !is_option(args[t])
    &&& forall|j: int| 0 <= j < t ==> is_option(#[trigger] args[j])
}

/// The Python code that calls the function `func` of the module `module` as a command-line
/// program.
pub open spec fn call_code(module: Seq<char>, func: Seq<char>) -> Seq<char> {
    "import sys, cyclopts, "@ + module + "; app = cyclopts.App(name='"@ + module + ":"@ + func
        + "', version_flags=[]); app.default("@ + module + "."@ + func + "); app();"@
}

/// The command line that runs `target`.
///
/// A target `@pkg` runs the program `pkg` of the package `pkg`, after the options in
/// `uv_args`. A target `module:func` calls that function through `cyclopts`; the options are
/// left out. For any other target the command line is `uv run` with the arguments of the
/// target alone: neither the options nor the target stand in it. The arguments of the
/// target come last in each case.
pub open spec fn run_words(
    uv_args: Seq<Seq<char>>,
    target: Seq<char>,
    target_args: Seq<Seq<char>>,
) -> Seq<Seq<char>> {
    if target.len() > 0 && target[0] == '@' {
        seq!["uv"@, "run"@, "--with"@, target.skip(1)] + uv_args + seq![target.skip(1)]
            + target_args
    } else if target.contains(':') {
        seq![
            "uv"@,
            "run"@,
            "--with"@,
            "cyclopts>=3.0.0,<4.0.0"@,
            "python"@,
            "-c"@,
            call_code(before(target, ':'), before(after(target, ':'), ':')),
        ] + target_args
    } else {
        seq!["uv"@, "run"@] + target_args
    }
}

fn push_range(v: &mut Vec<String>, more: &Vec<String>, from: usize, to: usize)
    requires
        from <= to <= more@.len(),
    ensures
        words(final(v)@) == words(old(v)@) + words(more@).subrange(from as int, to as int),
{
    let mut i: usize = from;
    assert(words(more@).subrange(from as int, from as int) =~= seq![]);
    while i < to
        invariant
            from <= i <= to <= more@.len(),
            words(v@) == words(old(v)@) + words(more@).subrange(from as int, i as int),
        decreases to - i,
    {
        push_word(v, more[i].as_str());
        assert(words(v@) =~= words(old(v)@) + words(more@).subrange(from as int, i + 1));
        i += 1;
    }
}

fn is_option_word(arg: &str) -> (r: bool)
    ensures
        r == is_option(arg@),
{
    arg.unicode_len() > 0 && arg.get_char(0) == '-'
}

fn call_code_text(module: &str, func: &str) -> (r: String)
    ensures
        r@ == call_code(module@, func@),
{
    "import sys, cyclopts, ".to_owned().concat(module).concat("; app = cyclopts.App(name='").concat(
        module,
    ).concat(":").concat(func).concat("', version_flags=[]); app.default(").concat(module).concat(
        ".",
    ).concat(func).concat("); app();")
}

/// Whether one of the arguments of `run` is the target.
pub open spec fn has_target(args: Seq<Seq<char>>) -> bool {
    exists|t: int| is_target_at(args, t)
}

/// Where the target stands among the arguments of `run`.
pub open spec fn target_index(args: Seq<Seq<char>>) -> int {
    choose|t: int| is_target_at(args, t)
}

/// The command line of `run` for the arguments `args`, or nothing where none of them is the
/// target.
///
/// The options before the target are meant for `uv`; what follows the target are the
/// arguments of the target.
pub open spec fn run_plan(args: Seq<Seq<char>>) -> Option<Seq<Seq<char>>> {
    if has_target(args) {
        let t = target_index(args);
        Some(run_words(args.take(t), args[t], args.skip(t + 1)))
    } else {
        None
    }
}

/// The words of a command line that may be missing.
pub open spec fn optional_words(command: Option<Vec<String>>) -> Option<Seq<Seq<char>>> {
    match command {
        Some(c) => Some(words(c@)),
        None => None,
    }
}

/// The target is the first argument that is no option, so there is one place for it.
pub proof fn lemma_one_target(args: Seq<Seq<char>>, t: int)
    requires
        is_target_at(args, t),
    ensures
        has_target(args),
        target_index(args) == t,
{
    let u = target_index(args);
    assert(is_target_at(args, u));
    if u < t {
        assert(is_option(args[u]));
    }
    if t < u {
        assert(is_option(args[t]));
    }
}

/// The command line of the `run` subcommand, or nothing where no target is given.
pub fn run(args: Vec<String>) -> (r: Option<Vec<String>>)
    ensures
        optional_words(r) == run_plan(words(args@)),
{
    let mut t: usize = 0;
    let mut found = false;
    while t < args.len() && !found
        invariant
            t <= args@.len(),
            forall|j: int| 0 <= j < t ==> is_option(#[trigger] words(args@)[j]),
            found ==> t < args@.len() && !is_option(words(args@)[t as int]),
        decreases args@.len() - t + (if found { 0int } else { 1int }),
    {
        if is_option_word(args[t].as_str()) {
            t += 1;
        } else {
            found = true;
        }
    }
    if !found {
        assert forall|u: int| !is_target_at(words(args@), u) by {
            if 0 <= u < args@.len() {
                assert(is_option(words(args@)[u]));
            }
        }
        return None;
    }
    proof {
        lemma_one_target(words(args@), t as int);
    }
    let ghost uv_args = words(args@).take(t as int);
    let ghost target_args = words(args@).skip(t + 1);
    assert(words(args@).subrange(0, t as int) =~= uv_args);
    assert(words(args@).subrange(t + 1, args@.len() as int) =~= target_args);
    let target = args[t].as_str();
    let mut command: Vec<String> = Vec::new();
    assert(words(command@) =~= seq![]);
    push_word(&mut command, "uv");
    push_word(&mut command, "run");
    let (colon, len) = length_before(target, ':');
    if len > 0 && target.get_char(0) == '@' {
        let package = target.substring_char(1, len);
        assert(package@ =~= target@.skip(1));
        push_word(&mut command, "--with");
        push_word(&mut command, package);
        push_range(&mut command, &args, 0, t);
        push_word(&mut command, package);
    } else if colon < len {
        let module = target.substring_char(0, colon);
        let rest = target.substring_char(colon + 1, len);
        assert(module@ =~= before(target@, ':'));
        assert(rest@ =~= after(target@, ':'));
        assert(target@.contains(':'));
        let (end, _) = length_before(rest, ':');
        let func = rest.substring_char(0, end);
        assert(func@ =~= before(rest@, ':'));
        let code = call_code_text(module, func);
        push_word(&mut command, "--with");
        push_word(&mut command, "cyclopts>=3.0.0,<4.0.0");
        push_word(&mut command, "python");
        push_word(&mut command, "-c");
        push_word(&mut command, code.as_str());
    }
    push_range(&mut command, &args, t + 1, args.len());
    assert(words(command@) =~= run_words(uv_args, target@, target_args));
    Some(command)
}

} // verus!
