//! The arguments the tool passes to Perry, how it shows a command line, and
//! how it judges a finished command.
use crate::error::{error_view, CliError, ErrorKind};
use crate::platform::ResolvedTarget;
use crate::string_set::string_views;
use crate::text::{
    append_chars, append_str, chars_of, is_whitespace, opt_view, push_char, string_from,
    string_of, trim_class, trim_class_exec, whitespace, CharClass,
};
use vstd::prelude::*;

verus! {

pub open spec fn target_args(target: Option<Seq<char>>) -> Seq<Seq<char>> {
    match target {
        Some(t) => seq!["--target"@, t],
        None => Seq::empty(),
    }
}

pub open spec fn verbose_args(verbose: bool) -> Seq<Seq<char>> {
    if verbose {
        seq!["-v"@]
    } else {
        Seq::empty()
    }
}

fn push_str(args: &mut Vec<String>, s: &str)
    ensures
        string_views(final(args)@) == string_views(old(args)@).push(s@),
{
    let ghost before = args@;
    let v = string_from(s);
    args.push(v);
    assert(string_views(args@) =~= string_views(before).push(s@));
}

/// The arguments of `perry compile`.
pub fn perry_compile_args(entry: &str, output: &str, target: &ResolvedTarget, verbose: bool) -> (r: Vec<
    String,
>)
    ensures
        string_views(r@) == seq!["compile"@, entry@, "--output"@, output@] + target_args(
            opt_view(target.perry_target),
        ) + verbose_args(verbose),
{
    let mut args: Vec<String> = Vec::new();
    push_str(&mut args, "compile");
    push_str(&mut args, entry);
    push_str(&mut args, "--output");
    push_str(&mut args, output);
    let ghost base = string_views(args@);
    match &target.perry_target {
        Some(t) => {
            push_str(&mut args, "--target");
            push_str(&mut args, t.as_str());
        },
        None => {},
    }
    let ghost with_target = string_views(args@);
    assert(with_target =~= base + target_args(opt_view(target.perry_target)));
    if verbose {
        push_str(&mut args, "-v");
    }
    assert(string_views(args@) =~= with_target + verbose_args(verbose));
    args
}

/// The arguments of `perry check`.
pub fn perry_check_args(entry: &str, target: Option<&str>, verbose: bool) -> (r: Vec<String>)
    ensures
        string_views(r@) == seq!["check"@, entry@] + target_args(
            crate::engine::opt_str_view(target),
        ) + verbose_args(verbose),
{
    let mut args: Vec<String> = Vec::new();
    push_str(&mut args, "check");
    push_str(&mut args, entry);
    let ghost base = string_views(args@);
    match target {
        Some(t) => {
            push_str(&mut args, "--target");
            push_str(&mut args, t);
        },
        None => {},
    }
    let ghost with_target = string_views(args@);
    assert(with_target =~= base + target_args(crate::engine::opt_str_view(target)));
    if verbose {
        push_str(&mut args, "-v");
    }
    assert(string_views(args@) =~= with_target + verbose_args(verbose));
    args
}

/// The arguments of `perry dev`.
pub fn perry_dev_args(entry: &str, output: &str, verbose: bool) -> (r: Vec<String>)
    ensures
        string_views(r@) == seq!["dev"@, entry@, "--output"@, output@] + verbose_args(verbose),
{
    let mut args: Vec<String> = Vec::new();
    push_str(&mut args, "dev");
    push_str(&mut args, entry);
    push_str(&mut args, "--output");
    push_str(&mut args, output);
    let ghost base = string_views(args@);
    if verbose {
        push_str(&mut args, "-v");
    }
    assert(string_views(args@) =~= base + verbose_args(verbose));
    args
}

// ---------------------------------------------------------------------------
// Showing a command line
// ---------------------------------------------------------------------------

/// `a` with every `"` preceded by a backslash.
pub open spec fn escape_quotes(a: Seq<char>) -> Seq<char>
    decreases a.len(),
{
    if a.len() == 0 {
        Seq::empty()
    } else if a.last() == '"' {
        escape_quotes(a.drop_last()) + seq!['\\', '"']
    } else {
        escape_quotes(a.drop_last()).push(a.last())
    }
}

pub open spec fn has_whitespace(a: Seq<char>) -> bool {
    exists|i: int| 0 <= i < a.len() && is_whitespace(#[trigger] a[i])
}

/// An argument as shown: in double quotes, with its quotes escaped, when it
/// holds white space.
pub open spec fn shown_arg(a: Seq<char>) -> Seq<char> {
    if has_whitespace(a) {
        seq!['"'] + escape_quotes(a) + seq!['"']
    } else {
        a
    }
}

/// The words separated by single spaces.
pub open spec fn spaced(words: Seq<Seq<char>>) -> Seq<char>
    decreases words.len(),
{
    if words.len() == 0 {
        Seq::empty()
    } else if words.len() == 1 {
        words[0]
    } else {
        spaced(words.drop_last()) + seq![' '] + words.last()
    }
}

pub open spec fn shown_command(program: Seq<char>, args: Seq<Seq<char>>) -> Seq<char> {
    spaced(seq![program].add(args).map_values(|a: Seq<char>| shown_arg(a)))
}

fn show_arg(a: &[char]) -> (r: Vec<char>)
    ensures
        r@ == shown_arg(a@),
{
    let mut found = false;
    let mut i: usize = 0;
    while i < a.len()
        invariant
            i <= a.len(),
            found == exists|j: int| 0 <= j < i && is_whitespace(#[trigger] a@[j]),
        decreases a.len() - i,
    {
        if whitespace(a[i]) {
            found = true;
        }
        i = i + 1;
    }
    if !found {
        let mut copy: Vec<char> = Vec::new();
        let mut k: usize = 0;
        while k < a.len()
            invariant
                k <= a.len(),
                copy@ == a@.take(k as int),
            decreases a.len() - k,
        {
            copy.push(a[k]);
            k = k + 1;
            assert(copy@ =~= a@.take(k as int));
        }
        assert(a@.take(a.len() as int) =~= a@);
        return copy;
    }
    let mut out: Vec<char> = Vec::new();
    out.push('"');
    let mut k: usize = 0;
    while k < a.len()
        invariant
            k <= a.len(),
            out@ == seq!['"'] + escape_quotes(a@.take(k as int)),
        decreases a.len() - k,
    {
        assert(a@.take(k + 1).drop_last() =~= a@.take(k as int));
        if a[k] == '"' {
            out.push('\\');
            out.push('"');
        } else {
            out.push(a[k]);
        }
        k = k + 1;
        assert(out@ =~= seq!['"'] + escape_quotes(a@.take(k as int)));
    }
    assert(a@.take(a.len() as int) =~= a@);
    out.push('"');
    out
}

/// A command line as shown in verbose output.
pub fn display_command(program: &str, args: &Vec<String>) -> (r: String)
    ensures
        r@ == shown_command(program@, string_views(args@)),
{
    let ghost words = seq![program@].add(string_views(args@)).map_values(
        |a: Seq<char>| shown_arg(a),
    );
    let mut out = String::new();
    let first = show_arg(chars_of(program).as_slice());
    append_chars(&mut out, first.as_slice());
    assert(words.take(1) =~= seq![shown_arg(program@)]);
    let mut i: usize = 0;
    while i < args.len()
        invariant
            i <= args.len(),
            words == seq![program@].add(string_views(args@)).map_values(
                |a: Seq<char>| shown_arg(a),
            ),
            out@ == spaced(words.take(i + 1)),
        decreases args.len() - i,
    {
        let shown = show_arg(chars_of(args[i].as_str()).as_slice());
        assert(words[i + 1] == shown_arg(args@[i as int]@));
        push_char(&mut out, ' ');
        append_chars(&mut out, shown.as_slice());
        assert(words.take(i + 2).drop_last() =~= words.take(i + 1));
        i = i + 1;
    }
    assert(words.take(args.len() + 1) =~= words);
    out
}

// ---------------------------------------------------------------------------
// Judging a finished command
// ---------------------------------------------------------------------------

/// What a failed command reports: its trimmed error output, else its trimmed
/// standard output.
pub open spec fn failure_details(stdout: Seq<char>, stderr: Seq<char>) -> Seq<char> {
    let e = trim_class(stderr, CharClass::Whitespace);
    if e.len() == 0 {
        trim_class(stdout, CharClass::Whitespace)
    } else {
        e
    }
}

/// Fails unless a command succeeded, with its output or its exit status.
pub fn ensure_success(program: &str, succeeded: bool, stdout: &str, stderr: &str, status: &str) -> (r:
    Result<(), CliError>)
    ensures
        r is Ok <==> succeeded,
        r matches Err(e) ==> (if failure_details(stdout@, stderr@).len() == 0 {
            e@ == error_view(ErrorKind::CommandExitStatus, program@, status@)
        } else {
            e@ == error_view(ErrorKind::CommandFailed, program@, failure_details(stdout@, stderr@))
        }),
{
    if succeeded {
        return Ok(());
    }
    let err = trim_class_exec(chars_of(stderr).as_slice(), CharClass::Whitespace);
    let out = trim_class_exec(chars_of(stdout).as_slice(), CharClass::Whitespace);
    let details = if err.len() == 0 {
        out
    } else {
        err
    };
    if details.len() == 0 {
        return Err(CliError::with_detail(ErrorKind::CommandExitStatus, program, status));
    }
    let text = string_of(details.as_slice());
    Err(CliError::with_detail(ErrorKind::CommandFailed, program, text.as_str()))
}

} // verus!
