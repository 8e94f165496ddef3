//! Laws of the command line: an option's value may be written inline or as
//! the next argument, with the same outcome.
use vstd::prelude::*;
use crate::cli::{
    default_options, orientation_step, page_size_step, parse_from, parse_spec, step, step_flags, step_info, step_lab,
    step_output, CliOutcome, OptionsView, Step,
};
use crate::text::{has_prefix, trim_start_matches};

verus! {

/// The options that take a value, written `--name=value` or `--name value`.
pub enum ValueOption {
    Output,
    FormatAssist,
    CompletePosition,
    PdfPageSize,
    PdfOrientation,
}

/// The option's name as a separate argument.
pub open spec fn option_name(opt: ValueOption) -> Seq<char> {
    match opt {
        ValueOption::Output => "--output"@,
        ValueOption::FormatAssist => "--format-assist"@,
        ValueOption::CompletePosition => "--complete-position"@,
        ValueOption::PdfPageSize => "--pdf-page-size"@,
        ValueOption::PdfOrientation => "--pdf-orientation"@,
    }
}

/// The option's name with "=", before an inline value.
pub open spec fn inline_prefix(opt: ValueOption) -> Seq<char> {
    option_name(opt) + "="@
}

/// An argument that makes the parser read the next argument as its value.
pub open spec fn takes_next(a: Seq<char>) -> bool {
    a == "--output"@ || a == "-o"@ || a == "--format-assist"@ || a == "--complete-position"@
        || a == "--pdf-page-size"@ || a == "--pdf-orientation"@
}

/// Reading the arguments of `p` from index `i` on leaves an option waiting
/// for its value: the last argument read as an option takes the next one,
/// and there is none.
pub open spec fn awaiting_value(p: Seq<Seq<char>>, i: int) -> bool
    decreases p.len() - i,
{
    if i < 0 || i >= p.len() {
        false
    } else if takes_next(p[i]) {
        if i + 1 >= p.len() { true } else { awaiting_value(p, i + 2) }
    } else {
        awaiting_value(p, i + 1)
    }
}

/// What reading the value `v` of `opt` does to the options `o`, the value
/// having taken `consumed` arguments.
pub open spec fn value_step(o: OptionsView, opt: ValueOption, v: Seq<char>, consumed: nat) -> Step {
    match opt {
        ValueOption::Output => Step::Next(OptionsView { output: Some(v), ..o }, consumed),
        ValueOption::FormatAssist => Step::Next(OptionsView { format_assist: Some(v), ..o }, consumed),
        ValueOption::CompletePosition => Step::Next(OptionsView { complete_position: Some(v), ..o }, consumed),
        ValueOption::PdfPageSize => page_size_step(o, v, consumed),
        ValueOption::PdfOrientation => orientation_step(o, v, consumed),
    }
}

proof fn lemma_trim_once(p: Seq<char>, v: Seq<char>)
    requires
        p.len() > 0,
        !has_prefix(v, p),
    ensures
        trim_start_matches(p + v, p) == v,
{
    assert((p + v).take(p.len() as int) =~= p);
    assert((p + v).skip(p.len() as int) =~= v);
    assert(has_prefix(p + v, p));
    assert(trim_start_matches(v, p) == v);
}

/// The characters of the arguments the parser recognises.
pub(crate) proof fn lemma_option_texts()
    ensures
        "--help"@ == seq!['-', '-', 'h', 'e', 'l', 'p'],
        "-h"@ == seq!['-', 'h'],
        "--version"@ == seq!['-', '-', 'v', 'e', 'r', 's', 'i', 'o', 'n'],
        "--check"@ == seq!['-', '-', 'c', 'h', 'e', 'c', 'k'],
        "--format-assist"@ == seq!['-', '-', 'f', 'o', 'r', 'm', 'a', 't', '-', 'a', 's', 's', 'i', 's', 't'],
        "--format-assist="@ == seq!['-', '-', 'f', 'o', 'r', 'm', 'a', 't', '-', 'a', 's', 's', 'i', 's', 't', '='],
        "--complete-position"@ == seq!['-', '-', 'c', 'o', 'm', 'p', 'l', 'e', 't', 'e', '-', 'p', 'o', 's', 'i', 't', 'i', 'o', 'n'],
        "--complete-position="@ == seq!['-', '-', 'c', 'o', 'm', 'p', 'l', 'e', 't', 'e', '-', 'p', 'o', 's', 'i', 't', 'i', 'o', 'n', '='],
        "--fullscreen"@ == seq!['-', '-', 'f', 'u', 'l', 'l', 's', 'c', 'r', 'e', 'e', 'n'],
        "-f"@ == seq!['-', 'f'],
        "--maximized"@ == seq!['-', '-', 'm', 'a', 'x', 'i', 'm', 'i', 'z', 'e', 'd'],
        "-m"@ == seq!['-', 'm'],
        "--edit"@ == seq!['-', '-', 'e', 'd', 'i', 't'],
        "--rehearse"@ == seq!['-', '-', 'r', 'e', 'h', 'e', 'a', 'r', 's', 'e'],
        "-r"@ == seq!['-', 'r'],
        "--speakermode"@ == seq!['-', '-', 's', 'p', 'e', 'a', 'k', 'e', 'r', 'm', 'o', 'd', 'e'],
        "-s"@ == seq!['-', 's'],
        "--ignore-comments"@ == seq!['-', '-', 'i', 'g', 'n', 'o', 'r', 'e', '-', 'c', 'o', 'm', 'm', 'e', 'n', 't', 's'],
        "-i"@ == seq!['-', 'i'],
        "--allow-external-assets"@ == seq!['-', '-', 'a', 'l', 'l', 'o', 'w', '-', 'e', 'x', 't', 'e', 'r', 'n', 'a', 'l', '-', 'a', 's', 's', 'e', 't', 's'],
        "--output"@ == seq!['-', '-', 'o', 'u', 't', 'p', 'u', 't'],
        "-o"@ == seq!['-', 'o'],
        "--camera"@ == seq!['-', '-', 'c', 'a', 'm', 'e', 'r', 'a'],
        "-c"@ == seq!['-', 'c'],
        "--validate-stage"@ == seq!['-', '-', 'v', 'a', 'l', 'i', 'd', 'a', 't', 'e', '-', 's', 't', 'a', 'g', 'e'],
        "--validate-pixels"@ == seq!['-', '-', 'v', 'a', 'l', 'i', 'd', 'a', 't', 'e', '-', 'p', 'i', 'x', 'e', 'l', 's'],
        "--validate-transitions"@ == seq!['-', '-', 'v', 'a', 'l', 'i', 'd', 'a', 't', 'e', '-', 't', 'r', 'a', 'n', 's', 'i', 't', 'i', 'o', 'n', 's'],
        "--validate-lifecycle"@ == seq!['-', '-', 'v', 'a', 'l', 'i', 'd', 'a', 't', 'e', '-', 'l', 'i', 'f', 'e', 'c', 'y', 'c', 'l', 'e'],
        "--validate-lifecycle-stress"@ == seq!['-', '-', 'v', 'a', 'l', 'i', 'd', 'a', 't', 'e', '-', 'l', 'i', 'f', 'e', 'c', 'y', 'c', 'l', 'e', '-', 's', 't', 'r', 'e', 's', 's'],
        "--validate-editor"@ == seq!['-', '-', 'v', 'a', 'l', 'i', 'd', 'a', 't', 'e', '-', 'e', 'd', 'i', 't', 'o', 'r'],
        "--validate-speaker"@ == seq!['-', '-', 'v', 'a', 'l', 'i', 'd', 'a', 't', 'e', '-', 's', 'p', 'e', 'a', 'k', 'e', 'r'],
        "--validate-normal-controls"@ == seq!['-', '-', 'v', 'a', 'l', 'i', 'd', 'a', 't', 'e', '-', 'n', 'o', 'r', 'm', 'a', 'l', '-', 'c', 'o', 'n', 't', 'r', 'o', 'l', 's'],
        "--validate-rehearsal"@ == seq!['-', '-', 'v', 'a', 'l', 'i', 'd', 'a', 't', 'e', '-', 'r', 'e', 'h', 'e', 'a', 'r', 's', 'a', 'l'],
        "--validate-media"@ == seq!['-', '-', 'v', 'a', 'l', 'i', 'd', 'a', 't', 'e', '-', 'm', 'e', 'd', 'i', 'a'],
        "--validate-setup"@ == seq!['-', '-', 'v', 'a', 'l', 'i', 'd', 'a', 't', 'e', '-', 's', 'e', 't', 'u', 'p'],
        "--validate-application-shell"@ == seq!['-', '-', 'v', 'a', 'l', 'i', 'd', 'a', 't', 'e', '-', 'a', 'p', 'p', 'l', 'i', 'c', 'a', 't', 'i', 'o', 'n', '-', 's', 'h', 'e', 'l', 'l'],
        "--capture-backward"@ == seq!['-', '-', 'c', 'a', 'p', 't', 'u', 'r', 'e', '-', 'b', 'a', 'c', 'k', 'w', 'a', 'r', 'd'],
        "--pdf-no-speaker-notes"@ == seq!['-', '-', 'p', 'd', 'f', '-', 'n', 'o', '-', 's', 'p', 'e', 'a', 'k', 'e', 'r', '-', 'n', 'o', 't', 'e', 's'],
        "--pdf-page-size"@ == seq!['-', '-', 'p', 'd', 'f', '-', 'p', 'a', 'g', 'e', '-', 's', 'i', 'z', 'e'],
        "--pdf-orientation"@ == seq!['-', '-', 'p', 'd', 'f', '-', 'o', 'r', 'i', 'e', 'n', 't', 'a', 't', 'i', 'o', 'n'],
        "--output="@ == seq!['-', '-', 'o', 'u', 't', 'p', 'u', 't', '='],
        "--camera="@ == seq!['-', '-', 'c', 'a', 'm', 'e', 'r', 'a', '='],
        "--capture-page-curl="@ == seq!['-', '-', 'c', 'a', 'p', 't', 'u', 'r', 'e', '-', 'p', 'a', 'g', 'e', '-', 'c', 'u', 'r', 'l', '='],
        "--capture-real-slide="@ == seq!['-', '-', 'c', 'a', 'p', 't', 'u', 'r', 'e', '-', 'r', 'e', 'a', 'l', '-', 's', 'l', 'i', 'd', 'e', '='],
        "--capture-slide="@ == seq!['-', '-', 'c', 'a', 'p', 't', 'u', 'r', 'e', '-', 's', 'l', 'i', 'd', 'e', '='],
        "--capture-size="@ == seq!['-', '-', 'c', 'a', 'p', 't', 'u', 'r', 'e', '-', 's', 'i', 'z', 'e', '='],
        "--pdf-page-size="@ == seq!['-', '-', 'p', 'd', 'f', '-', 'p', 'a', 'g', 'e', '-', 's', 'i', 'z', 'e', '='],
        "--pdf-orientation="@ == seq!['-', '-', 'p', 'd', 'f', '-', 'o', 'r', 'i', 'e', 'n', 't', 'a', 't', 'i', 'o', 'n', '='],
        "="@ == seq!['='],
{
    reveal_strlit("--help");
    assert("--help"@ =~= seq!['-', '-', 'h', 'e', 'l', 'p']);
    reveal_strlit("-h");
    assert("-h"@ =~= seq!['-', 'h']);
    reveal_strlit("--version");
    assert("--version"@ =~= seq!['-', '-', 'v', 'e', 'r', 's', 'i', 'o', 'n']);
    reveal_strlit("--check");
    assert("--check"@ =~= seq!['-', '-', 'c', 'h', 'e', 'c', 'k']);
    reveal_strlit("--format-assist");
    assert("--format-assist"@ =~= seq!['-', '-', 'f', 'o', 'r', 'm', 'a', 't', '-', 'a', 's', 's', 'i', 's', 't']);
    reveal_strlit("--format-assist=");
    assert("--format-assist="@ =~= seq!['-', '-', 'f', 'o', 'r', 'm', 'a', 't', '-', 'a', 's', 's', 'i', 's', 't', '=']);
    reveal_strlit("--complete-position");
    assert("--complete-position"@ =~= seq!['-', '-', 'c', 'o', 'm', 'p', 'l', 'e', 't', 'e', '-', 'p', 'o', 's', 'i', 't', 'i', 'o', 'n']);
    reveal_strlit("--complete-position=");
    assert("--complete-position="@ =~= seq!['-', '-', 'c', 'o', 'm', 'p', 'l', 'e', 't', 'e', '-', 'p', 'o', 's', 'i', 't', 'i', 'o', 'n', '=']);
    reveal_strlit("--fullscreen");
    assert("--fullscreen"@ =~= seq!['-', '-', 'f', 'u', 'l', 'l', 's', 'c', 'r', 'e', 'e', 'n']);
    reveal_strlit("-f");
    assert("-f"@ =~= seq!['-', 'f']);
    reveal_strlit("--maximized");
    assert("--maximized"@ =~= seq!['-', '-', 'm', 'a', 'x', 'i', 'm', 'i', 'z', 'e', 'd']);
    reveal_strlit("-m");
    assert("-m"@ =~= seq!['-', 'm']);
    reveal_strlit("--edit");
    assert("--edit"@ =~= seq!['-', '-', 'e', 'd', 'i', 't']);
    reveal_strlit("--rehearse");
    assert("--rehearse"@ =~= seq!['-', '-', 'r', 'e', 'h', 'e', 'a', 'r', 's', 'e']);
    reveal_strlit("-r");
    assert("-r"@ =~= seq!['-', 'r']);
    reveal_strlit("--speakermode");
    assert("--speakermode"@ =~= seq!['-', '-', 's', 'p', 'e', 'a', 'k', 'e', 'r', 'm', 'o', 'd', 'e']);
    reveal_strlit("-s");
    assert("-s"@ =~= seq!['-', 's']);
    reveal_strlit("--ignore-comments");
    assert("--ignore-comments"@ =~= seq!['-', '-', 'i', 'g', 'n', 'o', 'r', 'e', '-', 'c', 'o', 'm', 'm', 'e', 'n', 't', 's']);
    reveal_strlit("-i");
    assert("-i"@ =~= seq!['-', 'i']);
    reveal_strlit("--allow-external-assets");
    assert("--allow-external-assets"@ =~= seq!['-', '-', 'a', 'l', 'l', 'o', 'w', '-', 'e', 'x', 't', 'e', 'r', 'n', 'a', 'l', '-', 'a', 's', 's', 'e', 't', 's']);
    reveal_strlit("--output");
    assert("--output"@ =~= seq!['-', '-', 'o', 'u', 't', 'p', 'u', 't']);
    reveal_strlit("-o");
    assert("-o"@ =~= seq!['-', 'o']);
    reveal_strlit("--camera");
    assert("--camera"@ =~= seq!['-', '-', 'c', 'a', 'm', 'e', 'r', 'a']);
    reveal_strlit("-c");
    assert("-c"@ =~= seq!['-', 'c']);
    reveal_strlit("--validate-stage");
    assert("--validate-stage"@ =~= seq!['-', '-', 'v', 'a', 'l', 'i', 'd', 'a', 't', 'e', '-', 's', 't', 'a', 'g', 'e']);
    reveal_strlit("--validate-pixels");
    assert("--validate-pixels"@ =~= seq!['-', '-', 'v', 'a', 'l', 'i', 'd', 'a', 't', 'e', '-', 'p', 'i', 'x', 'e', 'l', 's']);
    reveal_strlit("--validate-transitions");
    assert("--validate-transitions"@ =~= seq!['-', '-', 'v', 'a', 'l', 'i', 'd', 'a', 't', 'e', '-', 't', 'r', 'a', 'n', 's', 'i', 't', 'i', 'o', 'n', 's']);
    reveal_strlit("--validate-lifecycle");
    assert("--validate-lifecycle"@ =~= seq!['-', '-', 'v', 'a', 'l', 'i', 'd', 'a', 't', 'e', '-', 'l', 'i', 'f', 'e', 'c', 'y', 'c', 'l', 'e']);
    reveal_strlit("--validate-lifecycle-stress");
    assert("--validate-lifecycle-stress"@ =~= seq!['-', '-', 'v', 'a', 'l', 'i', 'd', 'a', 't', 'e', '-', 'l', 'i', 'f', 'e', 'c', 'y', 'c', 'l', 'e', '-', 's', 't', 'r', 'e', 's', 's']);
    reveal_strlit("--validate-editor");
    assert("--validate-editor"@ =~= seq!['-', '-', 'v', 'a', 'l', 'i', 'd', 'a', 't', 'e', '-', 'e', 'd', 'i', 't', 'o', 'r']);
    reveal_strlit("--validate-speaker");
    assert("--validate-speaker"@ =~= seq!['-', '-', 'v', 'a', 'l', 'i', 'd', 'a', 't', 'e', '-', 's', 'p', 'e', 'a', 'k', 'e', 'r']);
    reveal_strlit("--validate-normal-controls");
    assert("--validate-normal-controls"@ =~= seq!['-', '-', 'v', 'a', 'l', 'i', 'd', 'a', 't', 'e', '-', 'n', 'o', 'r', 'm', 'a', 'l', '-', 'c', 'o', 'n', 't', 'r', 'o', 'l', 's']);
    reveal_strlit("--validate-rehearsal");
    assert("--validate-rehearsal"@ =~= seq!['-', '-', 'v', 'a', 'l', 'i', 'd', 'a', 't', 'e', '-', 'r', 'e', 'h', 'e', 'a', 'r', 's', 'a', 'l']);
    reveal_strlit("--validate-media");
    assert("--validate-media"@ =~= seq!['-', '-', 'v', 'a', 'l', 'i', 'd', 'a', 't', 'e', '-', 'm', 'e', 'd', 'i', 'a']);
    reveal_strlit("--validate-setup");
    assert("--validate-setup"@ =~= seq!['-', '-', 'v', 'a', 'l', 'i', 'd', 'a', 't', 'e', '-', 's', 'e', 't', 'u', 'p']);
    reveal_strlit("--validate-application-shell");
    assert("--validate-application-shell"@ =~= seq!['-', '-', 'v', 'a', 'l', 'i', 'd', 'a', 't', 'e', '-', 'a', 'p', 'p', 'l', 'i', 'c', 'a', 't', 'i', 'o', 'n', '-', 's', 'h', 'e', 'l', 'l']);
    reveal_strlit("--capture-backward");
    assert("--capture-backward"@ =~= seq!['-', '-', 'c', 'a', 'p', 't', 'u', 'r', 'e', '-', 'b', 'a', 'c', 'k', 'w', 'a', 'r', 'd']);
    reveal_strlit("--pdf-no-speaker-notes");
    assert("--pdf-no-speaker-notes"@ =~= seq!['-', '-', 'p', 'd', 'f', '-', 'n', 'o', '-', 's', 'p', 'e', 'a', 'k', 'e', 'r', '-', 'n', 'o', 't', 'e', 's']);
    reveal_strlit("--pdf-page-size");
    assert("--pdf-page-size"@ =~= seq!['-', '-', 'p', 'd', 'f', '-', 'p', 'a', 'g', 'e', '-', 's', 'i', 'z', 'e']);
    reveal_strlit("--pdf-orientation");
    assert("--pdf-orientation"@ =~= seq!['-', '-', 'p', 'd', 'f', '-', 'o', 'r', 'i', 'e', 'n', 't', 'a', 't', 'i', 'o', 'n']);
    reveal_strlit("--output=");
    assert("--output="@ =~= seq!['-', '-', 'o', 'u', 't', 'p', 'u', 't', '=']);
    reveal_strlit("--camera=");
    assert("--camera="@ =~= seq!['-', '-', 'c', 'a', 'm', 'e', 'r', 'a', '=']);
    reveal_strlit("--capture-page-curl=");
    assert("--capture-page-curl="@ =~= seq!['-', '-', 'c', 'a', 'p', 't', 'u', 'r', 'e', '-', 'p', 'a', 'g', 'e', '-', 'c', 'u', 'r', 'l', '=']);
    reveal_strlit("--capture-real-slide=");
    assert("--capture-real-slide="@ =~= seq!['-', '-', 'c', 'a', 'p', 't', 'u', 'r', 'e', '-', 'r', 'e', 'a', 'l', '-', 's', 'l', 'i', 'd', 'e', '=']);
    reveal_strlit("--capture-slide=");
    assert("--capture-slide="@ =~= seq!['-', '-', 'c', 'a', 'p', 't', 'u', 'r', 'e', '-', 's', 'l', 'i', 'd', 'e', '=']);
    reveal_strlit("--capture-size=");
    assert("--capture-size="@ =~= seq!['-', '-', 'c', 'a', 'p', 't', 'u', 'r', 'e', '-', 's', 'i', 'z', 'e', '=']);
    reveal_strlit("--pdf-page-size=");
    assert("--pdf-page-size="@ =~= seq!['-', '-', 'p', 'd', 'f', '-', 'p', 'a', 'g', 'e', '-', 's', 'i', 'z', 'e', '=']);
    reveal_strlit("--pdf-orientation=");
    assert("--pdf-orientation="@ =~= seq!['-', '-', 'p', 'd', 'f', '-', 'o', 'r', 'i', 'e', 'n', 't', 'a', 't', 'i', 'o', 'n', '=']);
    reveal_strlit("=");
    assert("="@ =~= seq!['=']);
}

/// A text that differs from `p` at `k` does not begin with `p`.
pub(crate) proof fn lemma_no_prefix(a: Seq<char>, p: Seq<char>, k: int)
    requires
        0 <= k < p.len(),
        k < a.len(),
        a[k] != p[k],
    ensures
        !has_prefix(a, p),
{
    if has_prefix(a, p) {
        assert(a.take(p.len() as int)[k] == a[k]);
    }
}

#[verifier::rlimit(40)]
proof fn lemma_inline_output(o: OptionsView, av: Seq<Seq<char>>, i: int, v: Seq<char>)
    requires
        0 <= i < av.len(),
        av[i] == "--output="@ + v,
        v.len() > 0,
        !has_prefix(v, "--output="@),
    ensures
        step(o, av, i) == value_step(o, ValueOption::Output, v, 1),
{
    lemma_option_texts();
    let a = av[i];
    let p = "--output="@;
    lemma_trim_once(p, v);
    assert(a.take(p.len() as int) =~= p);
    assert(has_prefix(a, p));
    assert(a.len() > p.len());
    lemma_no_prefix(a, "--format-assist="@, 2);
    lemma_no_prefix(a, "--complete-position="@, 2);
    lemma_no_prefix(a, "--camera="@, 2);
    lemma_no_prefix(a, "--capture-page-curl="@, 2);
    lemma_no_prefix(a, "--capture-real-slide="@, 2);
    lemma_no_prefix(a, "--capture-slide="@, 2);
    lemma_no_prefix(a, "--capture-size="@, 2);
    lemma_no_prefix(a, "--pdf-page-size="@, 2);
    lemma_no_prefix(a, "--pdf-orientation="@, 2);
}

#[verifier::rlimit(40)]
proof fn lemma_inline_format_assist(o: OptionsView, av: Seq<Seq<char>>, i: int, v: Seq<char>)
    requires
        0 <= i < av.len(),
        av[i] == "--format-assist="@ + v,
        v.len() > 0,
        !has_prefix(v, "--format-assist="@),
    ensures
        step(o, av, i) == value_step(o, ValueOption::FormatAssist, v, 1),
{
    lemma_option_texts();
    let a = av[i];
    let p = "--format-assist="@;
    lemma_trim_once(p, v);
    assert(a.take(p.len() as int) =~= p);
    assert(has_prefix(a, p));
    assert(a.len() > p.len());
    lemma_no_prefix(a, "--complete-position="@, 2);
    lemma_no_prefix(a, "--output="@, 2);
    lemma_no_prefix(a, "--camera="@, 2);
    lemma_no_prefix(a, "--capture-page-curl="@, 2);
    lemma_no_prefix(a, "--capture-real-slide="@, 2);
    lemma_no_prefix(a, "--capture-slide="@, 2);
    lemma_no_prefix(a, "--capture-size="@, 2);
    lemma_no_prefix(a, "--pdf-page-size="@, 2);
    lemma_no_prefix(a, "--pdf-orientation="@, 2);
}

#[verifier::rlimit(40)]
proof fn lemma_inline_complete_position(o: OptionsView, av: Seq<Seq<char>>, i: int, v: Seq<char>)
    requires
        0 <= i < av.len(),
        av[i] == "--complete-position="@ + v,
        v.len() > 0,
        !has_prefix(v, "--complete-position="@),
    ensures
        step(o, av, i) == value_step(o, ValueOption::CompletePosition, v, 1),
{
    lemma_option_texts();
    let a = av[i];
    let p = "--complete-position="@;
    lemma_trim_once(p, v);
    assert(a.take(p.len() as int) =~= p);
    assert(has_prefix(a, p));
    assert(a.len() > p.len());
    lemma_no_prefix(a, "--format-assist="@, 2);
    lemma_no_prefix(a, "--output="@, 2);
    lemma_no_prefix(a, "--camera="@, 3);
    lemma_no_prefix(a, "--capture-page-curl="@, 3);
    lemma_no_prefix(a, "--capture-real-slide="@, 3);
    lemma_no_prefix(a, "--capture-slide="@, 3);
    lemma_no_prefix(a, "--capture-size="@, 3);
    lemma_no_prefix(a, "--pdf-page-size="@, 2);
    lemma_no_prefix(a, "--pdf-orientation="@, 2);
}

#[verifier::rlimit(40)]
proof fn lemma_inline_pdf_page_size(o: OptionsView, av: Seq<Seq<char>>, i: int, v: Seq<char>)
    requires
        0 <= i < av.len(),
        av[i] == "--pdf-page-size="@ + v,
        v.len() > 0,
        !has_prefix(v, "--pdf-page-size="@),
    ensures
        step(o, av, i) == value_step(o, ValueOption::PdfPageSize, v, 1),
{
    lemma_option_texts();
    let a = av[i];
    let p = "--pdf-page-size="@;
    lemma_trim_once(p, v);
    assert(a.take(p.len() as int) =~= p);
    assert(has_prefix(a, p));
    assert(a.len() > p.len());
    lemma_no_prefix(a, "--format-assist="@, 2);
    lemma_no_prefix(a, "--complete-position="@, 2);
    lemma_no_prefix(a, "--output="@, 2);
    lemma_no_prefix(a, "--camera="@, 2);
    lemma_no_prefix(a, "--capture-page-curl="@, 2);
    lemma_no_prefix(a, "--capture-real-slide="@, 2);
    lemma_no_prefix(a, "--capture-slide="@, 2);
    lemma_no_prefix(a, "--capture-size="@, 2);
    lemma_no_prefix(a, "--pdf-orientation="@, 6);
}

#[verifier::rlimit(40)]
proof fn lemma_inline_pdf_orientation(o: OptionsView, av: Seq<Seq<char>>, i: int, v: Seq<char>)
    requires
        0 <= i < av.len(),
        av[i] == "--pdf-orientation="@ + v,
        v.len() > 0,
        !has_prefix(v, "--pdf-orientation="@),
    ensures
        step(o, av, i) == value_step(o, ValueOption::PdfOrientation, v, 1),
{
    lemma_option_texts();
    let a = av[i];
    let p = "--pdf-orientation="@;
    lemma_trim_once(p, v);
    assert(a.take(p.len() as int) =~= p);
    assert(has_prefix(a, p));
    assert(a.len() > p.len());
    lemma_no_prefix(a, "--format-assist="@, 2);
    lemma_no_prefix(a, "--complete-position="@, 2);
    lemma_no_prefix(a, "--output="@, 2);
    lemma_no_prefix(a, "--camera="@, 2);
    lemma_no_prefix(a, "--capture-page-curl="@, 2);
    lemma_no_prefix(a, "--capture-real-slide="@, 2);
    lemma_no_prefix(a, "--capture-slide="@, 2);
    lemma_no_prefix(a, "--capture-size="@, 2);
    lemma_no_prefix(a, "--pdf-page-size="@, 6);
}

/// The step of an inline value.
proof fn lemma_inline_step(o: OptionsView, av: Seq<Seq<char>>, i: int, opt: ValueOption, v: Seq<char>)
    requires
        0 <= i < av.len(),
        av[i] == inline_prefix(opt) + v,
        v.len() > 0,
        !has_prefix(v, inline_prefix(opt)),
    ensures
        step(o, av, i) == value_step(o, opt, v, 1),
{
    lemma_option_texts();
    match opt {
        ValueOption::Output => {
            assert(inline_prefix(opt) =~= "--output="@);
            lemma_inline_output(o, av, i, v);
        },
        ValueOption::FormatAssist => {
            assert(inline_prefix(opt) =~= "--format-assist="@);
            lemma_inline_format_assist(o, av, i, v);
        },
        ValueOption::CompletePosition => {
            assert(inline_prefix(opt) =~= "--complete-position="@);
            lemma_inline_complete_position(o, av, i, v);
        },
        ValueOption::PdfPageSize => {
            assert(inline_prefix(opt) =~= "--pdf-page-size="@);
            lemma_inline_pdf_page_size(o, av, i, v);
        },
        ValueOption::PdfOrientation => {
            assert(inline_prefix(opt) =~= "--pdf-orientation="@);
            lemma_inline_pdf_orientation(o, av, i, v);
        },
    }
}

/// The step of a value given as the next argument.
proof fn lemma_separate_step(o: OptionsView, av: Seq<Seq<char>>, i: int, opt: ValueOption)
    requires
        0 <= i,
        i + 1 < av.len(),
        av[i] == option_name(opt),
    ensures
        step(o, av, i) == value_step(o, opt, av[i + 1], 2),
{
    lemma_option_texts();
    let a = av[i];
    assert(!has_prefix(a, "--format-assist="@));
    assert(!has_prefix(a, "--complete-position="@));
    match opt {
        ValueOption::Output => {
            assert(step_info(o, av, i) is None);
            assert(step_flags(o, a) is None);
        },
        ValueOption::FormatAssist => {},
        ValueOption::CompletePosition => {},
        ValueOption::PdfPageSize => {
            assert(step_info(o, av, i) is None);
            assert(step_flags(o, a) is None);
            assert(step_output(o, av, i) is None);
            assert(step_lab(o, a) is None);
        },
        ValueOption::PdfOrientation => {
            assert(step_info(o, av, i) is None);
            assert(step_flags(o, a) is None);
            assert(step_output(o, av, i) is None);
            assert(step_lab(o, a) is None);
        },
    }
}

/// An argument that does not take the next one as its value is read alone.
pub(crate) proof fn lemma_step_alone(o: OptionsView, a1: Seq<Seq<char>>, i1: int, a2: Seq<Seq<char>>, i2: int)
    requires
        0 <= i1 < a1.len(),
        0 <= i2 < a2.len(),
        a1[i1] == a2[i2],
        !takes_next(a1[i1]),
    ensures
        step(o, a1, i1) == step(o, a2, i2),
        step(o, a1, i1) matches Step::Next(_, c) ==> c == 1,
{
}

/// An argument and the one after it decide its step.
proof fn lemma_step_local(o: OptionsView, a1: Seq<Seq<char>>, i1: int, a2: Seq<Seq<char>>, i2: int)
    requires
        0 <= i1 < a1.len(),
        0 <= i2 < a2.len(),
        a1.skip(i1) == a2.skip(i2),
    ensures
        step(o, a1, i1) == step(o, a2, i2),
{
    assert(a1.skip(i1).len() == a1.len() - i1);
    assert(a2.skip(i2).len() == a2.len() - i2);
    assert(a1.skip(i1).len() == a2.skip(i2).len());
    assert(a1[i1] == a1.skip(i1)[0]);
    assert(a2[i2] == a2.skip(i2)[0]);
    if i1 + 1 < a1.len() {
        assert(a1[i1 + 1] == a1.skip(i1)[1]);
        assert(a2[i2 + 1] == a2.skip(i2)[1]);
    }
}

/// The arguments from a point on decide the outcome from there.
proof fn lemma_suffix(o: OptionsView, a1: Seq<Seq<char>>, i1: int, a2: Seq<Seq<char>>, i2: int)
    requires
        0 <= i1 <= a1.len(),
        0 <= i2 <= a2.len(),
        a1.skip(i1) == a2.skip(i2),
    ensures
        parse_from(o, a1, i1) == parse_from(o, a2, i2),
    decreases a1.len() - i1,
{
    assert(a1.len() - i1 == a1.skip(i1).len());
    if i1 < a1.len() {
        lemma_step_local(o, a1, i1, a2, i2);
        match step(o, a1, i1) {
            Step::Next(o2, c) => {
                if 1 <= c && i1 + c <= a1.len() {
                    assert(a1.skip(i1 + c) =~= a1.skip(i1).skip(c as int));
                    assert(a2.skip(i2 + c) =~= a2.skip(i2).skip(c as int));
                    lemma_suffix(o2, a1, i1 + c, a2, i2 + c);
                }
            },
            _ => {},
        }
    }
}

/// Reading the option `opt` with value `v` at index `p.len()` gives the same
/// outcome written inline as written as two arguments, whatever the options
/// read before.
pub proof fn law_inline_value_at(o: OptionsView, p: Seq<Seq<char>>, q: Seq<Seq<char>>, opt: ValueOption, v: Seq<char>)
    requires
        v.len() > 0,
        !has_prefix(v, inline_prefix(opt)),
    ensures
        parse_from(o, p + seq![inline_prefix(opt) + v] + q, p.len() as int)
            == parse_from(o, p + seq![option_name(opt), v] + q, p.len() as int),
{
    let a1 = p + seq![inline_prefix(opt) + v] + q;
    let a2 = p + seq![option_name(opt), v] + q;
    let i = p.len() as int;
    assert(a1[i] == inline_prefix(opt) + v);
    assert(a2[i] == option_name(opt));
    assert(a2[i + 1] == v);
    lemma_inline_step(o, a1, i, opt, v);
    lemma_separate_step(o, a2, i, opt);
    assert(a1.skip(i + 1) =~= q);
    assert(a2.skip(i + 2) =~= q);
    match value_step(o, opt, v, 1) {
        Step::Next(o2, _) => {
            assert(value_step(o, opt, v, 2) == Step::Next(o2, 2));
            lemma_suffix(o2, a1, i + 1, a2, i + 2);
        },
        _ => {},
    }
}

proof fn lemma_prefix(o: OptionsView, p: Seq<Seq<char>>, a1: Seq<Seq<char>>, a2: Seq<Seq<char>>, i: int)
    requires
        0 <= i <= p.len(),
        p.len() < a1.len(),
        p.len() < a2.len(),
        a1.take(p.len() as int) == p,
        a2.take(p.len() as int) == p,
        !awaiting_value(p, i),
        forall|o2: OptionsView| parse_from(o2, a1, p.len() as int) == parse_from(o2, a2, p.len() as int),
    ensures
        parse_from(o, a1, i) == parse_from(o, a2, i),
    decreases p.len() - i,
{
    if i < p.len() {
        assert(a1[i] == p[i]);
        assert(a2[i] == p[i]);
        if takes_next(p[i]) {
            assert(i + 1 < p.len());
            assert(a1[i + 1] == p[i + 1]);
            assert(a2[i + 1] == p[i + 1]);
            assert(a1.skip(i).take(2) =~= a2.skip(i).take(2));
            lemma_separate_same(o, a1, a2, i);
        } else {
            lemma_step_alone(o, a1, i, a2, i);
        }
        match step(o, a1, i) {
            Step::Next(o2, c) => {
                if 1 <= c && i + c <= a1.len() {
                    assert(i + c <= p.len());
                    assert(!awaiting_value(p, i + c));
                    lemma_prefix(o2, p, a1, a2, i + c);
                }
            },
            _ => {},
        }
    }
}

/// An argument that takes the next one reads the same when both agree.
pub(crate) proof fn lemma_separate_same(o: OptionsView, a1: Seq<Seq<char>>, a2: Seq<Seq<char>>, i: int)
    requires
        0 <= i,
        i + 1 < a1.len(),
        i + 1 < a2.len(),
        a1[i] == a2[i],
        a1[i + 1] == a2[i + 1],
    ensures
        step(o, a1, i) == step(o, a2, i),
        step(o, a1, i) matches Step::Next(_, c) ==> c <= 2,
        takes_next(a1[i]) ==> (step(o, a1, i) matches Step::Next(_, c) ==> c == 2),
{
    lemma_option_texts();
}

/// An option's value may be written inline (`--output=talk.pdf`) or as the
/// next argument (`--output talk.pdf`): the whole command line then has the
/// same outcome, for `--output`, `--format-assist`, `--complete-position`,
/// `--pdf-page-size` and `--pdf-orientation`. The value is not empty and does
/// not itself begin with the inline form, and reading the arguments before
/// it leaves no option waiting for its value.
pub proof fn law_inline_and_separate_values_agree(p: Seq<Seq<char>>, q: Seq<Seq<char>>, opt: ValueOption, v: Seq<char>)
    requires
        v.len() > 0,
        !has_prefix(v, inline_prefix(opt)),
        !awaiting_value(p, 0),
    ensures
        parse_spec(p + seq![inline_prefix(opt) + v] + q) == parse_spec(p + seq![option_name(opt), v] + q),
{
    let a1 = p + seq![inline_prefix(opt) + v] + q;
    let a2 = p + seq![option_name(opt), v] + q;
    assert(a1.take(p.len() as int) =~= p);
    assert(a2.take(p.len() as int) =~= p);
    assert forall|o2: OptionsView| parse_from(o2, a1, p.len() as int) == parse_from(o2, a2, p.len() as int) by {
        law_inline_value_at(o2, p, q, opt, v);
    }
    lemma_prefix(default_options(), p, a1, a2, 0);
}

} // verus!
