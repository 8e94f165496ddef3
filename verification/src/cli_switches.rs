//! Laws of the presentation switches: each one, read as an argument, turns
//! its own option on.
use vstd::prelude::*;
use crate::cli::{
    capture_size_step, default_options, orientation_step, page_size_step, parse_from, parse_spec, step, step_flags,
    step_info, step_lab, step_lab_a, step_lab_b, step_lab_c, step_output, step_pdf, step_prefixed, CliOutcome,
    OptionsView, Step,
};
use crate::cli_laws::{lemma_no_prefix, lemma_option_texts, lemma_separate_same, lemma_step_alone, takes_next};
use crate::text::{has_prefix, trim_start_matches};

verus! {

/// The switches that turn one presentation option on.
pub enum Switch {
    Fullscreen,
    Maximized,
    Rehearse,
    SpeakerMode,
    IgnoreComments,
}

/// `a` is one of the two spellings of the switch `f`.
pub open spec fn spells(f: Switch, a: Seq<char>) -> bool {
    match f {
        Switch::Fullscreen => a == "--fullscreen"@ || a == "-f"@,
        Switch::Maximized => a == "--maximized"@ || a == "-m"@,
        Switch::Rehearse => a == "--rehearse"@ || a == "-r"@,
        Switch::SpeakerMode => a == "--speakermode"@ || a == "-s"@,
        Switch::IgnoreComments => a == "--ignore-comments"@ || a == "-i"@,
    }
}

/// The option that the switch `f` turns on is on in `v`.
pub open spec fn switched_on(f: Switch, v: OptionsView) -> bool {
    match f {
        Switch::Fullscreen => v.fullscreen,
        Switch::Maximized => v.maximized,
        Switch::Rehearse => v.rehearse,
        Switch::SpeakerMode => v.speaker_mode,
        Switch::IgnoreComments => v.ignore_comments,
    }
}

/// Reading the arguments of `p` from index `i` on, the one at index `j` is
/// read as an argument of its own, not as the value of an option before it.
pub open spec fn read_alone(p: Seq<Seq<char>>, i: int, j: int) -> bool
    decreases p.len() - i,
{
    if i < 0 || i >= p.len() || j < i {
        false
    } else if i == j {
        true
    } else if takes_next(p[i]) {
        if i + 2 > p.len() { false } else { read_alone(p, i + 2, j) }
    } else {
        read_alone(p, i + 1, j)
    }
}

/// A switch, read as an argument, turns its option on.
#[verifier::rlimit(40)]
proof fn lemma_switch_step(o: OptionsView, av: Seq<Seq<char>>, j: int, f: Switch)
    requires
        0 <= j < av.len(),
        spells(f, av[j]),
    ensures
        step(o, av, j) matches Step::Next(o2, c) && c == 1 && switched_on(f, o2),
{
    lemma_option_texts();
    let a = av[j];
    if a.len() >= 16 {
        lemma_no_prefix(a, "--format-assist="@, 2);
    }
    assert(!has_prefix(a, "--format-assist="@));
    assert(!has_prefix(a, "--complete-position="@));
    assert(step_info(o, av, j) is None);
}

/// The options that the switches turn on are each on in `o2` where on in `o`.
pub open spec fn keeps_switches(o: OptionsView, o2: OptionsView) -> bool {
    (o.fullscreen ==> o2.fullscreen) && (o.maximized ==> o2.maximized) && (o.rehearse ==> o2.rehearse)
        && (o.speaker_mode ==> o2.speaker_mode) && (o.ignore_comments ==> o2.ignore_comments)
}

proof fn lemma_info_keeps(o: OptionsView, av: Seq<Seq<char>>, i: int)
    requires
        0 <= i < av.len(),
    ensures
        step_info(o, av, i) matches Some(Step::Next(o2, _)) ==> keeps_switches(o, o2),
{
}

proof fn lemma_flags_keep(o: OptionsView, a: Seq<char>)
    ensures
        step_flags(o, a) matches Some(o2) ==> keeps_switches(o, o2),
{
}

proof fn lemma_output_keeps(o: OptionsView, av: Seq<Seq<char>>, i: int)
    requires
        0 <= i < av.len(),
    ensures
        step_output(o, av, i) matches Some(Step::Next(o2, _)) ==> keeps_switches(o, o2),
{
}

proof fn lemma_lab_keeps(o: OptionsView, a: Seq<char>)
    ensures
        step_lab(o, a) matches Some(o2) ==> keeps_switches(o, o2),
{
    assert(step_lab_a(o, a) matches Some(o2) ==> keeps_switches(o, o2));
    assert(step_lab_b(o, a) matches Some(o2) ==> keeps_switches(o, o2));
    assert(step_lab_c(o, a) matches Some(o2) ==> keeps_switches(o, o2));
}

proof fn lemma_pdf_keeps(o: OptionsView, av: Seq<Seq<char>>, i: int)
    requires
        0 <= i < av.len(),
    ensures
        step_pdf(o, av, i) matches Some(Step::Next(o2, _)) ==> keeps_switches(o, o2),
{
    if i + 1 < av.len() {
        assert(page_size_step(o, av[i + 1], 2) matches Step::Next(o2, _) ==> keeps_switches(o, o2));
        assert(orientation_step(o, av[i + 1], 2) matches Step::Next(o2, _) ==> keeps_switches(o, o2));
    }
}

proof fn lemma_prefixed_keeps(o: OptionsView, a: Seq<char>)
    ensures
        step_prefixed(o, a) matches Some(Step::Next(o2, _)) ==> keeps_switches(o, o2),
{
    assert(capture_size_step(o, trim_start_matches(a, "--capture-size="@)) matches Step::Next(o2, _)
        ==> keeps_switches(o, o2));
    assert(page_size_step(o, trim_start_matches(a, "--pdf-page-size="@), 1) matches Step::Next(o2, _)
        ==> keeps_switches(o, o2));
    assert(orientation_step(o, trim_start_matches(a, "--pdf-orientation="@), 1) matches Step::Next(o2, _)
        ==> keeps_switches(o, o2));
}

/// No argument turns a switched-on option off again.
proof fn lemma_step_keeps(o: OptionsView, av: Seq<Seq<char>>, i: int)
    requires
        0 <= i < av.len(),
    ensures
        step(o, av, i) matches Step::Next(o2, _) ==> keeps_switches(o, o2),
{
    lemma_info_keeps(o, av, i);
    lemma_flags_keep(o, av[i]);
    lemma_output_keeps(o, av, i);
    lemma_lab_keeps(o, av[i]);
    lemma_pdf_keeps(o, av, i);
    lemma_prefixed_keeps(o, av[i]);
}

/// A switched-on option stays on to the end of the command line.
proof fn lemma_parse_keeps(o: OptionsView, av: Seq<Seq<char>>, i: int, f: Switch)
    requires
        switched_on(f, o),
    ensures
        parse_from(o, av, i) matches CliOutcome::Run(v) ==> switched_on(f, v),
    decreases av.len() - i,
{
    if 0 <= i < av.len() {
        lemma_step_keeps(o, av, i);
        match step(o, av, i) {
            Step::Next(o2, c) => {
                if 1 <= c && i + c <= av.len() {
                    lemma_parse_keeps(o2, av, i + c, f);
                }
            },
            _ => {},
        }
    }
}

proof fn lemma_switch_reached(o: OptionsView, av: Seq<Seq<char>>, i: int, j: int, f: Switch)
    requires
        read_alone(av, i, j),
        spells(f, av[j]),
    ensures
        parse_from(o, av, i) matches CliOutcome::Run(v) ==> switched_on(f, v),
    decreases av.len() - i,
{
    if i == j {
        lemma_switch_step(o, av, j, f);
        let o2 = step(o, av, j)->Next_0;
        lemma_parse_keeps(o2, av, j + 1, f);
    } else {
        if takes_next(av[i]) {
            if i + 1 < av.len() {
                lemma_separate_same(o, av, av, i);
            }
        } else {
            lemma_step_alone(o, av, i, av, i);
        }
        match step(o, av, i) {
            Step::Next(o2, c) => {
                if 1 <= c && i + c <= av.len() {
                    lemma_switch_reached(o2, av, i + c, j, f);
                }
            },
            _ => {},
        }
    }
}

/// Each switch turns its own option on: where `-f`/`--fullscreen`,
/// `-m`/`--maximized`, `-r`/`--rehearse`, `-s`/`--speakermode` or
/// `-i`/`--ignore-comments` stands in the command line as an argument of its
/// own (not as the value of an option before it) and the command line is
/// accepted, the options it gives have fullscreen, maximized, rehearse,
/// speaker mode or ignore-comments on, whatever else the command line holds.
pub proof fn law_switch_turns_option_on(av: Seq<Seq<char>>, j: int, f: Switch)
    requires
        read_alone(av, 0, j),
        spells(f, av[j]),
    ensures
        parse_spec(av) matches CliOutcome::Run(v) ==> switched_on(f, v),
{
    lemma_switch_reached(default_options(), av, 0, j, f);
}

} // verus!
