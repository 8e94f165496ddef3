//! Command-line options: what each argument sets, which combinations are
//! refused, and what the program is asked to do.
use vstd::prelude::*;
use crate::text::{
    chars_of, concat, eq_str, has_prefix, owned, parse_unsigned, parse_unsigned_chars,
    skip_chars, starts_with_str, string_of, trim_start_matches, trim_start_str,
};

verus! {

/// The size of exported PDF pages.
#[derive(Clone, Copy, Debug, PartialEq, Eq, Structural)]
pub enum PageSize {
    A4,
    Letter,
}

/// The orientation of exported PDF pages.
#[derive(Clone, Copy, Debug, PartialEq, Eq, Structural)]
pub enum Orientation {
    Landscape,
    Portrait,
}

/// Whether presentation assets may come from outside the presentation folder.
#[derive(Clone, Copy, Debug, PartialEq, Eq, Structural)]
pub enum AssetAccess {
    /// Only assets inside the presentation folder are read.
    Confined,
    /// Assets outside the folder are read too, as older releases did.
    Compatible,
}

/// The options given on the command line.
#[derive(Debug)]
pub struct Options {
    pub presentation: Option<String>,
    pub presentation_label: Option<String>,
    pub check: bool,
    pub format_assist: Option<String>,
    pub complete_position: Option<String>,
    pub fullscreen: bool,
    pub maximized: bool,
    pub edit: bool,
    pub rehearse: bool,
    pub speaker_mode: bool,
    pub audience_monitor: Option<String>,
    pub ignore_comments: bool,
    pub allow_external_assets: bool,
    pub lab: LabModes,
    pub capture: Capture,
    pub output: Option<String>,
    pub pdf_page_size: PageSize,
    pub pdf_orientation: Orientation,
    pub pdf_speaker_notes: bool,
}

/// The graphical validation modes asked for.
#[derive(Clone, Copy, Debug)]
pub struct LabModes {
    pub stage: bool,
    pub pixels: bool,
    pub transitions: bool,
    pub lifecycle: bool,
    pub lifecycle_stress: bool,
    pub editor: bool,
    pub speaker: bool,
    pub normal_controls: bool,
    pub rehearsal: bool,
    pub media: bool,
    pub setup: bool,
    pub application_shell: bool,
}

/// The page-curl and slide capture settings.
#[derive(Clone, Debug)]
pub struct Capture {
    pub page_curl: Option<String>,
    pub real_slide: Option<String>,
    pub slide: usize,
    pub width: i32,
    pub height: i32,
    pub backwards: bool,
}

/// `Capture` with its text as character sequences.
pub struct CaptureView {
    pub page_curl: Option<Seq<char>>,
    pub real_slide: Option<Seq<char>>,
    pub slide: usize,
    pub width: i32,
    pub height: i32,
    pub backwards: bool,
}

/// `Options` with its text as character sequences.
pub struct OptionsView {
    pub presentation: Option<Seq<char>>,
    pub presentation_label: Option<Seq<char>>,
    pub check: bool,
    pub format_assist: Option<Seq<char>>,
    pub complete_position: Option<Seq<char>>,
    pub fullscreen: bool,
    pub maximized: bool,
    pub edit: bool,
    pub rehearse: bool,
    pub speaker_mode: bool,
    pub audience_monitor: Option<Seq<char>>,
    pub ignore_comments: bool,
    pub allow_external_assets: bool,
    pub lab: Seq<bool>,
    pub capture: CaptureView,
    pub output: Option<Seq<char>>,
    pub pdf_page_size: PageSize,
    pub pdf_orientation: Orientation,
    pub pdf_speaker_notes: bool,
}

/// The characters of an optional string.
pub open spec fn opt_view(s: Option<String>) -> Option<Seq<char>> {
    match s {
        Some(s) => Some(s@),
        None => None,
    }
}

/// The options `o` hold exactly what `v` describes, field by field.
pub open spec fn matches_view(o: Options, v: OptionsView) -> bool {
    &&& opt_view(o.presentation) == v.presentation
    &&& opt_view(o.presentation_label) == v.presentation_label
    &&& o.check == v.check
    &&& opt_view(o.format_assist) == v.format_assist
    &&& opt_view(o.complete_position) == v.complete_position
    &&& o.fullscreen == v.fullscreen
    &&& o.maximized == v.maximized
    &&& o.edit == v.edit
    &&& o.rehearse == v.rehearse
    &&& o.speaker_mode == v.speaker_mode
    &&& opt_view(o.audience_monitor) == v.audience_monitor
    &&& o.ignore_comments == v.ignore_comments
    &&& o.allow_external_assets == v.allow_external_assets
    &&& same_lab(o.lab, v.lab)
    &&& opt_view(o.capture.page_curl) == v.capture.page_curl
    &&& opt_view(o.capture.real_slide) == v.capture.real_slide
    &&& o.capture.slide == v.capture.slide
    &&& o.capture.width == v.capture.width
    &&& o.capture.height == v.capture.height
    &&& o.capture.backwards == v.capture.backwards
    &&& opt_view(o.output) == v.output
    &&& o.pdf_page_size == v.pdf_page_size
    &&& o.pdf_orientation == v.pdf_orientation
    &&& o.pdf_speaker_notes == v.pdf_speaker_notes
}

/// The validation modes `a` are those that `v` lists, in field order.
pub open spec fn same_lab(a: LabModes, v: Seq<bool>) -> bool {
    &&& v.len() == 12
    &&& a.stage == v[0]
    &&& a.pixels == v[1]
    &&& a.transitions == v[2]
    &&& a.lifecycle == v[3]
    &&& a.lifecycle_stress == v[4]
    &&& a.editor == v[5]
    &&& a.speaker == v[6]
    &&& a.normal_controls == v[7]
    &&& a.rehearsal == v[8]
    &&& a.media == v[9]
    &&& a.setup == v[10]
    &&& a.application_shell == v[11]
}

/// No validation mode.
pub open spec fn no_lab() -> Seq<bool> {
    Seq::new(12, |i: int| false)
}

/// The options before any argument is read.
pub open spec fn default_options() -> OptionsView {
    OptionsView {
        presentation: None,
        presentation_label: None,
        check: false,
        format_assist: None,
        complete_position: None,
        fullscreen: false,
        maximized: false,
        edit: false,
        rehearse: false,
        speaker_mode: false,
        audience_monitor: None,
        ignore_comments: false,
        allow_external_assets: false,
        lab: no_lab(),
        capture: CaptureView { page_curl: None, real_slide: None, slide: 0, width: 800, height: 600, backwards: false },
        output: None,
        pdf_page_size: PageSize::A4,
        pdf_orientation: Orientation::Landscape,
        pdf_speaker_notes: true,
    }
}

impl Options {
    /// The options before any argument is read.
    pub fn new() -> (o: Options)
        ensures
            matches_view(o, default_options()),
    {
        Options {
            presentation: None,
            presentation_label: None,
            check: false,
            format_assist: None,
            complete_position: None,
            fullscreen: false,
            maximized: false,
            edit: false,
            rehearse: false,
            speaker_mode: false,
            audience_monitor: None,
            ignore_comments: false,
            allow_external_assets: false,
            lab: LabModes {
                stage: false,
                pixels: false,
                transitions: false,
                lifecycle: false,
                lifecycle_stress: false,
                editor: false,
                speaker: false,
                normal_controls: false,
                rehearsal: false,
                media: false,
                setup: false,
                application_shell: false,
            },
            capture: Capture {
                page_curl: None,
                real_slide: None,
                slide: 0,
                width: 800,
                height: 600,
                backwards: false,
            },
            output: None,
            pdf_page_size: PageSize::A4,
            pdf_orientation: Orientation::Landscape,
            pdf_speaker_notes: true,
        }
    }

    /// Where assets may be read from: outside the presentation folder only
    /// when `--allow-external-assets` was given.
    pub fn asset_access(&self) -> (a: AssetAccess)
        ensures
            a == (if self.allow_external_assets {
                AssetAccess::Compatible
            } else {
                AssetAccess::Confined
            }),
    {
        if self.allow_external_assets {
            AssetAccess::Compatible
        } else {
            AssetAccess::Confined
        }
    }
}

/// What the command line asks for.
#[derive(Debug)]
pub enum CliRequest {
    /// Print the usage text.
    Help,
    /// Print the version.
    Version,
    /// Run with these options.
    Run(Options),
}

impl CliRequest {
    /// The options to run with, unless help or the version was asked for.
    pub fn run_options(self) -> (o: Option<Options>)
        ensures
            o == (match self {
                CliRequest::Run(options) => Some(options),
                _ => None,
            }),
    {
        match self {
            CliRequest::Run(options) => Some(options),
            _ => None,
        }
    }
}

/// What the command line asks for, with text as character sequences.
pub enum CliOutcome {
    Help,
    Version,
    Run(OptionsView),
    Fail(Seq<char>),
}

/// The result `r` is the outcome `c`.
pub open spec fn outcome_matches(r: Result<CliRequest, String>, c: CliOutcome) -> bool {
    match (r, c) {
        (Ok(CliRequest::Help), CliOutcome::Help) => true,
        (Ok(CliRequest::Version), CliOutcome::Version) => true,
        (Ok(CliRequest::Run(o)), CliOutcome::Run(v)) => matches_view(o, v),
        (Err(e), CliOutcome::Fail(m)) => e@ == m,
        _ => false,
    }
}

/// The characters of each argument.
pub open spec fn args_view(args: Seq<String>) -> Seq<Seq<char>> {
    Seq::new(args.len(), |i: int| args[i]@)
}

/// The effect of one argument: the options it leaves and how many arguments
/// it consumed (its own, and the value that follows it for some options).
pub enum Step {
    Next(OptionsView, nat),
    Help,
    Version,
    Fail(Seq<char>),
}

pub open spec fn camera_removed_message() -> Seq<char> {
    "--camera=DEVICE is no longer supported; camera backgrounds use the desktop Camera portal. Remove --camera and approve the portal request when a [camera] slide is shown."@
}

/// `--help`, `--version`, `--check`, and the format-assistance options.
pub open spec fn step_info(o: OptionsView, av: Seq<Seq<char>>, i: int) -> Option<Step> {
    let a = av[i];
    if a == "--help"@ || a == "-h"@ {
        Some(Step::Help)
    } else if a == "--version"@ {
        Some(Step::Version)
    } else if a == "--check"@ {
        Some(Step::Next(OptionsView { check: true, ..o }, 1))
    } else if a == "--format-assist"@ {
        Some(
            if i + 1 < av.len() {
                Step::Next(OptionsView { format_assist: Some(av[i + 1]), ..o }, 2)
            } else {
                Step::Fail("--format-assist requires a kind"@)
            },
        )
    } else if has_prefix(a, "--format-assist="@) {
        let v = trim_start_matches(a, "--format-assist="@);
        Some(
            if v.len() == 0 {
                Step::Fail("--format-assist requires a kind"@)
            } else {
                Step::Next(OptionsView { format_assist: Some(v), ..o }, 1)
            },
        )
    } else if a == "--complete-position"@ {
        Some(
            if i + 1 < av.len() {
                Step::Next(OptionsView { complete_position: Some(av[i + 1]), ..o }, 2)
            } else {
                Step::Fail("--complete-position requires a one-based LINE:COLUMN"@)
            },
        )
    } else if has_prefix(a, "--complete-position="@) {
        let v = trim_start_matches(a, "--complete-position="@);
        Some(
            if v.len() == 0 {
                Step::Fail("--complete-position requires a one-based LINE:COLUMN"@)
            } else {
                Step::Next(OptionsView { complete_position: Some(v), ..o }, 1)
            },
        )
    } else {
        None
    }
}

/// The presentation-mode flags.
pub open spec fn step_flags(o: OptionsView, a: Seq<char>) -> Option<OptionsView> {
    if a == "--fullscreen"@ || a == "-f"@ {
        Some(OptionsView { fullscreen: true, ..o })
    } else if a == "--maximized"@ || a == "-m"@ {
        Some(OptionsView { maximized: true, ..o })
    } else if a == "--edit"@ {
        Some(OptionsView { edit: true, ..o })
    } else if a == "--rehearse"@ || a == "-r"@ {
        Some(OptionsView { rehearse: true, ..o })
    } else if a == "--speakermode"@ || a == "-s"@ {
        Some(OptionsView { speaker_mode: true, ..o })
    } else if a == "--ignore-comments"@ || a == "-i"@ {
        Some(OptionsView { ignore_comments: true, ..o })
    } else if a == "--allow-external-assets"@ {
        Some(OptionsView { allow_external_assets: true, ..o })
    } else {
        None
    }
}

/// `--output FILE` and the retired `--camera`.
pub open spec fn step_output(o: OptionsView, av: Seq<Seq<char>>, i: int) -> Option<Step> {
    let a = av[i];
    if a == "--output"@ || a == "-o"@ {
        Some(
            if i + 1 < av.len() {
                Step::Next(OptionsView { output: Some(av[i + 1]), ..o }, 2)
            } else {
                Step::Fail("--output requires a filename"@)
            },
        )
    } else if a == "--camera"@ || a == "-c"@ {
        Some(Step::Fail(camera_removed_message()))
    } else {
        None
    }
}

/// The validation and capture lab flags, and `--pdf-no-speaker-notes`.
pub open spec fn step_lab(o: OptionsView, a: Seq<char>) -> Option<OptionsView> {
    match step_lab_a(o, a) {
        Some(o2) => Some(o2),
        None => match step_lab_b(o, a) {
            Some(o2) => Some(o2),
            None => step_lab_c(o, a),
        },
    }
}

pub open spec fn step_lab_a(o: OptionsView, a: Seq<char>) -> Option<OptionsView> {
    if a == "--validate-stage"@ {
        Some(OptionsView { lab: o.lab.update(0, true), ..o })
    } else if a == "--validate-pixels"@ {
        Some(OptionsView { lab: o.lab.update(1, true), ..o })
    } else if a == "--validate-transitions"@ {
        Some(OptionsView { lab: o.lab.update(2, true), ..o })
    } else if a == "--validate-lifecycle"@ {
        Some(OptionsView { lab: o.lab.update(3, true), ..o })
    } else if a == "--validate-lifecycle-stress"@ {
        Some(OptionsView { lab: o.lab.update(4, true), ..o })
    } else {
        None
    }
}

pub open spec fn step_lab_b(o: OptionsView, a: Seq<char>) -> Option<OptionsView> {
    if a == "--validate-editor"@ {
        Some(OptionsView { lab: o.lab.update(5, true), ..o })
    } else if a == "--validate-speaker"@ {
        Some(OptionsView { lab: o.lab.update(6, true), ..o })
    } else if a == "--validate-normal-controls"@ {
        Some(OptionsView { lab: o.lab.update(7, true), ..o })
    } else if a == "--validate-rehearsal"@ {
        Some(OptionsView { lab: o.lab.update(8, true), ..o })
    } else if a == "--validate-media"@ {
        Some(OptionsView { lab: o.lab.update(9, true), ..o })
    } else {
        None
    }
}

pub open spec fn step_lab_c(o: OptionsView, a: Seq<char>) -> Option<OptionsView> {
    if a == "--validate-setup"@ {
        Some(OptionsView { lab: o.lab.update(10, true), ..o })
    } else if a == "--validate-application-shell"@ {
        Some(OptionsView { lab: o.lab.update(11, true), ..o })
    } else if a == "--capture-backward"@ {
        Some(OptionsView { capture: CaptureView { backwards: true, ..o.capture }, ..o })
    } else if a == "--pdf-no-speaker-notes"@ {
        Some(OptionsView { pdf_speaker_notes: false, ..o })
    } else {
        None
    }
}

/// The page size that a value names.
pub open spec fn page_size_of(v: Seq<char>) -> Option<PageSize> {
    if v == "a4"@ {
        Some(PageSize::A4)
    } else if v == "letter"@ {
        Some(PageSize::Letter)
    } else {
        None
    }
}

/// The orientation that a value names.
pub open spec fn orientation_of(v: Seq<char>) -> Option<Orientation> {
    if v == "landscape"@ {
        Some(Orientation::Landscape)
    } else if v == "portrait"@ {
        Some(Orientation::Portrait)
    } else {
        None
    }
}

pub open spec fn page_size_step(o: OptionsView, v: Seq<char>, consumed: nat) -> Step {
    match page_size_of(v) {
        Some(size) => Step::Next(OptionsView { pdf_page_size: size, ..o }, consumed),
        None => Step::Fail("unsupported PDF page size: "@ + v),
    }
}

pub open spec fn orientation_step(o: OptionsView, v: Seq<char>, consumed: nat) -> Step {
    match orientation_of(v) {
        Some(orientation) => Step::Next(
            OptionsView { pdf_orientation: orientation, ..o },
            consumed,
        ),
        None => Step::Fail("unsupported PDF orientation: "@ + v),
    }
}

/// `--pdf-page-size VALUE` and `--pdf-orientation VALUE`.
pub open spec fn step_pdf(o: OptionsView, av: Seq<Seq<char>>, i: int) -> Option<Step> {
    let a = av[i];
    if a == "--pdf-page-size"@ {
        Some(
            if i + 1 < av.len() {
                page_size_step(o, av[i + 1], 2)
            } else {
                Step::Fail("--pdf-page-size requires a4 or letter"@)
            },
        )
    } else if a == "--pdf-orientation"@ {
        Some(
            if i + 1 < av.len() {
                orientation_step(o, av[i + 1], 2)
            } else {
                Step::Fail("--pdf-orientation requires landscape or portrait"@)
            },
        )
    } else {
        None
    }
}

/// The first index of `c` in `s`.
pub open spec fn is_first_index(s: Seq<char>, c: char, k: int) -> bool {
    0 <= k < s.len() && s[k] == c && forall|j: int| 0 <= j < k ==> s[j] != c
}

/// What `str::split_once('x')` gives: the text before and after the first `x`.
pub open spec fn split_at_x(s: Seq<char>) -> Option<(Seq<char>, Seq<char>)> {
    if exists|k: int| is_first_index(s, 'x', k) {
        let k = choose|k: int| is_first_index(s, 'x', k);
        Some((s.take(k), s.skip(k + 1)))
    } else {
        None
    }
}

/// A positive `i32` as `str::parse::<i32>` reads it.
pub open spec fn positive_i32(s: Seq<char>) -> Option<i32> {
    match parse_unsigned(s, i32::MAX as nat) {
        Some(v) => if v > 0 {
            Some(v as i32)
        } else {
            None
        },
        None => None,
    }
}

/// `--capture-size=WIDTHxHEIGHT`.
pub open spec fn capture_size_step(o: OptionsView, v: Seq<char>) -> Step {
    match split_at_x(v) {
        None => Step::Fail("--capture-size must be WIDTHxHEIGHT"@),
        Some((w, h)) => match positive_i32(w) {
            None => Step::Fail("--capture-size width must be positive"@),
            Some(width) => match positive_i32(h) {
                None => Step::Fail("--capture-size height must be positive"@),
                Some(height) => Step::Next(
                    OptionsView { capture: CaptureView { width: width, height: height, ..o.capture }, ..o },
                    1,
                ),
            },
        },
    }
}

/// The options written as `--name=value`.
pub open spec fn step_prefixed(o: OptionsView, a: Seq<char>) -> Option<Step> {
    if has_prefix(a, "--output="@) {
        let v = trim_start_matches(a, "--output="@);
        Some(
            if v.len() == 0 {
                Step::Fail("--output requires a filename"@)
            } else {
                Step::Next(OptionsView { output: Some(v), ..o }, 1)
            },
        )
    } else if has_prefix(a, "--camera="@) {
        Some(Step::Fail(camera_removed_message()))
    } else if has_prefix(a, "--capture-page-curl="@) {
        let v = trim_start_matches(a, "--capture-page-curl="@);
        Some(
            if v.len() == 0 {
                Step::Fail("--capture-page-curl requires a filename"@)
            } else {
                Step::Next(OptionsView { capture: CaptureView { page_curl: Some(v), ..o.capture }, ..o }, 1)
            },
        )
    } else if has_prefix(a, "--capture-real-slide="@) {
        let v = trim_start_matches(a, "--capture-real-slide="@);
        Some(
            if v.len() == 0 {
                Step::Fail("--capture-real-slide requires a filename"@)
            } else {
                Step::Next(OptionsView { capture: CaptureView { real_slide: Some(v), ..o.capture }, ..o }, 1)
            },
        )
    } else if has_prefix(a, "--capture-slide="@) {
        let v = trim_start_matches(a, "--capture-slide="@);
        Some(
            match parse_unsigned(v, usize::MAX as nat) {
                Some(n) => Step::Next(OptionsView { capture: CaptureView { slide: n as usize, ..o.capture }, ..o }, 1),
                None => Step::Fail("--capture-slide must be a non-negative integer"@),
            },
        )
    } else if has_prefix(a, "--capture-size="@) {
        Some(capture_size_step(o, trim_start_matches(a, "--capture-size="@)))
    } else if has_prefix(a, "--pdf-page-size="@) {
        Some(page_size_step(o, trim_start_matches(a, "--pdf-page-size="@), 1))
    } else if has_prefix(a, "--pdf-orientation="@) {
        Some(orientation_step(o, trim_start_matches(a, "--pdf-orientation="@), 1))
    } else {
        None
    }
}

/// Anything else: an unknown option, or the presentation.
pub open spec fn step_other(o: OptionsView, a: Seq<char>) -> Step {
    if a.len() > 0 && a[0] == '-' {
        Step::Fail("unknown option: "@ + a)
    } else if o.presentation is Some {
        Step::Fail("exactly one presentation may be supplied"@)
    } else {
        Step::Next(OptionsView { presentation: Some(a), ..o }, 1)
    }
}

/// The effect of the argument at index `i`, the options of earlier ones being `o`.
pub open spec fn step(o: OptionsView, av: Seq<Seq<char>>, i: int) -> Step {
    let a = av[i];
    match step_info(o, av, i) {
        Some(s) => s,
        None => match step_flags(o, a) {
            Some(o2) => Step::Next(o2, 1),
            None => match step_output(o, av, i) {
                Some(s) => s,
                None => match step_lab(o, a) {
                    Some(o2) => Step::Next(o2, 1),
                    None => match step_pdf(o, av, i) {
                        Some(s) => s,
                        None => match step_prefixed(o, a) {
                            Some(s) => s,
                            None => step_other(o, a),
                        },
                    },
                },
            },
        },
    }
}

/// Some graphical validation mode was asked for.
pub open spec fn any_lab_mode(o: OptionsView) -> bool {
    o.lab[0] || o.lab[1] || o.lab[2] || o.lab[3] || o.lab[4]
        || o.lab[5] || o.lab[6] || o.lab[7] || o.lab[8] || o.lab[9]
        || o.lab[10] || o.lab[11]
}

/// The combination checks made once every argument is read, and the modes
/// that imply speaker mode.
pub open spec fn finish(o: OptionsView) -> CliOutcome {
    if (o.check || o.format_assist is Some) && o.presentation is None {
        CliOutcome::Fail("--check and --format-assist require a presentation"@)
    } else if o.allow_external_assets && o.presentation is None {
        CliOutcome::Fail("--allow-external-assets requires a presentation"@)
    } else if o.complete_position is Some && o.format_assist != Some("completions"@) {
        CliOutcome::Fail("--complete-position requires --format-assist=completions"@)
    } else if o.edit && (o.check || o.format_assist is Some || o.output is Some || o.rehearse
        || o.fullscreen || o.speaker_mode) {
        CliOutcome::Fail(
            "--edit cannot be combined with rehearsal, fullscreen, speaker mode, check, or PDF output"@,
        )
    } else if o.edit && o.allow_external_assets {
        CliOutcome::Fail(
            "--allow-external-assets is available only for presenting, checking, and PDF export"@,
        )
    } else if o.rehearse && o.presentation is None {
        CliOutcome::Fail("--rehearse requires a presentation"@)
    } else if o.output is Some && o.presentation is None {
        CliOutcome::Fail("--output requires a presentation"@)
    } else if o.output is Some && (o.check || o.format_assist is Some || o.edit || any_lab_mode(
        o,
    )) {
        CliOutcome::Fail("--output cannot be combined with check or graphical lab modes"@)
    } else if o.check && (o.edit || any_lab_mode(o)) {
        CliOutcome::Fail("--check cannot be combined with graphical lab modes"@)
    } else if o.format_assist is Some && (o.check || o.output is Some || o.rehearse
        || o.fullscreen || o.speaker_mode) {
        CliOutcome::Fail(
            "--format-assist cannot be combined with presentation, rehearsal, check, or PDF options"@,
        )
    } else if (o.lab[3] || o.lab[4]) && o.presentation is Some {
        CliOutcome::Fail("lifecycle validation creates and mutates its own temporary fixture"@)
    } else if o.lab[9] && o.presentation is Some {
        CliOutcome::Fail("media validation creates its own pressure fixture"@)
    } else if o.lab[8] && o.presentation is Some {
        CliOutcome::Fail("rehearsal validation creates and updates its own temporary fixture"@)
    } else if o.lab[10] && o.presentation is Some {
        CliOutcome::Fail("setup validation creates its own temporary folder"@)
    } else if o.lab[11] && o.presentation is Some {
        CliOutcome::Fail("application-shell validation creates its own temporary presentation"@)
    } else if o.lab[5] && o.presentation is None {
        CliOutcome::Fail("editor validation requires an explicit test fixture"@)
    } else if (o.lab[6] || o.lab[7]) && o.presentation is None {
        CliOutcome::Fail("speaker validation requires an explicit test fixture"@)
    } else {
        CliOutcome::Run(
            OptionsView {
                speaker_mode: o.speaker_mode || o.lab[6] || o.lab[8]
                    || o.rehearse,
                ..o
            },
        )
    }
}

/// The outcome of reading the arguments from index `i` on, those before it
/// having left the options `o`.
pub open spec fn parse_from(o: OptionsView, av: Seq<Seq<char>>, i: int) -> CliOutcome
    decreases av.len() - i,
{
    if i < 0 || i >= av.len() {
        finish(o)
    } else {
        match step(o, av, i) {
            Step::Next(o2, c) => if 1 <= c && i + c <= av.len() {
                parse_from(o2, av, i + c)
            } else {
                CliOutcome::Fail(Seq::empty())
            },
            Step::Help => CliOutcome::Help,
            Step::Version => CliOutcome::Version,
            Step::Fail(message) => CliOutcome::Fail(message),
        }
    }
}

/// The outcome of a whole command line (the program name excluded).
pub open spec fn parse_spec(av: Seq<Seq<char>>) -> CliOutcome {
    parse_from(default_options(), av, 0)
}


/// The effect of one argument, as the parser carries it out.
enum ArgumentStep {
    Next(usize),
    Help,
    Version,
    Fail(String),
}

/// The exec step `r`, leaving the options `o`, is the step `s`.
spec fn step_matches(r: ArgumentStep, o: Options, s: Step) -> bool {
    match (r, s) {
        (ArgumentStep::Next(c), Step::Next(o2, c2)) => c == c2 && matches_view(o, o2),
        (ArgumentStep::Help, Step::Help) => true,
        (ArgumentStep::Version, Step::Version) => true,
        (ArgumentStep::Fail(m), Step::Fail(m2)) => m@ == m2,
        _ => false,
    }
}

/// The value argument that follows index `i`, as a `String`.
fn value_after(args: &Vec<String>, i: usize) -> (v: String)
    requires
        i + 1 < args.len(),
    ensures
        v@ == args_view(args@)[i + 1],
{
    args[i + 1].clone()
}

#[verifier::rlimit(50)]
fn apply_info(
    options: &mut Options,
    Ghost(ov): Ghost<OptionsView>,
    args: &Vec<String>,
    a: &Vec<char>,
    i: usize,
) -> (r: Option<ArgumentStep>)
    requires
        i < args.len(),
        a@ == args_view(args@)[i as int],
        matches_view(*old(options), ov),
    ensures
        match step_info(ov, args_view(args@), i as int) {
            None => r is None && matches_view(*final(options), ov),
            Some(s) => r is Some && step_matches(r->0, *final(options), s),
        },
{
    if eq_str(a, "--help") || eq_str(a, "-h") {
        Some(ArgumentStep::Help)
    } else if eq_str(a, "--version") {
        Some(ArgumentStep::Version)
    } else if eq_str(a, "--check") {
        options.check = true;
        Some(ArgumentStep::Next(1))
    } else if eq_str(a, "--format-assist") {
        if i + 1 < args.len() {
            options.format_assist = Some(value_after(args, i));
            Some(ArgumentStep::Next(2))
        } else {
            Some(ArgumentStep::Fail(owned("--format-assist requires a kind")))
        }
    } else if starts_with_str(a, "--format-assist=") {
        let value = trim_start_str(a, "--format-assist=");
        if value.len() == 0 {
            Some(ArgumentStep::Fail(owned("--format-assist requires a kind")))
        } else {
            options.format_assist = Some(string_of(&value));
            Some(ArgumentStep::Next(1))
        }
    } else if eq_str(a, "--complete-position") {
        if i + 1 < args.len() {
            options.complete_position = Some(value_after(args, i));
            Some(ArgumentStep::Next(2))
        } else {
            Some(ArgumentStep::Fail(owned("--complete-position requires a one-based LINE:COLUMN")))
        }
    } else if starts_with_str(a, "--complete-position=") {
        let value = trim_start_str(a, "--complete-position=");
        if value.len() == 0 {
            Some(ArgumentStep::Fail(owned("--complete-position requires a one-based LINE:COLUMN")))
        } else {
            options.complete_position = Some(string_of(&value));
            Some(ArgumentStep::Next(1))
        }
    } else {
        None
    }
}

fn apply_flag(options: &mut Options, Ghost(ov): Ghost<OptionsView>, a: &Vec<char>) -> (matched:
    bool)
    requires
        matches_view(*old(options), ov),
    ensures
        match step_flags(ov, a@) {
            None => !matched && matches_view(*final(options), ov),
            Some(o) => matched && matches_view(*final(options), o),
        },
{
    if eq_str(a, "--fullscreen") || eq_str(a, "-f") {
        options.fullscreen = true;
    } else if eq_str(a, "--maximized") || eq_str(a, "-m") {
        options.maximized = true;
    } else if eq_str(a, "--edit") {
        options.edit = true;
    } else if eq_str(a, "--rehearse") || eq_str(a, "-r") {
        options.rehearse = true;
    } else if eq_str(a, "--speakermode") || eq_str(a, "-s") {
        options.speaker_mode = true;
    } else if eq_str(a, "--ignore-comments") || eq_str(a, "-i") {
        options.ignore_comments = true;
    } else if eq_str(a, "--allow-external-assets") {
        options.allow_external_assets = true;
    } else {
        return false;
    }
    true
}

fn camera_removed() -> (m: String)
    ensures
        m@ == camera_removed_message(),
{
    owned(
        "--camera=DEVICE is no longer supported; camera backgrounds use the desktop Camera portal. Remove --camera and approve the portal request when a [camera] slide is shown.",
    )
}

fn apply_output(
    options: &mut Options,
    Ghost(ov): Ghost<OptionsView>,
    args: &Vec<String>,
    a: &Vec<char>,
    i: usize,
) -> (r: Option<ArgumentStep>)
    requires
        i < args.len(),
        a@ == args_view(args@)[i as int],
        matches_view(*old(options), ov),
    ensures
        match step_output(ov, args_view(args@), i as int) {
            None => r is None && matches_view(*final(options), ov),
            Some(s) => r is Some && step_matches(r->0, *final(options), s),
        },
{
    if eq_str(a, "--output") || eq_str(a, "-o") {
        if i + 1 < args.len() {
            options.output = Some(value_after(args, i));
            Some(ArgumentStep::Next(2))
        } else {
            Some(ArgumentStep::Fail(owned("--output requires a filename")))
        }
    } else if eq_str(a, "--camera") || eq_str(a, "-c") {
        Some(ArgumentStep::Fail(camera_removed()))
    } else {
        None
    }
}

/// Replaces the validation modes.
fn set_lab(
    options: &mut Options,
    Ghost(ov): Ghost<OptionsView>,
    lab: LabModes,
    Ghost(target): Ghost<Seq<bool>>,
)
    requires
        matches_view(*old(options), ov),
        same_lab(lab, target),
    ensures
        matches_view(*final(options), OptionsView { lab: target, ..ov }),
{
    options.lab = lab;
}

/// Records `--capture-backward`.
fn set_capture_backwards(options: &mut Options, Ghost(ov): Ghost<OptionsView>)
    requires
        matches_view(*old(options), ov),
    ensures
        matches_view(
            *final(options),
            OptionsView { capture: CaptureView { backwards: true, ..ov.capture }, ..ov },
        ),
{
    options.capture.backwards = true;
}

fn apply_lab_a(options: &mut Options, Ghost(ov): Ghost<OptionsView>, a: &Vec<char>) -> (matched: bool)
    requires
        matches_view(*old(options), ov),
    ensures
        match step_lab_a(ov, a@) {
            None => !matched && matches_view(*final(options), ov),
            Some(o) => matched && matches_view(*final(options), o),
        },
{
    if eq_str(a, "--validate-stage") {
        set_lab(options, Ghost(ov), LabModes { stage: true, ..options.lab }, Ghost(ov.lab.update(0, true)));
    } else if eq_str(a, "--validate-pixels") {
        set_lab(options, Ghost(ov), LabModes { pixels: true, ..options.lab }, Ghost(ov.lab.update(1, true)));
    } else if eq_str(a, "--validate-transitions") {
        set_lab(options, Ghost(ov), LabModes { transitions: true, ..options.lab }, Ghost(ov.lab.update(2, true)));
    } else if eq_str(a, "--validate-lifecycle") {
        set_lab(options, Ghost(ov), LabModes { lifecycle: true, ..options.lab }, Ghost(ov.lab.update(3, true)));
    } else if eq_str(a, "--validate-lifecycle-stress") {
        set_lab(options, Ghost(ov), LabModes { lifecycle_stress: true, ..options.lab }, Ghost(ov.lab.update(4, true)));
    } else {
        return false;
    }
    true
}

fn apply_lab_b(options: &mut Options, Ghost(ov): Ghost<OptionsView>, a: &Vec<char>) -> (matched: bool)
    requires
        matches_view(*old(options), ov),
    ensures
        match step_lab_b(ov, a@) {
            None => !matched && matches_view(*final(options), ov),
            Some(o) => matched && matches_view(*final(options), o),
        },
{
    if eq_str(a, "--validate-editor") {
        set_lab(options, Ghost(ov), LabModes { editor: true, ..options.lab }, Ghost(ov.lab.update(5, true)));
    } else if eq_str(a, "--validate-speaker") {
        set_lab(options, Ghost(ov), LabModes { speaker: true, ..options.lab }, Ghost(ov.lab.update(6, true)));
    } else if eq_str(a, "--validate-normal-controls") {
        set_lab(options, Ghost(ov), LabModes { normal_controls: true, ..options.lab }, Ghost(ov.lab.update(7, true)));
    } else if eq_str(a, "--validate-rehearsal") {
        set_lab(options, Ghost(ov), LabModes { rehearsal: true, ..options.lab }, Ghost(ov.lab.update(8, true)));
    } else if eq_str(a, "--validate-media") {
        set_lab(options, Ghost(ov), LabModes { media: true, ..options.lab }, Ghost(ov.lab.update(9, true)));
    } else {
        return false;
    }
    true
}

fn apply_lab_c(options: &mut Options, Ghost(ov): Ghost<OptionsView>, a: &Vec<char>) -> (matched: bool)
    requires
        matches_view(*old(options), ov),
    ensures
        match step_lab_c(ov, a@) {
            None => !matched && matches_view(*final(options), ov),
            Some(o) => matched && matches_view(*final(options), o),
        },
{
    if eq_str(a, "--validate-setup") {
        set_lab(options, Ghost(ov), LabModes { setup: true, ..options.lab }, Ghost(ov.lab.update(10, true)));
    } else if eq_str(a, "--validate-application-shell") {
        set_lab(options, Ghost(ov), LabModes { application_shell: true, ..options.lab }, Ghost(ov.lab.update(11, true)));
    } else if eq_str(a, "--capture-backward") {
        set_capture_backwards(options, Ghost(ov));
    } else if eq_str(a, "--pdf-no-speaker-notes") {
        options.pdf_speaker_notes = false;
    } else {
        return false;
    }
    true
}

fn apply_lab(options: &mut Options, Ghost(ov): Ghost<OptionsView>, a: &Vec<char>) -> (matched: bool)
    requires
        matches_view(*old(options), ov),
    ensures
        match step_lab(ov, a@) {
            None => !matched && matches_view(*final(options), ov),
            Some(o) => matched && matches_view(*final(options), o),
        },
{
    apply_lab_a(options, Ghost(ov), a) || apply_lab_b(options, Ghost(ov), a) || apply_lab_c(
        options,
        Ghost(ov),
        a,
    )
}

fn apply_page_size(
    options: &mut Options,
    Ghost(ov): Ghost<OptionsView>,
    value: &Vec<char>,
    consumed: usize,
) -> (r: ArgumentStep)
    requires
        matches_view(*old(options), ov),
    ensures
        step_matches(r, *final(options), page_size_step(ov, value@, consumed as nat)),
{
    if eq_str(value, "a4") {
        options.pdf_page_size = PageSize::A4;
        ArgumentStep::Next(consumed)
    } else if eq_str(value, "letter") {
        options.pdf_page_size = PageSize::Letter;
        ArgumentStep::Next(consumed)
    } else {
        ArgumentStep::Fail(concat("unsupported PDF page size: ", value))
    }
}

fn apply_orientation(
    options: &mut Options,
    Ghost(ov): Ghost<OptionsView>,
    value: &Vec<char>,
    consumed: usize,
) -> (r: ArgumentStep)
    requires
        matches_view(*old(options), ov),
    ensures
        step_matches(r, *final(options), orientation_step(ov, value@, consumed as nat)),
{
    if eq_str(value, "landscape") {
        options.pdf_orientation = Orientation::Landscape;
        ArgumentStep::Next(consumed)
    } else if eq_str(value, "portrait") {
        options.pdf_orientation = Orientation::Portrait;
        ArgumentStep::Next(consumed)
    } else {
        ArgumentStep::Fail(concat("unsupported PDF orientation: ", value))
    }
}

fn apply_pdf(
    options: &mut Options,
    Ghost(ov): Ghost<OptionsView>,
    args: &Vec<String>,
    a: &Vec<char>,
    i: usize,
) -> (r: Option<ArgumentStep>)
    requires
        i < args.len(),
        a@ == args_view(args@)[i as int],
        matches_view(*old(options), ov),
    ensures
        match step_pdf(ov, args_view(args@), i as int) {
            None => r is None && matches_view(*final(options), ov),
            Some(s) => r is Some && step_matches(r->0, *final(options), s),
        },
{
    if eq_str(a, "--pdf-page-size") {
        if i + 1 < args.len() {
            let value = chars_of(args[i + 1].as_str());
            Some(apply_page_size(options, Ghost(ov), &value, 2))
        } else {
            Some(ArgumentStep::Fail(owned("--pdf-page-size requires a4 or letter")))
        }
    } else if eq_str(a, "--pdf-orientation") {
        if i + 1 < args.len() {
            let value = chars_of(args[i + 1].as_str());
            Some(apply_orientation(options, Ghost(ov), &value, 2))
        } else {
            Some(ArgumentStep::Fail(owned("--pdf-orientation requires landscape or portrait")))
        }
    } else {
        None
    }
}

/// The index of the first `c` in `s`.
pub fn find_char(s: &Vec<char>, c: char) -> (r: Option<usize>)
    ensures
        match r {
            Some(k) => is_first_index(s@, c, k as int),
            None => forall|j: int| 0 <= j < s.len() ==> s@[j] != c,
        },
{
    let mut i: usize = 0;
    while i < s.len()
        invariant
            i <= s.len(),
            forall|j: int| 0 <= j < i ==> s@[j] != c,
        decreases s.len() - i,
    {
        if s[i] == c {
            return Some(i);
        }
        i += 1;
    }
    None
}

proof fn lemma_first_index_unique(s: Seq<char>, c: char, k1: int, k2: int)
    requires
        is_first_index(s, c, k1),
        is_first_index(s, c, k2),
    ensures
        k1 == k2,
{
    if k1 < k2 {
        assert(s[k1] != c);
    } else if k2 < k1 {
        assert(s[k2] != c);
    }
}

/// Reads a positive `i32`.
fn positive_i32_chars(s: &Vec<char>) -> (r: Option<i32>)
    ensures
        r == positive_i32(s@),
{
    match parse_unsigned_chars(s, 2147483647) {
        Some(n) => if n > 0 {
            Some(n as i32)
        } else {
            None
        },
        None => None,
    }
}

/// The first `end` characters of `v`.
pub fn prefix_of(v: &Vec<char>, end: usize) -> (r: Vec<char>)
    requires
        end <= v.len(),
    ensures
        r@ == v@.take(end as int),
{
    let mut r: Vec<char> = Vec::new();
    let mut i: usize = 0;
    while i < end
        invariant
            i <= end <= v.len(),
            r@ == v@.take(i as int),
        decreases end - i,
    {
        r.push(v[i]);
        i += 1;
        assert(r@ =~= v@.take(i as int));
    }
    r
}

fn apply_capture_size(options: &mut Options, Ghost(ov): Ghost<OptionsView>, value: &Vec<char>) -> (r:
    ArgumentStep)
    requires
        matches_view(*old(options), ov),
    ensures
        step_matches(r, *final(options), capture_size_step(ov, value@)),
{
    match find_char(value, 'x') {
        None => {
            assert(!exists|k: int| is_first_index(value@, 'x', k));
            ArgumentStep::Fail(owned("--capture-size must be WIDTHxHEIGHT"))
        },
        Some(k) => {
            proof {
                let k2 = choose|k2: int| is_first_index(value@, 'x', k2);
                lemma_first_index_unique(value@, 'x', k as int, k2);
            }
            let w = prefix_of(value, k);
            let h = skip_chars(value, k + 1);
            match positive_i32_chars(&w) {
                None => ArgumentStep::Fail(owned("--capture-size width must be positive")),
                Some(width) => match positive_i32_chars(&h) {
                    None => ArgumentStep::Fail(owned("--capture-size height must be positive")),
                    Some(height) => {
                        options.capture.width = width;
                        options.capture.height = height;
                        ArgumentStep::Next(1)
                    },
                },
            }
        },
    }
}

#[verifier::rlimit(50)]
fn apply_prefixed(options: &mut Options, Ghost(ov): Ghost<OptionsView>, a: &Vec<char>) -> (r:
    Option<ArgumentStep>)
    requires
        matches_view(*old(options), ov),
    ensures
        match step_prefixed(ov, a@) {
            None => r is None && matches_view(*final(options), ov),
            Some(s) => r is Some && step_matches(r->0, *final(options), s),
        },
{
    if starts_with_str(a, "--output=") {
        let value = trim_start_str(a, "--output=");
        if value.len() == 0 {
            Some(ArgumentStep::Fail(owned("--output requires a filename")))
        } else {
            options.output = Some(string_of(&value));
            Some(ArgumentStep::Next(1))
        }
    } else if starts_with_str(a, "--camera=") {
        Some(ArgumentStep::Fail(camera_removed()))
    } else if starts_with_str(a, "--capture-page-curl=") {
        let value = trim_start_str(a, "--capture-page-curl=");
        if value.len() == 0 {
            Some(ArgumentStep::Fail(owned("--capture-page-curl requires a filename")))
        } else {
            options.capture.page_curl = Some(string_of(&value));
            Some(ArgumentStep::Next(1))
        }
    } else if starts_with_str(a, "--capture-real-slide=") {
        let value = trim_start_str(a, "--capture-real-slide=");
        if value.len() == 0 {
            Some(ArgumentStep::Fail(owned("--capture-real-slide requires a filename")))
        } else {
            options.capture.real_slide = Some(string_of(&value));
            Some(ArgumentStep::Next(1))
        }
    } else if starts_with_str(a, "--capture-slide=") {
        let value = trim_start_str(a, "--capture-slide=");
        match parse_unsigned_chars(&value, usize::MAX as u64) {
            Some(n) => {
                options.capture.slide = n as usize;
                Some(ArgumentStep::Next(1))
            },
            None => Some(ArgumentStep::Fail(owned("--capture-slide must be a non-negative integer"))),
        }
    } else if starts_with_str(a, "--capture-size=") {
        let value = trim_start_str(a, "--capture-size=");
        Some(apply_capture_size(options, Ghost(ov), &value))
    } else if starts_with_str(a, "--pdf-page-size=") {
        let value = trim_start_str(a, "--pdf-page-size=");
        Some(apply_page_size(options, Ghost(ov), &value, 1))
    } else if starts_with_str(a, "--pdf-orientation=") {
        let value = trim_start_str(a, "--pdf-orientation=");
        Some(apply_orientation(options, Ghost(ov), &value, 1))
    } else {
        None
    }
}

fn apply_other(options: &mut Options, Ghost(ov): Ghost<OptionsView>, a: &Vec<char>) -> (r:
    ArgumentStep)
    requires
        matches_view(*old(options), ov),
    ensures
        step_matches(r, *final(options), step_other(ov, a@)),
{
    if a.len() > 0 && a[0] == '-' {
        ArgumentStep::Fail(concat("unknown option: ", a))
    } else if options.presentation.is_some() {
        ArgumentStep::Fail(owned("exactly one presentation may be supplied"))
    } else {
        options.presentation = Some(string_of(a));
        ArgumentStep::Next(1)
    }
}

/// Carries out the argument at index `i`.
fn apply_argument(options: &mut Options, Ghost(ov): Ghost<OptionsView>, args: &Vec<String>, i: usize) -> (r:
    ArgumentStep)
    requires
        i < args.len(),
        matches_view(*old(options), ov),
    ensures
        step_matches(r, *final(options), step(ov, args_view(args@), i as int)),
{
    let a = chars_of(args[i].as_str());
    if let Some(r) = apply_info(options, Ghost(ov), args, &a, i) {
        return r;
    }
    if apply_flag(options, Ghost(ov), &a) {
        return ArgumentStep::Next(1);
    }
    if let Some(r) = apply_output(options, Ghost(ov), args, &a, i) {
        return r;
    }
    if apply_lab(options, Ghost(ov), &a) {
        return ArgumentStep::Next(1);
    }
    if let Some(r) = apply_pdf(options, Ghost(ov), args, &a, i) {
        return r;
    }
    if let Some(r) = apply_prefixed(options, Ghost(ov), &a) {
        return r;
    }
    apply_other(options, Ghost(ov), &a)
}


/// Some graphical validation mode was asked for.
fn any_lab(lab: &LabModes) -> (r: bool)
    ensures
        forall|v: Seq<bool>|
            same_lab(*lab, v) ==> r == (v[0] || v[1] || v[2] || v[3] || v[4] || v[5] || v[6]
                || v[7] || v[8] || v[9] || v[10] || v[11]),
{
    lab.stage || lab.pixels || lab.transitions || lab.lifecycle || lab.lifecycle_stress
        || lab.editor || lab.speaker || lab.normal_controls || lab.rehearsal || lab.media
        || lab.setup || lab.application_shell
}

/// `--format-assist=completions` was given.
fn assists_completions(options: &Options) -> (r: bool)
    ensures
        r == (opt_view(options.format_assist) == Some("completions"@)),
{
    match &options.format_assist {
        Some(kind) => {
            let k = chars_of(kind.as_str());
            eq_str(&k, "completions")
        },
        None => false,
    }
}

/// The checks made once every argument is read.
#[verifier::rlimit(40)]
fn finish_options(options: Options, Ghost(ov): Ghost<OptionsView>) -> (r: Result<CliRequest, String>)
    requires
        matches_view(options, ov),
    ensures
        outcome_matches(r, finish(ov)),
{
    let lab = any_lab(&options.lab);
    let has_presentation = options.presentation.is_some();
    let assisting = options.format_assist.is_some();
    let exporting = options.output.is_some();
    if (options.check || assisting) && !has_presentation {
        return Err(owned("--check and --format-assist require a presentation"));
    }
    if options.allow_external_assets && !has_presentation {
        return Err(owned("--allow-external-assets requires a presentation"));
    }
    if options.complete_position.is_some() && !assists_completions(&options) {
        return Err(owned("--complete-position requires --format-assist=completions"));
    }
    if options.edit && (options.check || assisting || exporting || options.rehearse
        || options.fullscreen || options.speaker_mode) {
        return Err(
            owned(
                "--edit cannot be combined with rehearsal, fullscreen, speaker mode, check, or PDF output",
            ),
        );
    }
    if options.edit && options.allow_external_assets {
        return Err(
            owned(
                "--allow-external-assets is available only for presenting, checking, and PDF export",
            ),
        );
    }
    if options.rehearse && !has_presentation {
        return Err(owned("--rehearse requires a presentation"));
    }
    if exporting && !has_presentation {
        return Err(owned("--output requires a presentation"));
    }
    if exporting && (options.check || assisting || options.edit || lab) {
        return Err(owned("--output cannot be combined with check or graphical lab modes"));
    }
    if options.check && (options.edit || lab) {
        return Err(owned("--check cannot be combined with graphical lab modes"));
    }
    if assisting && (options.check || exporting || options.rehearse || options.fullscreen
        || options.speaker_mode) {
        return Err(
            owned(
                "--format-assist cannot be combined with presentation, rehearsal, check, or PDF options",
            ),
        );
    }
    if (options.lab.lifecycle || options.lab.lifecycle_stress) && has_presentation {
        return Err(owned("lifecycle validation creates and mutates its own temporary fixture"));
    }
    if options.lab.media && has_presentation {
        return Err(owned("media validation creates its own pressure fixture"));
    }
    if options.lab.rehearsal && has_presentation {
        return Err(owned("rehearsal validation creates and updates its own temporary fixture"));
    }
    if options.lab.setup && has_presentation {
        return Err(owned("setup validation creates its own temporary folder"));
    }
    if options.lab.application_shell && has_presentation {
        return Err(owned("application-shell validation creates its own temporary presentation"));
    }
    if options.lab.editor && !has_presentation {
        return Err(owned("editor validation requires an explicit test fixture"));
    }
    if (options.lab.speaker || options.lab.normal_controls) && !has_presentation {
        return Err(owned("speaker validation requires an explicit test fixture"));
    }
    let mut options = options;
    if options.lab.speaker || options.lab.rehearsal || options.rehearse {
        options.speaker_mode = true;
    }
    Ok(CliRequest::Run(options))
}

/// Reads the command line (the program name excluded).
///
/// `--help` and `--version` stop the reading at once; an unknown option, a
/// missing or bad value, a second presentation, or a refused combination of
/// options gives the message that says so.
pub fn parse_options_from(args: &Vec<String>) -> (r: Result<CliRequest, String>)
    ensures
        outcome_matches(r, parse_spec(args_view(args@))),
{
    let ghost av = args_view(args@);
    let mut options = Options::new();
    let ghost mut ov = default_options();
    let mut i: usize = 0;
    while i < args.len()
        invariant
            i <= args.len(),
            av == args_view(args@),
            matches_view(options, ov),
            parse_from(ov, av, i as int) == parse_spec(av),
        decreases args.len() - i,
    {
        let r = apply_argument(&mut options, Ghost(ov), args, i);
        match r {
            ArgumentStep::Next(c) => {
                proof {
                    if let Step::Next(o2, c2) = step(ov, av, i as int) {
                        ov = o2;
                    }
                }
                i = i + c;
            },
            ArgumentStep::Help => {
                return Ok(CliRequest::Help);
            },
            ArgumentStep::Version => {
                return Ok(CliRequest::Version);
            },
            ArgumentStep::Fail(message) => {
                return Err(message);
            },
        }
    }
    finish_options(options, Ghost(ov))
}


/// The options that the parser lets a run start with obey the documented
/// dependencies between options.
pub open spec fn consistent(v: OptionsView) -> bool {
    &&& (v.check || v.format_assist is Some || v.rehearse || v.output is Some
        || v.allow_external_assets) ==> v.presentation is Some
    &&& v.rehearse ==> v.speaker_mode
    &&& v.edit ==> !(v.check || v.format_assist is Some || v.output is Some || v.rehearse
        || v.fullscreen || v.allow_external_assets)
    &&& v.edit && v.speaker_mode ==> v.lab[6] || v.lab[8]
    &&& v.output is Some ==> !(v.check || v.format_assist is Some || v.edit || any_lab_mode(v))
    &&& v.complete_position is Some ==> v.format_assist == Some("completions"@)
}

proof fn lemma_finish_consistent(o: OptionsView)
    ensures
        finish(o) matches CliOutcome::Run(v) ==> consistent(v),
{
}

proof fn lemma_parse_from_consistent(o: OptionsView, av: Seq<Seq<char>>, i: int)
    ensures
        parse_from(o, av, i) matches CliOutcome::Run(v) ==> consistent(v),
    decreases av.len() - i,
{
    lemma_finish_consistent(o);
    if 0 <= i < av.len() {
        if let Step::Next(o2, c) = step(o, av, i) {
            if 1 <= c && i + c <= av.len() {
                lemma_parse_from_consistent(o2, av, i + c);
            }
        }
    }
}

/// Whatever the command line, options that the parser accepts never hold a
/// refused combination: checking, format assistance, rehearsal, PDF export
/// and external assets come with a presentation; rehearsal runs in speaker
/// mode; composition mode excludes checking, format assistance, PDF export,
/// rehearsal, fullscreen and external assets, and runs in speaker mode only
/// for the speaker or rehearsal validation modes; PDF export excludes checking, format
/// assistance, composition and the graphical validation modes; and a
/// completion position comes only with completion assistance.
pub proof fn law_accepted_options_are_consistent(av: Seq<Seq<char>>)
    ensures
        parse_spec(av) matches CliOutcome::Run(v) ==> consistent(v),
{
    lemma_parse_from_consistent(default_options(), av, 0);
}

/// `--help` or `-h` as the first argument asks for the usage text, whatever
/// follows it.
pub proof fn law_help_first_wins(av: Seq<Seq<char>>)
    requires
        av.len() > 0,
        av[0] == "--help"@ || av[0] == "-h"@,
    ensures
        parse_spec(av) is Help,
{
}

} // verus!
