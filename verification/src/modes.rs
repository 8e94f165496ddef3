//! What a run of the program does with accepted options, and the texts it
//! prints outside the user interface.
use vstd::prelude::*;
use crate::cli::Options;
use crate::text::{append_chars, append_str, chars_of, decimal, decimal_chars, eq_str, owned, string_of};

verus! {

pub const VERSION: &'static str = "0.3.0";

/// The usage text printed for `--help`.
pub fn help_text() -> (t: String)
    ensures
        t@ == "Pinpoint 0.3.0\n\nUsage: pinpoint [OPTIONS] [PRESENTATION.pin]\n\nOptions:\n  --check              Validate a presentation without opening GTK\n  --format-assist=KIND Emit JSON diagnostics, symbols, assets, or completions\n  --complete-position=LINE:COLUMN One-based position for completion assistance\n  -f, --fullscreen     Start the presentation fullscreen\n  -m, --maximized      Start the presentation maximized\n  --edit               Open the presentation in the composition editor\n  -r, --rehearse       Record slide timings and save them on completion\n  -s, --speakermode    Open the audience and speaker presentation windows\n  -i, --ignore-comments Exclude speaker-note comments\n  --allow-external-assets Allow outside-folder assets for CLI compatibility\n  --output=FILE        Export the presentation atomically as PDF\n  --pdf-page-size=SIZE Use a4 (default) or letter pages\n  --pdf-orientation=O  Use landscape (default) or portrait pages\n  --pdf-no-speaker-notes Omit separate speaker-note pages\n  --version            Print the version\n  --help               Show this help"@,
{
    owned("Pinpoint 0.3.0\n\nUsage: pinpoint [OPTIONS] [PRESENTATION.pin]\n\nOptions:\n  --check              Validate a presentation without opening GTK\n  --format-assist=KIND Emit JSON diagnostics, symbols, assets, or completions\n  --complete-position=LINE:COLUMN One-based position for completion assistance\n  -f, --fullscreen     Start the presentation fullscreen\n  -m, --maximized      Start the presentation maximized\n  --edit               Open the presentation in the composition editor\n  -r, --rehearse       Record slide timings and save them on completion\n  -s, --speakermode    Open the audience and speaker presentation windows\n  -i, --ignore-comments Exclude speaker-note comments\n  --allow-external-assets Allow outside-folder assets for CLI compatibility\n  --output=FILE        Export the presentation atomically as PDF\n  --pdf-page-size=SIZE Use a4 (default) or letter pages\n  --pdf-orientation=O  Use landscape (default) or portrait pages\n  --pdf-no-speaker-notes Omit separate speaker-note pages\n  --version            Print the version\n  --help               Show this help")
}

/// The line printed for `--version`.
pub fn version_text() -> (t: String)
    ensures
        t@ == "pinpoint 0.3.0"@,
{
    owned("pinpoint 0.3.0")
}

/// What a run does, in order of precedence.
#[derive(Clone, Copy, Debug, PartialEq, Eq, Structural)]
pub enum Mode {
    /// Validate the setup window's folder handling.
    ValidateSetup,
    /// Print editor assistance as JSON.
    FormatAssist,
    /// Export the presentation as PDF.
    Export,
    /// Check the presentation without a user interface.
    Check,
    /// Start the application.
    Application,
}

/// The mode of a run with options `o`.
pub open spec fn mode_spec(o: Options) -> Mode {
    if o.lab.setup {
        Mode::ValidateSetup
    } else if o.format_assist is Some {
        Mode::FormatAssist
    } else if o.output is Some {
        Mode::Export
    } else if o.check {
        Mode::Check
    } else {
        Mode::Application
    }
}

/// Chooses what the run does.
pub fn run_mode(options: &Options) -> (m: Mode)
    ensures
        m == mode_spec(*options),
{
    if options.lab.setup {
        Mode::ValidateSetup
    } else if options.format_assist.is_some() {
        Mode::FormatAssist
    } else if options.output.is_some() {
        Mode::Export
    } else if options.check {
        Mode::Check
    } else {
        Mode::Application
    }
}

/// The kinds of editor assistance.
#[derive(Clone, Copy, Debug, PartialEq, Eq, Structural)]
pub enum AssistKind {
    Diagnostics,
    Symbols,
    Assets,
    Completions,
}

/// The kind asked for, or the error for an unknown one or for completions
/// without a position.
pub open spec fn assist_kind_spec(kind: Seq<char>, has_position: bool) -> Result<AssistKind, Seq<char>> {
    if kind == "diagnostics"@ {
        Ok(AssistKind::Diagnostics)
    } else if kind == "symbols"@ {
        Ok(AssistKind::Symbols)
    } else if kind == "assets"@ {
        Ok(AssistKind::Assets)
    } else if kind == "completions"@ {
        if has_position {
            Ok(AssistKind::Completions)
        } else {
            Err("--format-assist=completions requires --complete-position=LINE:COLUMN"@)
        }
    } else {
        Err("--format-assist must be diagnostics, symbols, assets, or completions"@)
    }
}

/// Reads the kind of editor assistance asked for.
pub fn assist_kind(kind: &str, has_position: bool) -> (r: Result<AssistKind, String>)
    ensures
        match r {
            Ok(k) => assist_kind_spec(kind@, has_position) == Ok::<AssistKind, Seq<char>>(k),
            Err(e) => assist_kind_spec(kind@, has_position) == Err::<AssistKind, Seq<char>>(e@),
        },
{
    let k = chars_of(kind);
    if eq_str(&k, "diagnostics") {
        Ok(AssistKind::Diagnostics)
    } else if eq_str(&k, "symbols") {
        Ok(AssistKind::Symbols)
    } else if eq_str(&k, "assets") {
        Ok(AssistKind::Assets)
    } else if eq_str(&k, "completions") {
        if has_position {
            Ok(AssistKind::Completions)
        } else {
            Err(owned("--format-assist=completions requires --complete-position=LINE:COLUMN"))
        }
    } else {
        Err(owned("--format-assist must be diagnostics, symbols, assets, or completions"))
    }
}

/// The line printed by a successful check: "<path>: <n> slides".
pub fn check_summary(path: &str, slides: usize) -> (s: String)
    ensures
        s@ == path@ + ": "@ + decimal(slides as nat) + " slides"@,
{
    let mut v = chars_of(path);
    append_str(&mut v, ": ");
    let d = decimal_chars(slides as u64);
    append_chars(&mut v, &d);
    append_str(&mut v, " slides");
    string_of(&v)
}

} // verus!
