//! The audience-facing summary of presentation assets that could not be shown.
use vstd::prelude::*;
use crate::deck::{BackgroundType, Slide};
use crate::text::{append_chars, append_str, decimal, decimal_chars, string_of};

verus! {

/// `numbers` joined by ", ".
pub open spec fn comma_list(numbers: Seq<usize>) -> Seq<char>
    decreases numbers.len(),
{
    if numbers.len() == 0 {
        Seq::empty()
    } else if numbers.len() == 1 {
        decimal(numbers[0] as nat)
    } else {
        comma_list(numbers.drop_last()) + ", "@ + decimal(numbers.last() as nat)
    }
}

/// The slide numbers as they follow the word "slide": " 2", "s 2 and 5",
/// "s 2, 5, and 9"; nothing for no numbers.
pub open spec fn slide_numbers_spec(numbers: Seq<usize>) -> Seq<char> {
    if numbers.len() == 0 {
        Seq::empty()
    } else if numbers.len() == 1 {
        " "@ + decimal(numbers[0] as nat)
    } else if numbers.len() == 2 {
        "s "@ + decimal(numbers[0] as nat) + " and "@ + decimal(numbers[1] as nat)
    } else {
        "s "@ + comma_list(numbers.drop_last()) + ", and "@ + decimal(numbers.last() as nat)
    }
}

fn comma_list_chars(numbers: &Vec<usize>, n: usize) -> (r: Vec<char>)
    requires
        n <= numbers@.len(),
    ensures
        r@ == comma_list(numbers@.take(n as int)),
{
    let mut r: Vec<char> = Vec::new();
    let mut i: usize = 0;
    while i < n
        invariant
            i <= n <= numbers@.len(),
            r@ == comma_list(numbers@.take(i as int)),
        decreases n - i,
    {
        let ghost before = r@;
        if i > 0 {
            append_str(&mut r, ", ");
        }
        let d = decimal_chars(numbers[i] as u64);
        append_chars(&mut r, &d);
        let ghost t = numbers@.take(i + 1);
        assert(t.drop_last() =~= numbers@.take(i as int));
        if i == 0 {
            assert(r@ =~= comma_list(t));
        } else {
            assert(r@ =~= before + ", "@ + decimal(numbers@[i as int] as nat));
        }
        i += 1;
    }
    r
}

/// Formats slide numbers for "slide" + this (see `slide_numbers_spec`).
pub fn format_slide_numbers(numbers: &Vec<usize>) -> (s: String)
    ensures
        s@ == slide_numbers_spec(numbers@),
{
    let mut r: Vec<char> = Vec::new();
    let n = numbers.len();
    if n == 0 {
        return string_of(&r);
    }
    if n == 1 {
        append_str(&mut r, " ");
        let d = decimal_chars(numbers[0] as u64);
        append_chars(&mut r, &d);
    } else if n == 2 {
        append_str(&mut r, "s ");
        let d0 = decimal_chars(numbers[0] as u64);
        append_chars(&mut r, &d0);
        append_str(&mut r, " and ");
        let d1 = decimal_chars(numbers[1] as u64);
        append_chars(&mut r, &d1);
    } else {
        append_str(&mut r, "s ");
        let body = comma_list_chars(numbers, n - 1);
        append_chars(&mut r, &body);
        append_str(&mut r, ", and ");
        let d = decimal_chars(numbers[n - 1] as u64);
        append_chars(&mut r, &d);
        assert(numbers@.take(n - 1) =~= numbers@.drop_last());
    }
    string_of(&r)
}

/// One asset that could not be shown, and the slides (numbered from 1)
/// that use it.
#[derive(Clone, Debug)]
pub struct AssetProblem {
    /// Identifies the asset's path.
    pub key: u64,
    /// The asset's file name as shown to people.
    pub name: String,
    pub error: String,
    pub slides: Vec<usize>,
}

/// `AssetProblem` with its text as characters.
pub struct ProblemView {
    pub key: u64,
    pub name: Seq<char>,
    pub error: Seq<char>,
    pub slides: Seq<usize>,
}

pub open spec fn problem_view(p: AssetProblem) -> ProblemView {
    ProblemView { key: p.key, name: p.name@, error: p.error@, slides: p.slides@ }
}

pub open spec fn problems_view(ps: Seq<AssetProblem>) -> Seq<ProblemView> {
    ps.map_values(|p: AssetProblem| problem_view(p))
}

/// The position of the first problem with `key`, if any.
pub open spec fn find_key(ps: Seq<ProblemView>, key: u64) -> Option<int>
    decreases ps.len(),
{
    if ps.len() == 0 {
        None
    } else {
        match find_key(ps.drop_last(), key) {
            Some(i) => Some(i),
            None => if ps.last().key == key { Some(ps.len() - 1) } else { None },
        }
    }
}

/// The problems after recording that slide `slide` cannot show asset `key`:
/// a known asset gains the slide, once; a new one is added with `error`.
pub open spec fn add_problem_spec(ps: Seq<ProblemView>, key: u64, name: Seq<char>, error: Seq<char>, slide: usize) -> Seq<ProblemView> {
    match find_key(ps, key) {
        Some(i) => {
            let p = ps[i];
            if p.slides.contains(slide) {
                ps
            } else {
                ps.update(i, ProblemView { key: p.key, name: p.name, error: p.error, slides: p.slides.push(slide) })
            }
        },
        None => ps.push(ProblemView { key, name, error, slides: seq![slide] }),
    }
}

proof fn lemma_find_key(ps: Seq<ProblemView>, key: u64)
    ensures
        match find_key(ps, key) {
            Some(i) => 0 <= i < ps.len() && ps[i].key == key && forall|j: int| 0 <= j < i ==> ps[j].key != key,
            None => forall|j: int| 0 <= j < ps.len() ==> ps[j].key != key,
        },
    decreases ps.len(),
{
    if ps.len() > 0 {
        let d = ps.drop_last();
        lemma_find_key(d, key);
        assert forall|j: int| 0 <= j < d.len() implies d[j] == ps[j] by {}
    }
}

/// Records that slide `slide` cannot show the asset `key` (see `add_problem_spec`).
pub fn add_asset_problem(problems: &mut Vec<AssetProblem>, key: u64, name: String, error: String, slide: usize)
    ensures
        problems_view(final(problems)@) == add_problem_spec(problems_view(old(problems)@), key, name@, error@, slide),
{
    let ghost before = problems_view(problems@);
    proof {
        lemma_find_key(before, key);
    }
    let mut i: usize = 0;
    while i < problems.len()
        invariant
            i <= problems@.len(),
            before == problems_view(problems@),
            problems@ == old(problems)@,
            forall|j: int| 0 <= j < i ==> problems@[j].key != key,
        decreases problems@.len() - i,
    {
        if problems[i].key == key {
            proof {
                assert(before.len() == problems@.len());
                assert(before[i as int] == problem_view(problems@[i as int]));
                lemma_find_key(before, key);
                let fk = find_key(before, key);
                if fk is Some {
                    let f = fk->Some_0;
                    assert(0 <= f < before.len());
                    if f < i {
                        assert(before[f] == problem_view(problems@[f]));
                        assert(false);
                    }
                    if f > i {
                        assert(before[i as int].key != key);
                    }
                } else {
                    assert(before[i as int].key != key);
                }
                assert(find_key(before, key) == Some(i as int));
            }
            let mut contained = false;
            let mut k: usize = 0;
            while k < problems[i].slides.len()
                invariant
                    i < problems@.len(),
                    before == problems_view(problems@),
                    problems@ == old(problems)@,
                    find_key(before, key) == Some(i as int),
                    k <= problems@[i as int].slides@.len(),
                    contained == problems@[i as int].slides@.take(k as int).contains(slide),
                decreases problems@[i as int].slides@.len() - k,
            {
                let ghost t = problems@[i as int].slides@;
                assert(t.take(k + 1) =~= t.take(k as int).push(t[k as int]));
                if problems[i].slides[k] == slide {
                    contained = true;
                    assert(t.take(k + 1)[k as int] == slide);
                }
                proof {
                    if t.take(k as int).contains(slide) {
                        let w = choose|w: int| 0 <= w < t.take(k as int).len() && #[trigger] t.take(k as int)[w] == slide;
                        assert(t.take(k + 1)[w] == slide);
                    }
                    if t.take(k + 1).contains(slide) && !t.take(k as int).contains(slide) {
                        let w = choose|w: int| 0 <= w < t.take(k + 1).len() && #[trigger] t.take(k + 1)[w] == slide;
                        if w < k {
                            assert(t.take(k as int)[w] == slide);
                        }
                    }
                }
                k += 1;
            }
            assert(problems@[i as int].slides@.take(k as int) =~= problems@[i as int].slides@);
            assert(before[i as int].slides == problems@[i as int].slides@);
            if contained {
                assert(before[i as int].slides.contains(slide));
                assert(problems_view(problems@) == add_problem_spec(before, key, name@, error@, slide));
            } else {
                let mut p = problems.remove(i);
                p.slides.push(slide);
                problems.insert(i, p);
                assert(problems_view(problems@) =~= add_problem_spec(before, key, name@, error@, slide));
            }
            return;
        }
        i += 1;
    }
    let mut slides: Vec<usize> = Vec::new();
    slides.push(slide);
    assert(slides@ =~= seq![slide]);
    problems.push(AssetProblem { key, name, error, slides });
    assert(problems_view(problems@) =~= add_problem_spec(before, key, name@, error@, slide));
}


/// What the stage knows of a slide's background asset.
#[derive(Clone, Debug)]
pub struct AssetStatus {
    /// Identifies the asset's path: the resolved path, or the path as
    /// written where it could not be resolved.
    pub key: u64,
    /// The file name of that path, as shown to people.
    pub name: String,
    /// The asset resolved to a path that presentations may read.
    pub resolved: bool,
    /// The resolved file exists and is accessible.
    pub exists: bool,
    /// Why the asset store failed to load it, if it did.
    pub failure: Option<String>,
    /// Why the video could not be prepared, if it could not.
    pub media_error: Option<String>,
}

/// The slide's background is an asset file.
pub open spec fn shows_asset(t: BackgroundType) -> bool {
    t == BackgroundType::Image || t == BackgroundType::Svg || t == BackgroundType::Video
}

pub open spec fn opt_chars(s: Option<String>) -> Option<Seq<char>> {
    match s {
        Some(s) => Some(s@),
        None => None,
    }
}

/// Why the slide's background asset cannot be shown, if it cannot.
pub open spec fn asset_error(slide: Slide, status: AssetStatus) -> Option<Seq<char>> {
    if !shows_asset(slide.background_type) || slide.background is None {
        None
    } else if !status.resolved {
        Some("outside the presentation folder or unsupported"@)
    } else if !status.exists {
        Some("missing or inaccessible"@)
    } else if status.failure is Some {
        opt_chars(status.failure)
    } else if slide.background_type == BackgroundType::Video {
        opt_chars(status.media_error)
    } else {
        None
    }
}

/// The problems found on the first `n` slides.
pub open spec fn problems_upto(slides: Seq<Slide>, statuses: Seq<AssetStatus>, n: nat) -> Seq<ProblemView>
    decreases n,
{
    if n == 0 {
        Seq::empty()
    } else {
        let prev = problems_upto(slides, statuses, (n - 1) as nat);
        match asset_error(slides[n - 1], statuses[n - 1]) {
            Some(e) => add_problem_spec(prev, statuses[n - 1].key, statuses[n - 1].name@, e, n as usize),
            None => prev,
        }
    }
}

/// The numbers of the slides among the first `n` with a problem, in order.
pub open spec fn problem_slides_upto(slides: Seq<Slide>, statuses: Seq<AssetStatus>, n: nat) -> Seq<usize>
    decreases n,
{
    if n == 0 {
        Seq::empty()
    } else {
        let prev = problem_slides_upto(slides, statuses, (n - 1) as nat);
        if asset_error(slides[n - 1], statuses[n - 1]) is Some { prev.push(n as usize) } else { prev }
    }
}

/// One line of the details: file name, error, and the slides.
pub open spec fn problem_line(p: ProblemView) -> Seq<char> {
    p.name + " — "@ + p.error + " (slide"@ + slide_numbers_spec(p.slides) + ")"@
}

/// The lines of all problems, joined by line breaks.
pub open spec fn details_spec(ps: Seq<ProblemView>) -> Seq<char>
    decreases ps.len(),
{
    if ps.len() == 0 {
        Seq::empty()
    } else if ps.len() == 1 {
        problem_line(ps[0])
    } else {
        details_spec(ps.drop_last()) + "\n"@ + problem_line(ps.last())
    }
}

/// The summary's headline for `count` problems on the slides `numbers`.
pub open spec fn message_spec(count: nat, numbers: Seq<usize>) -> Seq<char> {
    decimal(count) + " asset problem"@ + (if count == 1 { ""@ } else { "s"@ }) + " · slide"@ + slide_numbers_spec(numbers)
}

/// A headline and one line per problem asset.
#[derive(Clone, Debug)]
pub struct AssetProblemSummary {
    pub message: String,
    pub details: String,
}

pub open spec fn summary_spec(slides: Seq<Slide>, statuses: Seq<AssetStatus>) -> Option<(Seq<char>, Seq<char>)> {
    let ps = problems_upto(slides, statuses, slides.len());
    if ps.len() == 0 {
        None
    } else {
        Some((message_spec(ps.len(), problem_slides_upto(slides, statuses, slides.len())), details_spec(ps)))
    }
}

fn problem_line_chars(p: &AssetProblem) -> (r: Vec<char>)
    ensures
        r@ == problem_line(problem_view(*p)),
{
    let mut r: Vec<char> = Vec::new();
    append_str(&mut r, p.name.as_str());
    append_str(&mut r, " — ");
    append_str(&mut r, p.error.as_str());
    append_str(&mut r, " (slide");
    let numbers = format_slide_numbers(&p.slides);
    append_str(&mut r, numbers.as_str());
    append_str(&mut r, ")");
    r
}

fn asset_error_of(slide: &Slide, status: &AssetStatus) -> (r: Option<String>)
    ensures
        opt_chars(r) == asset_error(*slide, *status),
{
    let shows = match slide.background_type {
        BackgroundType::Image | BackgroundType::Svg | BackgroundType::Video => true,
        _ => false,
    };
    if !shows || slide.background.is_none() {
        None
    } else if !status.resolved {
        Some(crate::text::owned("outside the presentation folder or unsupported"))
    } else if !status.exists {
        Some(crate::text::owned("missing or inaccessible"))
    } else if let Some(e) = &status.failure {
        Some(e.clone())
    } else if slide.background_type == BackgroundType::Video {
        match &status.media_error {
            Some(e) => Some(e.clone()),
            None => None,
        }
    } else {
        None
    }
}

/// The problems with the slides' background assets, where there are any:
/// `statuses[i]` is what is known of slide `i`'s asset.
pub fn asset_problem_summary(slides: &Vec<Slide>, statuses: &Vec<AssetStatus>) -> (r: Option<AssetProblemSummary>)
    requires
        statuses@.len() == slides@.len(),
    ensures
        match r {
            Some(s) => summary_spec(slides@, statuses@) == Some((s.message@, s.details@)),
            None => summary_spec(slides@, statuses@) is None,
        },
{
    let mut problems: Vec<AssetProblem> = Vec::new();
    let mut numbers: Vec<usize> = Vec::new();
    let mut i: usize = 0;
    assert(problems_view(problems@) =~= Seq::<ProblemView>::empty());
    while i < slides.len()
        invariant
            i <= slides@.len(),
            statuses@.len() == slides@.len(),
            problems_view(problems@) == problems_upto(slides@, statuses@, i as nat),
            numbers@ == problem_slides_upto(slides@, statuses@, i as nat),
        decreases slides@.len() - i,
    {
        let error = asset_error_of(&slides[i], &statuses[i]);
        if let Some(e) = error {
            let st = &statuses[i];
            add_asset_problem(&mut problems, st.key, st.name.clone(), e, i + 1);
            numbers.push(i + 1);
        }
        i += 1;
    }
    let count = problems.len();
    if count == 0 {
        return None;
    }
    let mut message: Vec<char> = decimal_chars(count as u64);
    append_str(&mut message, " asset problem");
    let ghost head = message@;
    if count != 1 {
        append_str(&mut message, "s");
        assert(message@ =~= head + (if count == 1 { ""@ } else { "s"@ }));
    } else {
        proof {
            reveal_strlit("");
        }
        assert(message@ =~= head + (if count == 1 { ""@ } else { "s"@ }));
    }
    append_str(&mut message, " · slide");
    let listed = format_slide_numbers(&numbers);
    append_str(&mut message, listed.as_str());
    assert(message@ =~= message_spec(count as nat, numbers@));
    let mut details: Vec<char> = Vec::new();
    let mut k: usize = 0;
    while k < count
        invariant
            k <= count,
            count == problems@.len(),
            details@ == details_spec(problems_view(problems@).take(k as int)),
        decreases count - k,
    {
        let ghost before = details@;
        let ghost t = problems_view(problems@).take(k + 1);
        assert(t.drop_last() =~= problems_view(problems@).take(k as int));
        assert(t.last() == problem_view(problems@[k as int]));
        if k > 0 {
            append_str(&mut details, "\n");
        }
        let line = problem_line_chars(&problems[k]);
        append_chars(&mut details, &line);
        if k == 0 {
            assert(details@ =~= details_spec(t));
        } else {
            assert(details@ =~= before + "\n"@ + problem_line(t.last()));
        }
        k += 1;
    }
    assert(problems_view(problems@).take(count as int) =~= problems_view(problems@));
    Some(AssetProblemSummary { message: string_of(&message), details: string_of(&details) })
}

/// The assets to load again when the user retries: those that failed to
/// load, then those of the first `n` slides that resolved but are missing or
/// whose video failed, each added once.
pub open spec fn retry_list(failed: Seq<u64>, slides: Seq<Slide>, statuses: Seq<AssetStatus>, n: nat) -> Seq<u64>
    decreases n,
{
    if n == 0 {
        failed
    } else {
        let prev = retry_list(failed, slides, statuses, (n - 1) as nat);
        let s = slides[n - 1];
        let st = statuses[n - 1];
        if shows_asset(s.background_type) && s.background is Some && st.resolved
            && (!st.exists || st.media_error is Some) && !prev.contains(st.key) {
            prev.push(st.key)
        } else {
            prev
        }
    }
}

/// The assets a retry reloads (see `retry_list`); `failed` are the assets
/// the store recorded as failed.
pub fn problem_keys(failed: &Vec<u64>, slides: &Vec<Slide>, statuses: &Vec<AssetStatus>) -> (keys: Vec<u64>)
    requires
        statuses@.len() == slides@.len(),
    ensures
        keys@ == retry_list(failed@, slides@, statuses@, slides@.len()),
{
    let mut keys = failed.clone();
    let mut i: usize = 0;
    while i < slides.len()
        invariant
            i <= slides@.len(),
            statuses@.len() == slides@.len(),
            keys@ == retry_list(failed@, slides@, statuses@, i as nat),
        decreases slides@.len() - i,
    {
        let s = &slides[i];
        let st = &statuses[i];
        let shows = match s.background_type {
            BackgroundType::Image | BackgroundType::Svg | BackgroundType::Video => true,
            _ => false,
        };
        if shows && s.background.is_some() && st.resolved && (!st.exists || st.media_error.is_some()) {
            crate::working_set::push_once(&mut keys, st.key);
        }
        i += 1;
    }
    keys
}

/// The error the stage reports: its own media error, else the camera's,
/// else the camera stream's, else the first of the videos' errors.
pub fn first_media_error(
    stage_error: Option<String>,
    camera_error: Option<String>,
    camera_stream_error: Option<String>,
    video_errors: &Vec<Option<String>>,
) -> (r: Option<String>)
    ensures
        stage_error is Some ==> r == stage_error,
        stage_error is None && camera_error is Some ==> r == camera_error,
        stage_error is None && camera_error is None && camera_stream_error is Some ==> r == camera_stream_error,
        stage_error is None && camera_error is None && camera_stream_error is None ==> match r {
            Some(e) => exists|i: int| 0 <= i < video_errors@.len() && video_errors@[i] == Some(e)
                && forall|j: int| 0 <= j < i ==> video_errors@[j] is None,
            None => forall|j: int| 0 <= j < video_errors@.len() ==> video_errors@[j] is None,
        },
{
    if stage_error.is_some() {
        return stage_error;
    }
    if camera_error.is_some() {
        return camera_error;
    }
    if camera_stream_error.is_some() {
        return camera_stream_error;
    }
    let mut i: usize = 0;
    while i < video_errors.len()
        invariant
            i <= video_errors@.len(),
            stage_error is None && camera_error is None && camera_stream_error is None,
            forall|j: int| 0 <= j < i ==> video_errors@[j] is None,
        decreases video_errors@.len() - i,
    {
        match &video_errors[i] {
            Some(e) => {
                let found = e.clone();
                assert(video_errors@[i as int] == Some(found));
                return Some(found);
            },
            None => {},
        }
        i += 1;
    }
    None
}

} // verus!
