//! The setup window's logic: which files of a folder are presentations, the
//! summary of a chosen presentation, and the audience display choice.
use vstd::prelude::*;
use crate::deck::{BackgroundType, Slide};
use crate::text::{append_chars, append_str, chars_of, decimal, decimal_chars, eq_chars, eq_str, owned, string_of};

verus! {

broadcast use vstd::seq_lib::group_to_multiset_ensures;

pub const MAX_FOLDER_ENTRIES: usize = 10000;
pub const MAX_PRESENTATION_FILES: usize = 1000;

/// How many of `slides` satisfy the kind `kind`: 0 visual assets (images
/// and SVG), 1 videos, 2 non-empty speaker notes.
pub open spec fn is_kind(slide: Slide, kind: int) -> bool {
    if kind == 0 {
        slide.background_type == BackgroundType::Image || slide.background_type == BackgroundType::Svg
    } else if kind == 1 {
        slide.background_type == BackgroundType::Video
    } else {
        slide.speaker_notes matches Some(n) && n@.len() > 0
    }
}

pub open spec fn count_kind(slides: Seq<Slide>, kind: int) -> nat
    decreases slides.len(),
{
    if slides.len() == 0 {
        0
    } else {
        count_kind(slides.drop_last(), kind) + if is_kind(slides.last(), kind) { 1nat } else { 0nat }
    }
}

/// The word, with an "s" unless there is exactly one.
pub open spec fn plural(n: nat, one: Seq<char>, many: Seq<char>) -> Seq<char> {
    if n == 1 { one } else { many }
}

/// "<n> slides · <v> visual assets · <m> videos · speaker notes", leaving
/// out the parts that count nothing.
pub open spec fn details_spec(slides: Seq<Slide>) -> Seq<char> {
    let n = slides.len();
    let visual = count_kind(slides, 0);
    let videos = count_kind(slides, 1);
    let notes = count_kind(slides, 2);
    decimal(n) + " "@ + plural(n, "slide"@, "slides"@)
        + (if visual > 0 { " · "@ + decimal(visual) + " visual "@ + plural(visual, "asset"@, "assets"@) } else { Seq::empty() })
        + (if videos > 0 { " · "@ + decimal(videos) + " "@ + plural(videos, "video"@, "videos"@) } else { Seq::empty() })
        + (if notes > 0 { " · speaker notes"@ } else { Seq::empty() })
}

fn count_of_kind(slides: &Vec<Slide>, kind: u8) -> (n: usize)
    requires
        kind <= 2,
    ensures
        n as nat == count_kind(slides@, kind as int),
{
    let mut n: usize = 0;
    let mut i: usize = 0;
    while i < slides.len()
        invariant
            i <= slides@.len(),
            kind <= 2,
            n <= i,
            n as nat == count_kind(slides@.take(i as int), kind as int),
        decreases slides@.len() - i,
    {
        let s = &slides[i];
        let hit = if kind == 0 {
            s.background_type == BackgroundType::Image || s.background_type == BackgroundType::Svg
        } else if kind == 1 {
            s.background_type == BackgroundType::Video
        } else {
            match &s.speaker_notes {
                Some(notes) => !notes.as_str().is_empty(),
                None => false,
            }
        };
        assert(slides@.take(i + 1).drop_last() =~= slides@.take(i as int));
        if hit {
            n += 1;
        }
        i += 1;
    }
    assert(slides@.take(i as int) =~= slides@);
    n
}

/// `lead`, the count, `mid`, and the word for that count.
fn counted(lead: &str, n: usize, mid: &str, one: &str, many: &str) -> (r: Vec<char>)
    ensures
        r@ == lead@ + decimal(n as nat) + mid@ + plural(n as nat, one@, many@),
{
    let mut v = chars_of(lead);
    let d = decimal_chars(n as u64);
    append_chars(&mut v, &d);
    append_str(&mut v, mid);
    if n == 1 {
        append_str(&mut v, one);
    } else {
        append_str(&mut v, many);
    }
    v
}

/// The one-line summary of a presentation shown before it is opened.
pub fn presentation_details(slides: &Vec<Slide>) -> (d: String)
    ensures
        d@ == details_spec(slides@),
{
    let n = slides.len();
    let visual = count_of_kind(slides, 0);
    let videos = count_of_kind(slides, 1);
    let notes = count_of_kind(slides, 2);
    let mut v = counted("", n, " ", "slide", "slides");
    proof {
        reveal_strlit("");
    }
    if visual > 0 {
        let part = counted(" · ", visual, " visual ", "asset", "assets");
        append_chars(&mut v, &part);
    }
    if videos > 0 {
        let part = counted(" · ", videos, " ", "video", "videos");
        append_chars(&mut v, &part);
    }
    if notes > 0 {
        append_str(&mut v, " · speaker notes");
    }
    assert(v@ =~= details_spec(slides@));
    string_of(&v)
}

/// The choices of the audience display: "Automatic", then the displays.
pub fn audience_monitor_names(monitors: &Vec<String>) -> (names: Vec<String>)
    ensures
        names@.len() == monitors@.len() + 1,
        names@[0]@ == "Automatic"@,
        forall|i: int| 0 <= i < monitors@.len() ==> (#[trigger] names@[i + 1])@ == monitors@[i]@,
{
    let mut names: Vec<String> = Vec::new();
    names.push(owned("Automatic"));
    let mut i: usize = 0;
    while i < monitors.len()
        invariant
            i <= monitors@.len(),
            names@.len() == i + 1,
            names@[0]@ == "Automatic"@,
            forall|k: int| 0 <= k < i ==> (#[trigger] names@[k + 1])@ == monitors@[k]@,
        decreases monitors@.len() - i,
    {
        names.push(monitors[i].clone());
        i += 1;
    }
    names
}

/// The display chosen at position `selected`: none for "Automatic" or a
/// position past the end.
pub fn audience_monitor_name(names: &Vec<String>, selected: u32) -> (r: Option<String>)
    ensures
        match r {
            Some(n) => (selected as int) < names@.len() && names@[selected as int]@ == n@ && n@ != "Automatic"@,
            None => (selected as int) >= names@.len() || names@[selected as int]@ == "Automatic"@,
        },
{
    let i = selected as usize;
    if i >= names.len() {
        return None;
    }
    let c = chars_of(names[i].as_str());
    if eq_str(&c, "Automatic") {
        None
    } else {
        Some(names[i].clone())
    }
}

/// The first position of `name` among `names`.
pub open spec fn position_of(names: Seq<String>, name: Seq<char>) -> Option<int>
    decreases names.len(),
{
    if names.len() == 0 {
        None
    } else {
        match position_of(names.drop_last(), name) {
            Some(i) => Some(i),
            None => if names.last()@ == name { Some(names.len() - 1) } else { None },
        }
    }
}

pub open spec fn opt_chars(s: Option<&str>) -> Option<Seq<char>> {
    match s {
        Some(s) => Some(s@),
        None => None,
    }
}

/// The position to select after the displays changed: the previous choice
/// where it is still connected, else "Automatic" at 0.
pub fn audience_monitor_selection(previous: Option<&str>, names: &Vec<String>) -> (r: u32)
    ensures
        r == match opt_chars(previous) {
            Some(p) => match position_of(names@, p) {
                Some(i) => i as u32,
                None => 0u32,
            },
            None => 0u32,
        },
{
    let p = match previous {
        Some(p) => chars_of(p),
        None => return 0,
    };
    let mut i: usize = 0;
    while i < names.len()
        invariant
            i <= names@.len(),
            previous is Some && p@ == previous->Some_0@,
            position_of(names@.take(i as int), p@) is None,
        decreases names@.len() - i,
    {
        let c = chars_of(names[i].as_str());
        let ghost t = names@.take(i + 1);
        assert(t.drop_last() =~= names@.take(i as int));
        if eq_chars(&c, &p) {
            proof {
                lemma_position_prefix(names@, p@, i as int);
            }
            return i as u32;
        }
        i += 1;
    }
    assert(names@.take(i as int) =~= names@);
    0
}

proof fn lemma_position_prefix(names: Seq<String>, name: Seq<char>, i: int)
    requires
        0 <= i < names.len(),
        position_of(names.take(i), name) is None,
        names[i]@ == name,
    ensures
        position_of(names, name) == Some(i),
    decreases names.len(),
{
    if i < names.len() - 1 {
        assert(names.drop_last().take(i) =~= names.take(i));
        lemma_position_prefix(names.drop_last(), name, i);
    } else {
        assert(names.drop_last() =~= names.take(i));
    }
}

/// A file name whose extension, as `Path::extension` reads it, is "pin":
/// something precedes the final ".pin".
pub open spec fn has_pin_extension(name: Seq<char>) -> bool {
    name.len() > 4 && name.subrange(name.len() - 4, name.len() as int) == ".pin"@
}

fn pin_extension(name: &str) -> (r: bool)
    ensures
        r == has_pin_extension(name@),
{
    let c = chars_of(name);
    let n = c.len();
    if n <= 4 {
        return false;
    }
    let r = c[n - 4] == '.' && c[n - 3] == 'p' && c[n - 2] == 'i' && c[n - 1] == 'n';
    proof {
        reveal_strlit(".pin");
        let tail = name@.subrange(n - 4, n as int);
        if r {
            assert(tail =~= ".pin"@);
        } else {
            if tail == ".pin"@ {
                assert(tail[0] == '.' && tail[1] == 'p' && tail[2] == 'i' && tail[3] == 'n');
            }
        }
    }
    r
}

/// One entry of a folder: its name and whether it is a regular file.
#[derive(Clone, Debug)]
pub struct FolderEntry {
    pub name: String,
    pub is_file: bool,
}

/// `a` comes strictly before `b` in the order of their code points (the
/// byte order of their UTF-8 forms).
pub open spec fn lex_lt(a: Seq<char>, b: Seq<char>) -> bool
    decreases a.len(),
{
    if a.len() == 0 {
        b.len() > 0
    } else if b.len() == 0 {
        false
    } else if a[0] != b[0] {
        a[0] < b[0]
    } else {
        lex_lt(a.drop_first(), b.drop_first())
    }
}

pub(crate) proof fn lemma_lex_total(a: Seq<char>, b: Seq<char>)
    ensures
        lex_lt(a, b) || lex_lt(b, a) || a == b,
        !(lex_lt(a, b) && lex_lt(b, a)),
    decreases a.len(),
{
    if a.len() > 0 && b.len() > 0 && a[0] == b[0] {
        lemma_lex_total(a.drop_first(), b.drop_first());
        if a.drop_first() == b.drop_first() {
            assert(a =~= seq![a[0]] + a.drop_first());
            assert(b =~= seq![b[0]] + b.drop_first());
        }
    }
    if a.len() == 0 && b.len() == 0 {
        assert(a =~= b);
    }
}

pub(crate) proof fn lemma_lex_trans(a: Seq<char>, b: Seq<char>, c: Seq<char>)
    requires
        lex_lt(a, b),
        lex_lt(b, c),
    ensures
        lex_lt(a, c),
    decreases a.len(),
{
    if a.len() > 0 && b.len() > 0 && c.len() > 0 && a[0] == b[0] && b[0] == c[0] {
        lemma_lex_trans(a.drop_first(), b.drop_first(), c.drop_first());
    }
}

/// `s` is in order: no name comes before an earlier one.
pub open spec fn sorted(s: Seq<Seq<char>>) -> bool {
    forall|i: int, j: int| 0 <= i < j < s.len() ==> !lex_lt(#[trigger] s[j], #[trigger] s[i])
}

pub open spec fn names_of(v: Seq<String>) -> Seq<Seq<char>> {
    v.map_values(|s: String| s@)
}

/// The names of the regular files with the "pin" extension, in order.
pub open spec fn pin_files(entries: Seq<FolderEntry>) -> Seq<Seq<char>>
    decreases entries.len(),
{
    if entries.len() == 0 {
        Seq::empty()
    } else {
        let prev = pin_files(entries.drop_last());
        let e = entries.last();
        if e.is_file && has_pin_extension(e.name@) { prev.push(e.name@) } else { prev }
    }
}

/// Why a folder is refused, if it is: too many entries to look at, or too
/// many presentations.
pub open spec fn folder_error(folder: Seq<char>, entries: Seq<FolderEntry>) -> Option<Seq<char>> {
    if entries.len() > MAX_FOLDER_ENTRIES {
        if pin_files(entries.take(MAX_FOLDER_ENTRIES as int)).len() > MAX_PRESENTATION_FILES {
            Some(folder + " contains more than 1000 presentation files"@)
        } else {
            Some(folder + " contains too many entries to inspect safely"@)
        }
    } else if pin_files(entries).len() > MAX_PRESENTATION_FILES {
        Some(folder + " contains more than 1000 presentation files"@)
    } else {
        None
    }
}

fn find_slot(sorted_names: &Vec<String>, name: &Vec<char>) -> (pos: usize)
    ensures
        pos <= sorted_names@.len(),
        forall|i: int| 0 <= i < pos ==> !lex_lt(name@, #[trigger] sorted_names@[i]@),
        pos < sorted_names@.len() ==> lex_lt(name@, sorted_names@[pos as int]@),
{
    let mut i: usize = 0;
    while i < sorted_names.len()
        invariant
            i <= sorted_names@.len(),
            forall|k: int| 0 <= k < i ==> !lex_lt(name@, #[trigger] sorted_names@[k]@),
        decreases sorted_names@.len() - i,
    {
        let other = chars_of(sorted_names[i].as_str());
        if less_than(name, &other) {
            return i;
        }
        i += 1;
    }
    i
}

pub(crate) fn less_than(a: &Vec<char>, b: &Vec<char>) -> (r: bool)
    ensures
        r == lex_lt(a@, b@),
{
    let mut i: usize = 0;
    assert(a@.skip(0) =~= a@);
    assert(b@.skip(0) =~= b@);
    while i < a.len() && i < b.len()
        invariant
            i <= a@.len(),
            i <= b@.len(),
            lex_lt(a@, b@) == lex_lt(a@.skip(i as int), b@.skip(i as int)),
        decreases a@.len() - i,
    {
        if a[i] != b[i] {
            return a[i] < b[i];
        }
        assert(a@.skip(i as int).drop_first() =~= a@.skip(i + 1));
        assert(b@.skip(i as int).drop_first() =~= b@.skip(i + 1));
        i += 1;
    }
    i == a.len() && i < b.len()
}

/// The presentations of a folder (see `folder_error` and `pin_files`),
/// sorted by name; `folder` is the folder as shown in messages.
pub fn select_presentations(folder: &str, entries: &Vec<FolderEntry>) -> (r: Result<Vec<String>, String>)
    ensures
        match r {
            Ok(names) => folder_error(folder@, entries@) is None
                && sorted(names_of(names@))
                && names_of(names@).to_multiset() == pin_files(entries@).to_multiset(),
            Err(e) => folder_error(folder@, entries@) == Some(e@),
        },
{
    let mut found: Vec<String> = Vec::new();
    let mut i: usize = 0;
    while i < entries.len()
        invariant
            i <= entries@.len(),
            i <= MAX_FOLDER_ENTRIES,
            names_of(found@) == pin_files(entries@.take(i as int)),
            found@.len() <= MAX_PRESENTATION_FILES,
        decreases entries@.len() - i,
    {
        if i >= MAX_FOLDER_ENTRIES {
            let mut m = chars_of(folder);
            append_str(&mut m, " contains too many entries to inspect safely");
            assert(entries@.len() > MAX_FOLDER_ENTRIES);
            return Err(string_of(&m));
        }
        let e = &entries[i];
        assert(entries@.take(i + 1).drop_last() =~= entries@.take(i as int));
        if e.is_file && pin_extension(e.name.as_str()) {
            let ghost before = found@;
            found.push(e.name.clone());
            assert(names_of(found@) =~= names_of(before).push(e.name@));
            if found.len() > MAX_PRESENTATION_FILES {
                let mut m = chars_of(folder);
                append_str(&mut m, " contains more than 1000 presentation files");
                proof {
                    lemma_pin_files_grow(entries@, i + 1);
                }
                return Err(string_of(&m));
            }
        }
        i += 1;
    }
    assert(entries@.take(i as int) =~= entries@);
    let mut sorted_names: Vec<String> = Vec::new();
    let mut k: usize = 0;
    while k < found.len()
        invariant
            k <= found@.len(),
            sorted(names_of(sorted_names@)),
            names_of(sorted_names@).to_multiset() == names_of(found@.take(k as int)).to_multiset(),
        decreases found@.len() - k,
    {
        let name = chars_of(found[k].as_str());
        let pos = find_slot(&sorted_names, &name);
        let ghost before = sorted_names@;
        sorted_names.insert(pos, found[k].clone());
        proof {
            let nb = names_of(before);
            let na = names_of(sorted_names@);
            assert(na =~= nb.insert(pos as int, name@));
            assert(names_of(found@.take(k + 1)) =~= names_of(found@.take(k as int)).push(name@));
            assert forall|x: int, y: int| 0 <= x < y < na.len() implies !lex_lt(#[trigger] na[y], #[trigger] na[x]) by {
                if x < pos && y == pos {
                    lemma_lex_total(name@, nb[x]);
                } else if x == pos && y > pos {
                    lemma_lex_total(nb[pos as int], name@);
                    if lex_lt(nb[y - 1], name@) {
                        if y - 1 > pos {
                            lemma_lex_total(nb[y - 1], nb[pos as int]);
                            if lex_lt(nb[y - 1], nb[pos as int]) {
                            } else if nb[y - 1] == nb[pos as int] {
                                lemma_lex_total(name@, nb[pos as int]);
                            } else {
                                lemma_lex_trans(name@, nb[pos as int], nb[y - 1]);
                                lemma_lex_total(name@, nb[y - 1]);
                            }
                        } else {
                            lemma_lex_total(name@, nb[pos as int]);
                        }
                    }
                } else if x < pos && y > pos {
                    assert(!lex_lt(nb[y - 1], nb[x]));
                } else if y < pos {
                    assert(!lex_lt(nb[y], nb[x]));
                } else {
                    assert(!lex_lt(nb[y - 1], nb[x - 1]));
                }
            }
        }
        k += 1;
    }
    assert(found@.take(k as int) =~= found@);
    Ok(sorted_names)
}

proof fn lemma_pin_files_grow(entries: Seq<FolderEntry>, n: int)
    requires
        0 <= n <= entries.len(),
    ensures
        pin_files(entries.take(n)).len() <= pin_files(entries).len(),
        n <= MAX_FOLDER_ENTRIES ==> pin_files(entries.take(n)).len() <= pin_files(entries.take(
            if entries.len() > MAX_FOLDER_ENTRIES { MAX_FOLDER_ENTRIES as int } else { entries.len() as int },
        )).len(),
    decreases entries.len() - n,
{
    if n < entries.len() {
        lemma_pin_files_grow(entries, n + 1);
        assert(entries.take(n + 1).drop_last() =~= entries.take(n));
    } else {
        assert(entries.take(n) =~= entries);
    }
    if n <= MAX_FOLDER_ENTRIES {
        let m = if entries.len() > MAX_FOLDER_ENTRIES { MAX_FOLDER_ENTRIES as int } else { entries.len() as int };
        lemma_pin_files_prefix(entries.take(m), n);
        assert(entries.take(m).take(n) =~= entries.take(n));
    }
}

proof fn lemma_pin_files_prefix(entries: Seq<FolderEntry>, n: int)
    requires
        0 <= n <= entries.len(),
    ensures
        pin_files(entries.take(n)).len() <= pin_files(entries).len(),
    decreases entries.len() - n,
{
    if n < entries.len() {
        lemma_pin_files_prefix(entries, n + 1);
        assert(entries.take(n + 1).drop_last() =~= entries.take(n));
    } else {
        assert(entries.take(n) =~= entries);
    }
}

} // verus!
