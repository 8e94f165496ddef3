//! Unix path text read the way `std::path::Path` reads it: components,
//! prefixes, file names, stems and extensions.
use vstd::prelude::*;
use crate::check::join;
use crate::text::{append_chars, append_str, chars_of, decimal, decimal_chars, eq_chars, string_of};

verus! {

/// The component a segment between slashes makes: none for an empty
/// segment or ".".
pub open spec fn keep(segment: Seq<char>) -> Seq<Seq<char>> {
    if segment.len() == 0 || segment == "."@ { Seq::empty() } else { seq![segment] }
}

/// The position of the first slash at or after `from`.
pub open spec fn find_slash(s: Seq<char>, from: int) -> Option<int>
    decreases s.len() - from,
{
    if from < 0 || from >= s.len() {
        None
    } else if s[from] == '/' {
        Some(from)
    } else {
        find_slash(s, from + 1)
    }
}

/// The named components of a path: the segments between slashes, without
/// empty ones and ".".
pub open spec fn components(s: Seq<char>) -> Seq<Seq<char>>
    decreases s.len(),
{
    match find_slash(s, 0) {
        None => keep(s),
        Some(i) => if 0 <= i < s.len() { keep(s.take(i)) + components(s.skip(i + 1)) } else { Seq::empty() },
    }
}

/// The path starts at the root.
pub open spec fn is_absolute(s: Seq<char>) -> bool {
    s.len() > 0 && s[0] == '/'
}

/// `Path::starts_with`: both start at the root or neither does, and the
/// components of `base` begin those of `path`.
pub open spec fn path_starts_with(path: Seq<char>, base: Seq<char>) -> bool {
    &&& is_absolute(path) == is_absolute(base)
    &&& components(base).len() <= components(path).len()
    &&& components(path).take(components(base).len() as int) == components(base)
}

/// `Path::file_name`: the last component, unless it is "..".
pub open spec fn file_name_spec(path: Seq<char>) -> Option<Seq<char>> {
    let c = components(path);
    if c.len() == 0 || c.last() == ".."@ { None } else { Some(c.last()) }
}

fn segment_component(seg: &Vec<char>) -> (r: bool)
    ensures
        r == (keep(seg@).len() == 1),
{
    proof {
        reveal_strlit(".");
    }
    let r = !(seg.len() == 0 || (seg.len() == 1 && seg[0] == '.'));
    proof {
        if seg@.len() == 1 && seg@[0] == '.' {
            assert(seg@ =~= "."@);
        }
    }
    r
}

/// The named components of a path.
pub fn path_components(path: &str) -> (r: Vec<Vec<char>>)
    ensures
        r@.map_values(|c: Vec<char>| c@) == components(path@),
{
    let s = chars_of(path);
    let n = s.len();
    let mut out: Vec<Vec<char>> = Vec::new();
    let mut start: usize = 0;
    assert(s@.skip(0) =~= s@);
    let mut done = false;
    while !done
        invariant
            start <= n == s@.len(),
            s@ == path@,
            !done ==> components(path@) == out@.map_values(|c: Vec<char>| c@) + components(s@.skip(start as int)),
            done ==> components(path@) == out@.map_values(|c: Vec<char>| c@),
        decreases n - start + (if done { 0int } else { 1int }),
    {
        let ghost rest = s@.skip(start as int);
        let mut end = start;
        while end < n && s[end] != '/'
            invariant
                start <= end <= n == s@.len(),
                rest == s@.skip(start as int),
                find_slash(rest, 0) == find_slash(rest, end - start),
            decreases n - end,
        {
            end += 1;
        }
        let mut seg: Vec<char> = Vec::new();
        let mut k = start;
        while k < end
            invariant
                start <= k <= end <= n == s@.len(),
                seg@ == s@.subrange(start as int, k as int),
            decreases end - k,
        {
            seg.push(s[k]);
            k += 1;
            assert(seg@ =~= s@.subrange(start as int, k as int));
        }
        let ghost before = out@.map_values(|c: Vec<char>| c@);
        let keep_it = segment_component(&seg);
        if keep_it {
            out.push(seg);
        }
        proof {
            let seg_v = s@.subrange(start as int, end as int);
            if keep_it {
                assert(keep(seg_v) =~= seq![seg_v]);
                assert(out@.map_values(|c: Vec<char>| c@) =~= before + keep(seg_v));
            } else {
                assert(keep(seg_v) =~= Seq::<Seq<char>>::empty());
                assert(out@.map_values(|c: Vec<char>| c@) =~= before + keep(seg_v));
            }
            if end < n {
                assert(rest.take(end - start) =~= seg_v);
                assert(rest.skip(end - start + 1) =~= s@.skip(end + 1));
                assert(components(rest) == keep(seg_v) + components(s@.skip(end + 1)));
            } else {
                assert(rest =~= seg_v);
                assert(components(rest) == keep(seg_v));
            }
        }
        if end < n {
            proof {
                let seg_v = s@.subrange(start as int, end as int);
                assert(before + (keep(seg_v) + components(s@.skip(end + 1)))
                    =~= (before + keep(seg_v)) + components(s@.skip(end + 1)));
            }
            start = end + 1;
        } else {
            done = true;
        }
    }
    out
}

/// `Path::starts_with` on path text.
pub fn starts_with(path: &str, base: &str) -> (r: bool)
    ensures
        r == path_starts_with(path@, base@),
{
    let p = path_components(path);
    let b = path_components(base);
    let ghost pv = p@.map_values(|c: Vec<char>| c@);
    let ghost bv = b@.map_values(|c: Vec<char>| c@);
    let pa = absolute(path);
    let ba = absolute(base);
    if pa != ba || b.len() > p.len() {
        return false;
    }
    let mut i: usize = 0;
    while i < b.len()
        invariant
            i <= b@.len() <= p@.len(),
            pv == p@.map_values(|c: Vec<char>| c@),
            bv == b@.map_values(|c: Vec<char>| c@),
            pv == components(path@),
            bv == components(base@),
            is_absolute(path@) == is_absolute(base@),
            forall|k: int| 0 <= k < i ==> pv[k] == bv[k],
        decreases b@.len() - i,
    {
        if !eq_chars(&p[i], &b[i]) {
            assert(pv.take(bv.len() as int)[i as int] != bv[i as int]);
            return false;
        }
        i += 1;
    }
    assert(pv.take(bv.len() as int) =~= bv);
    true
}

/// Whether the path starts at the root.
pub fn absolute(path: &str) -> (r: bool)
    ensures
        r == is_absolute(path@),
{
    let c = chars_of(path);
    c.len() > 0 && c[0] == '/'
}

/// The file name of a path, where it has one.
pub fn file_name(path: &str) -> (r: Option<String>)
    ensures
        match r {
            Some(n) => file_name_spec(path@) == Some(n@),
            None => file_name_spec(path@) is None,
        },
{
    let c = path_components(path);
    let ghost cv = c@.map_values(|x: Vec<char>| x@);
    if c.len() == 0 {
        return None;
    }
    let last = &c[c.len() - 1];
    assert(cv.last() == last@);
    proof {
        reveal_strlit("..");
    }
    if last.len() == 2 && last[0] == '.' && last[1] == '.' {
        assert(last@ =~= ".."@);
        return None;
    }
    proof {
        if last@ == ".."@ {
            assert(last@[0] == '.' && last@[1] == '.');
        }
    }
    Some(string_of(last))
}

/// The position of the last '.' in `s`.
pub open spec fn last_dot(s: Seq<char>) -> Option<int>
    decreases s.len(),
{
    if s.len() == 0 {
        None
    } else if s.last() == '.' {
        Some(s.len() - 1)
    } else {
        last_dot(s.drop_last())
    }
}

/// A file name split as `Path::file_stem` and `Path::extension` split it:
/// at the last '.', unless nothing precedes that dot (or the name is "..").
pub open spec fn stem_and_extension(name: Seq<char>) -> (Seq<char>, Option<Seq<char>>) {
    if name == ".."@ {
        (name, None)
    } else {
        match last_dot(name) {
            None => (name, None),
            Some(i) => if i <= 0 || i >= name.len() { (name, None) } else { (name.take(i), Some(name.skip(i + 1))) },
        }
    }
}

fn find_last_dot(s: &Vec<char>) -> (r: Option<usize>)
    ensures
        match r {
            Some(i) => last_dot(s@) == Some(i as int) && i < s@.len(),
            None => last_dot(s@) is None,
        },
{
    let mut j = s.len();
    assert(s@.take(j as int) =~= s@);
    while j > 0
        invariant
            j <= s@.len(),
            last_dot(s@) == last_dot(s@.take(j as int)),
        decreases j,
    {
        assert(s@.take(j as int).drop_last() =~= s@.take(j - 1));
        if s[j - 1] == '.' {
            return Some(j - 1);
        }
        j -= 1;
    }
    None
}

fn split_name(name: &Vec<char>) -> (r: (Vec<char>, Option<Vec<char>>))
    ensures
        r.0@ == stem_and_extension(name@).0,
        match r.1 {
            Some(e) => stem_and_extension(name@).1 == Some(e@),
            None => stem_and_extension(name@).1 is None,
        },
{
    proof {
        reveal_strlit("..");
    }
    if name.len() == 2 && name[0] == '.' && name[1] == '.' {
        assert(name@ =~= ".."@);
        return (name.clone(), None);
    }
    proof {
        if name@ == ".."@ {
            assert(name@[0] == '.' && name@[1] == '.');
        }
    }
    match find_last_dot(name) {
        None => (name.clone(), None),
        Some(i) => {
            if i == 0 {
                (name.clone(), None)
            } else {
                let mut stem: Vec<char> = Vec::new();
                let mut k: usize = 0;
                while k < i
                    invariant
                        k <= i < name@.len(),
                        stem@ == name@.take(k as int),
                    decreases i - k,
                {
                    stem.push(name[k]);
                    k += 1;
                    assert(stem@ =~= name@.take(k as int));
                }
                let ext = crate::text::skip_chars(name, i + 1);
                (stem, Some(ext))
            }
        },
    }
}

/// "Compose Presentation — " and the file name of `path` (or "Presentation").
pub fn editor_title(path: &str) -> (t: String)
    ensures
        t@ == "Compose Presentation — "@ + match file_name_spec(path@) {
            Some(n) => if n.len() > 0 { n } else { "Presentation"@ },
            None => "Presentation"@,
        },
{
    let mut v = chars_of("Compose Presentation — ");
    match file_name(path) {
        Some(n) => {
            if n.as_str().is_empty() {
                append_str(&mut v, "Presentation");
            } else {
                append_str(&mut v, n.as_str());
            }
        },
        None => append_str(&mut v, "Presentation"),
    }
    string_of(&v)
}

/// The name tried for an imported asset named `filename` when that name is
/// taken: "<stem>-<suffix>.<extension>", or "<stem>-<suffix>" without an
/// extension ("asset" stands for a missing stem).
pub open spec fn candidate_spec(filename: Seq<char>, suffix: u64) -> Seq<char> {
    match file_name_spec(filename) {
        Some(n) => {
            let (stem, ext) = stem_and_extension(n);
            stem + "-"@ + decimal(suffix as nat) + match ext {
                Some(e) => "."@ + e,
                None => Seq::empty(),
            }
        },
        None => "asset-"@ + decimal(suffix as nat),
    }
}

/// The file name tried for an imported asset with collision number `suffix`.
pub fn asset_candidate_name(filename: &str, suffix: u64) -> (r: String)
    ensures
        r@ == candidate_spec(filename@, suffix),
{
    let d = decimal_chars(suffix);
    match file_name(filename) {
        Some(n) => {
            let c = chars_of(n.as_str());
            let (stem, ext) = split_name(&c);
            let mut v = stem;
            append_str(&mut v, "-");
            append_chars(&mut v, &d);
            match ext {
                Some(e) => {
                    append_str(&mut v, ".");
                    append_chars(&mut v, &e);
                },
                None => {},
            }
            string_of(&v)
        },
        None => {
            let mut v = chars_of("asset-");
            append_chars(&mut v, &d);
            string_of(&v)
        },
    }
}

/// Where presentations bundled with the application live; they are never
/// watched for changes.
pub fn is_read_only_source(path: &str) -> (r: bool)
    ensures
        r == path_starts_with(path@, "/app/share/pinpoint"@),
{
    starts_with(path, "/app/share/pinpoint")
}

/// A relative path that begins with the "." component ("." or "./...").
pub open spec fn leading_current(path: Seq<char>) -> bool {
    !is_absolute(path) && path.len() > 0 && path[0] == '.' && (path.len() == 1 || path[1] == '/')
}

/// The components after the root, a leading "." kept as `Path` keeps it.
pub open spec fn relative_parts(path: Seq<char>) -> Seq<Seq<char>> {
    (if leading_current(path) { seq!["."@] } else { Seq::empty() }) + components(path)
}

/// `Path::parent`: the path without its last component; none for the root
/// or an empty path. Given as text, its components joined by '/'.
pub open spec fn parent_spec(path: Seq<char>) -> Option<Seq<char>> {
    let parts = relative_parts(path);
    if parts.len() == 0 {
        None
    } else {
        Some((if is_absolute(path) { "/"@ } else { Seq::empty() }) + join(parts.drop_last(), "/"@))
    }
}

/// The folder holding `path`, where it has one (`Path::parent`).
pub fn parent(path: &str) -> (r: Option<String>)
    ensures
        match r {
            Some(p) => parent_spec(path@) == Some(p@),
            None => parent_spec(path@) is None,
        },
{
    let c = chars_of(path);
    let comps = path_components(path);
    let ghost cv = comps@.map_values(|x: Vec<char>| x@);
    let lead = c.len() > 0 && c[0] == '.' && (c.len() == 1 || c[1] == '/') && !absolute(path);
    let mut parts: Vec<Vec<char>> = Vec::new();
    if lead {
        parts.push(chars_of("."));
    }
    let mut i: usize = 0;
    while i < comps.len()
        invariant
            i <= comps@.len(),
            cv == comps@.map_values(|x: Vec<char>| x@),
            parts@.map_values(|x: Vec<char>| x@) == (if lead { seq!["."@] } else { Seq::<Seq<char>>::empty() }) + cv.take(i as int),
        decreases comps@.len() - i,
    {
        let ghost before = parts@.map_values(|x: Vec<char>| x@);
        parts.push(comps[i].clone());
        assert(parts@.map_values(|x: Vec<char>| x@) =~= before.push(comps@[i as int]@));
        assert(cv.take(i + 1) =~= cv.take(i as int).push(cv[i as int]));
        i += 1;
    }
    assert(cv.take(i as int) =~= cv);
    let ghost pv = parts@.map_values(|x: Vec<char>| x@);
    assert(lead == leading_current(path@));
    assert(pv == relative_parts(path@));
    if parts.len() == 0 {
        return None;
    }
    let mut v: Vec<char> = Vec::new();
    let abs = absolute(path);
    if abs {
        v.push('/');
    }
    let ghost head = v@;
    proof {
        reveal_strlit("/");
        if abs {
            assert(head =~= "/"@);
        } else {
            assert(head =~= Seq::<char>::empty());
        }
    }
    let n = parts.len() - 1;
    let mut k: usize = 0;
    while k < n
        invariant
            k <= n,
            n + 1 == parts@.len(),
            pv == parts@.map_values(|x: Vec<char>| x@),
            v@ == head + join(pv.drop_last().take(k as int), "/"@),
        decreases n - k,
    {
        let ghost before = v@;
        let ghost t = pv.drop_last().take(k + 1);
        assert(t.drop_last() =~= pv.drop_last().take(k as int));
        assert(t.last() == parts@[k as int]@);
        if k > 0 {
            append_str(&mut v, "/");
        }
        append_chars(&mut v, &parts[k]);
        if k == 0 {
            assert(v@ =~= head + join(t, "/"@));
        } else {
            assert(v@ =~= before + "/"@ + t.last());
            assert(v@ =~= head + join(t, "/"@));
        }
        k += 1;
    }
    assert(pv.drop_last().take(n as int) =~= pv.drop_last());
    Some(string_of(&v))
}

} // verus!
