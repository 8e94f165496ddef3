//! The non-interactive presentation check: the messages it reports for
//! source diagnostics and for assets that cannot be used.
use vstd::prelude::*;
use crate::setup::{lemma_lex_total, lemma_lex_trans, less_than, lex_lt};
use crate::text::{append_chars, append_str, chars_of, decimal, decimal_chars, eq_chars, string_of};

verus! {

/// At most this many asset errors are listed.
pub const MAX_LISTED_ERRORS: usize = 20;

/// `parts` joined by `sep`.
pub open spec fn join(parts: Seq<Seq<char>>, sep: Seq<char>) -> Seq<char>
    decreases parts.len(),
{
    if parts.len() == 0 {
        Seq::empty()
    } else if parts.len() == 1 {
        parts[0]
    } else {
        join(parts.drop_last(), sep) + sep + parts.last()
    }
}

pub open spec fn views(v: Seq<String>) -> Seq<Seq<char>> {
    v.map_values(|s: String| s@)
}

/// Joins the strings with `sep`.
pub fn join_strings(parts: &Vec<String>, sep: &str) -> (r: Vec<char>)
    ensures
        r@ == join(views(parts@), sep@),
{
    let mut r: Vec<char> = Vec::new();
    let mut i: usize = 0;
    while i < parts.len()
        invariant
            i <= parts@.len(),
            r@ == join(views(parts@).take(i as int), sep@),
        decreases parts@.len() - i,
    {
        let ghost before = r@;
        let ghost t = views(parts@).take(i + 1);
        assert(t.drop_last() =~= views(parts@).take(i as int));
        if i > 0 {
            append_str(&mut r, sep);
        }
        append_str(&mut r, parts[i].as_str());
        if i == 0 {
            assert(r@ =~= join(t, sep@));
        } else {
            assert(r@ =~= before + sep@ + t.last());
        }
        i += 1;
    }
    assert(views(parts@).take(i as int) =~= views(parts@));
    r
}

/// The error for source diagnostics of error severity, if there are any.
pub fn diagnostics_error(messages: &Vec<String>) -> (r: Option<String>)
    ensures
        messages@.len() == 0 ==> r is None,
        messages@.len() > 0 ==> (r matches Some(m) && m@ == "source diagnostics: "@ + join(views(messages@), "; "@)),
{
    if messages.len() == 0 {
        return None;
    }
    let mut v = chars_of("source diagnostics: ");
    let j = join_strings(messages, "; ");
    append_chars(&mut v, &j);
    Some(string_of(&v))
}

/// The legacy transition file a transition name refers to: the name itself
/// where it ends in ".json", else the name with ".json" added.
pub open spec fn transition_file_spec(name: Seq<char>) -> Seq<char> {
    if name.len() >= 5 && name.subrange(name.len() - 5, name.len() as int) == ".json"@ { name } else { name + ".json"@ }
}

/// The file of a legacy transition.
pub fn transition_file(name: &str) -> (r: String)
    ensures
        r@ == transition_file_spec(name@),
{
    let c = chars_of(name);
    let n = c.len();
    let ends = n >= 5 && c[n - 5] == '.' && c[n - 4] == 'j' && c[n - 3] == 's' && c[n - 2] == 'o' && c[n - 1] == 'n';
    proof {
        reveal_strlit(".json");
        if n >= 5 {
            let tail = name@.subrange(n - 5, n as int);
            if ends {
                assert(tail =~= ".json"@);
            } else if tail == ".json"@ {
                assert(tail[0] == '.' && tail[1] == 'j' && tail[2] == 's' && tail[3] == 'o' && tail[4] == 'n');
            }
        }
    }
    if ends {
        string_of(&c)
    } else {
        let mut v = c;
        append_str(&mut v, ".json");
        string_of(&v)
    }
}

/// What resolving a slide's background asset found.
#[derive(Clone, Copy, Debug, PartialEq, Eq, Structural)]
pub enum Resolution {
    /// The asset is in the presentation folder and exists.
    Present,
    /// The asset resolved but the file is missing.
    Missing,
    /// The asset lies outside the presentation folder or is unsupported.
    Outside,
}

/// The error for a background asset, if it cannot be used.
pub fn background_error(background: &str, resolution: Resolution) -> (r: Option<String>)
    ensures
        resolution == Resolution::Present ==> r is None,
        resolution == Resolution::Missing ==> (r matches Some(m) && m@ == "missing background asset: "@ + background@),
        resolution == Resolution::Outside ==> (r matches Some(m)
            && m@ == "outside-folder or unsupported background asset: "@ + background@),
{
    match resolution {
        Resolution::Present => None,
        Resolution::Missing => {
            let mut v = chars_of("missing background asset: ");
            append_str(&mut v, background);
            Some(string_of(&v))
        },
        Resolution::Outside => {
            let mut v = chars_of("outside-folder or unsupported background asset: ");
            append_str(&mut v, background);
            Some(string_of(&v))
        },
    }
}

/// What checking a legacy transition file found.
#[derive(Clone, Debug)]
pub enum TransitionCheck {
    Valid,
    /// The file did not load: why.
    Invalid(String),
    /// The file lies outside the presentation folder or is unsupported.
    Outside,
}

/// The error for a legacy transition file, if it cannot be used.
pub fn transition_error(filename: &str, check: &TransitionCheck) -> (r: Option<String>)
    ensures
        check is Valid ==> r is None,
        check is Invalid ==> (r matches Some(m)
            && m@ == "invalid transition "@ + filename@ + ": "@ + check->Invalid_0@),
        check is Outside ==> (r matches Some(m) && m@ == "outside-folder or unsupported transition asset: "@ + filename@),
{
    match check {
        TransitionCheck::Valid => None,
        TransitionCheck::Invalid(e) => {
            let mut v = chars_of("invalid transition ");
            append_str(&mut v, filename);
            append_str(&mut v, ": ");
            append_str(&mut v, e.as_str());
            Some(string_of(&v))
        },
        TransitionCheck::Outside => {
            let mut v = chars_of("outside-folder or unsupported transition asset: ");
            append_str(&mut v, filename);
            Some(string_of(&v))
        },
    }
}

/// Strictly increasing in code-point order: sorted, with no repeats.
pub open spec fn strictly_sorted(s: Seq<Seq<char>>) -> bool {
    forall|i: int, j: int| 0 <= i < j < s.len() ==> lex_lt(#[trigger] s[i], #[trigger] s[j])
}

/// The messages sorted, each once (as sorting and removing repeats does).
pub fn sorted_unique(messages: &Vec<String>) -> (r: Vec<String>)
    ensures
        strictly_sorted(views(r@)),
        views(r@).to_set() == views(messages@).to_set(),
{
    let mut out: Vec<String> = Vec::new();
    let mut k: usize = 0;
    while k < messages.len()
        invariant
            k <= messages@.len(),
            strictly_sorted(views(out@)),
            views(out@).to_set() == views(messages@.take(k as int)).to_set(),
        decreases messages@.len() - k,
    {
        let name = chars_of(messages[k].as_str());
        let ghost before = out@;
        let ghost nb = views(before);
        assert(views(messages@.take(k + 1)) =~= views(messages@.take(k as int)).push(name@));
        proof {
            views(messages@.take(k as int)).lemma_push_to_set_commute(name@);
        }
        let mut pos: usize = 0;
        let mut dup = false;
        let mut stop = false;
        while pos < out.len() && !dup && !stop
            invariant
                out@ == before,
                pos <= out@.len(),
                nb == views(out@),
                forall|i: int| 0 <= i < pos ==> lex_lt(#[trigger] nb[i], name@),
                dup ==> pos < out@.len() && nb[pos as int] == name@,
                stop ==> pos < out@.len() && lex_lt(name@, nb[pos as int]),
            decreases out@.len() - pos + (if dup || stop { 0int } else { 1int }),
        {
            let other = chars_of(out[pos].as_str());
            assert(other@ == nb[pos as int]);
            if less_than(&other, &name) {
                pos += 1;
            } else if eq_chars(&other, &name) {
                dup = true;
            } else {
                proof {
                    lemma_lex_total(nb[pos as int], name@);
                }
                stop = true;
            }
        }
        proof {
            assert(nb == views(out@));
        }
        if dup {
            proof {
                assert(views(messages@.take(k + 1)).to_set() =~= views(messages@.take(k as int)).to_set().insert(name@));
                assert(nb.to_set().contains(name@)) by {
                    assert(nb[pos as int] == name@);
                }
                assert(nb.to_set().insert(name@) =~= nb.to_set());
            }
        } else {
            out.insert(pos, messages[k].clone());
            proof {
                let na = views(out@);
                assert(na =~= nb.insert(pos as int, name@));
                assert(views(messages@.take(k + 1)).to_set() =~= views(messages@.take(k as int)).to_set().insert(name@));
                assert(na.to_set() =~= nb.to_set().insert(name@)) by {
                    assert forall|x: Seq<char>| na.to_set().contains(x) <==> nb.to_set().insert(name@).contains(x) by {
                        if na.contains(x) {
                            let w = choose|w: int| 0 <= w < na.len() && na[w] == x;
                            if w < pos {
                                assert(nb[w] == x);
                            } else if w > pos {
                                assert(nb[w - 1] == x);
                            }
                        }
                        if nb.contains(x) {
                            let w = choose|w: int| 0 <= w < nb.len() && nb[w] == x;
                            if w < pos {
                                assert(na[w] == x);
                            } else {
                                assert(na[w + 1] == x);
                            }
                        }
                        if x == name@ {
                            assert(na[pos as int] == x);
                        }
                    }
                }
                assert forall|i: int, j: int| 0 <= i < j < na.len() implies lex_lt(#[trigger] na[i], #[trigger] na[j]) by {
                    if i < pos && j == pos {
                    } else if i == pos && j > pos {
                        if j - 1 > pos {
                            lemma_lex_trans(name@, nb[pos as int], nb[j - 1]);
                        }
                    } else if i < pos && j > pos {
                        assert(lex_lt(nb[i], nb[j - 1]));
                    } else if j < pos {
                        assert(lex_lt(nb[i], nb[j]));
                    } else {
                        assert(lex_lt(nb[i - 1], nb[j - 1]));
                    }
                }
            }
        }
        k += 1;
    }
    assert(messages@.take(k as int) =~= messages@);
    out
}

/// The report of asset errors already sorted and without repeats: the first
/// twenty, one per line, and a count of the rest.
pub open spec fn report_spec(sorted: Seq<Seq<char>>) -> Seq<char> {
    if sorted.len() <= MAX_LISTED_ERRORS {
        join(sorted, "\n"@)
    } else {
        join(sorted.take(MAX_LISTED_ERRORS as int), "\n"@) + "\n…and "@
            + decimal((sorted.len() - MAX_LISTED_ERRORS) as nat) + " more asset errors"@
    }
}

/// The error of the check for these asset errors, if there are any: sorted,
/// each once, at most twenty listed.
pub fn asset_errors_report(errors: &Vec<String>) -> (r: Option<String>)
    ensures
        errors@.len() == 0 ==> r is None,
        errors@.len() > 0 ==> (r matches Some(m) && exists|u: Seq<Seq<char>>|
            strictly_sorted(u) && u.to_set() == views(errors@).to_set() && m@ == #[trigger] report_spec(u)),
{
    if errors.len() == 0 {
        return None;
    }
    let mut sorted = sorted_unique(errors);
    let ghost u = views(sorted@);
    let total = sorted.len();
    if total > MAX_LISTED_ERRORS {
        sorted.truncate(MAX_LISTED_ERRORS);
        assert(views(sorted@) =~= u.take(MAX_LISTED_ERRORS as int));
    }
    let mut v = join_strings(&sorted, "\n");
    if total > MAX_LISTED_ERRORS {
        append_str(&mut v, "\n…and ");
        let d = decimal_chars((total - MAX_LISTED_ERRORS) as u64);
        append_chars(&mut v, &d);
        append_str(&mut v, " more asset errors");
    }
    assert(v@ =~= report_spec(u));
    Some(string_of(&v))
}

} // verus!
