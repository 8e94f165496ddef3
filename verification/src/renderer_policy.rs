//! The renderer workaround for one integrated GPU: which DRM entries are
//! cards and when their ids match.
use vstd::prelude::*;
use crate::text::{chars_of, eq_str, has_prefix, trim_chars, trim_ws};

verus! {

/// A DRM entry name "card" followed by one or more ASCII digits.
pub open spec fn is_card_name(name: Seq<char>) -> bool {
    &&& has_prefix(name, "card"@)
    &&& name.len() > 4
    &&& forall|i: int| 4 <= i < name.len() ==> '0' <= #[trigger] name[i] && name[i] <= '9'
}

/// Whether a DRM entry is a card.
pub fn card_entry(name: &str) -> (r: bool)
    ensures
        r == is_card_name(name@),
{
    let c = chars_of(name);
    if c.len() <= 4 || !(c[0] == 'c' && c[1] == 'a' && c[2] == 'r' && c[3] == 'd') {
        proof {
            reveal_strlit("card");
            if has_prefix(name@, "card"@) && name@.len() > 4 {
                assert(name@.take(4)[0] == 'c' && name@.take(4)[1] == 'a' && name@.take(4)[2] == 'r' && name@.take(4)[3] == 'd');
            }
        }
        return false;
    }
    proof {
        reveal_strlit("card");
        assert(name@.take(4) =~= "card"@);
    }
    let mut i: usize = 4;
    while i < c.len()
        invariant
            4 <= i <= c@.len(),
            c@ == name@,
            forall|k: int| 4 <= k < i ==> '0' <= #[trigger] c@[k] && c@[k] <= '9',
        decreases c@.len() - i,
    {
        if !('0' <= c[i] && c[i] <= '9') {
            return false;
        }
        i += 1;
    }
    true
}

/// The ASCII lower-case form of a character.
pub open spec fn ascii_lower(c: char) -> char {
    if 'A' <= c && c <= 'Z' { ((c as u32) + 32) as char } else { c }
}

/// A device id file's contents, trimmed and in lower case, equal `expected`.
pub open spec fn id_matches_spec(contents: Seq<char>, expected: Seq<char>) -> bool {
    trim_ws(contents).map_values(|c: char| ascii_lower(c)) == expected
}

/// Whether the contents of a vendor or device id file name `expected`.
pub fn id_matches(contents: &str, expected: &str) -> (r: bool)
    ensures
        r == id_matches_spec(contents@, expected@),
{
    let c = chars_of(contents);
    let t = trim_chars(&c);
    let mut lowered: Vec<char> = Vec::new();
    let mut i: usize = 0;
    while i < t.len()
        invariant
            i <= t@.len(),
            lowered@ == t@.take(i as int).map_values(|c: char| ascii_lower(c)),
        decreases t@.len() - i,
    {
        let ch = t[i];
        let l = if 'A' <= ch && ch <= 'Z' { ((ch as u32) + 32) as u8 as char } else { ch };
        assert(l == ascii_lower(ch));
        lowered.push(l);
        i += 1;
        assert(lowered@ =~= t@.take(i as int).map_values(|c: char| ascii_lower(c)));
    }
    assert(t@.take(i as int) =~= t@);
    eq_str(&lowered, expected)
}

/// The GL renderer is forced only where no renderer was chosen and the
/// affected GPU (vendor 0x8086, device 0x9a49) is present.
pub fn should_force_gl(renderer_chosen: bool, affected_gpu: bool) -> (r: bool)
    ensures
        r == (!renderer_chosen && affected_gpu),
{
    !renderer_chosen && affected_gpu
}

} // verus!
