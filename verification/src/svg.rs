//! A cheap structural check of SVG sources before they reach the SVG
//! renderer: document types (and so entity expansion) are refused, and
//! element count and nesting depth are bounded.
use vstd::prelude::*;

verus! {

pub const MAX_SVG_ELEMENTS: usize = 100000;
pub const MAX_SVG_DEPTH: usize = 256;

/// The ASCII lower-case form of a byte.
pub open spec fn lower(b: u8) -> u8 {
    if 65 <= b && b <= 90 { (b + 32) as u8 } else { b }
}

/// The bytes "<!doctype".
pub open spec fn doctype() -> Seq<u8> {
    seq![60u8, 33u8, 100u8, 111u8, 99u8, 116u8, 121u8, 112u8, 101u8]
}

/// The nine bytes at `i` spell "<!doctype" in any mix of case.
pub open spec fn doctype_at(src: Seq<u8>, i: int) -> bool {
    0 <= i && i + 9 <= src.len() && forall|k: int| 0 <= k < 9 ==> lower(#[trigger] src[i + k]) == doctype()[k]
}

/// The source declares a document type somewhere.
pub open spec fn has_doctype(src: Seq<u8>) -> bool {
    exists|i: int| doctype_at(src, i)
}

/// The first position at or after `from` that holds `b`.
pub open spec fn find_from(src: Seq<u8>, from: int, b: u8) -> Option<int>
    decreases src.len() - from,
{
    if from < 0 || from >= src.len() {
        None
    } else if src[from] == b {
        Some(from)
    } else {
        find_from(src, from + 1, b)
    }
}

/// ASCII whitespace as `u8::is_ascii_whitespace` has it.
pub open spec fn is_ascii_ws(b: u8) -> bool {
    b == 32 || b == 9 || b == 10 || b == 12 || b == 13
}

/// The last byte of `tag` that is not whitespace is a slash.
pub open spec fn ends_with_slash(tag: Seq<u8>) -> bool
    decreases tag.len(),
{
    if tag.len() == 0 {
        false
    } else if is_ascii_ws(tag.last()) {
        ends_with_slash(tag.drop_last())
    } else {
        tag.last() == 47
    }
}

/// Why a source is refused.
#[derive(Clone, Copy, Debug, PartialEq, Eq, Structural)]
pub enum SvgIssue {
    DocumentType,
    UnterminatedTag,
    TooManyElements,
    TooDeep,
}

impl SvgIssue {
    pub open spec fn message_spec(self) -> Seq<char> {
        match self {
            SvgIssue::DocumentType => "SVG document types are not supported"@,
            SvgIssue::UnterminatedTag => "SVG contains an unterminated tag"@,
            SvgIssue::TooManyElements => "SVG exceeds the 100000 element safety limit"@,
            SvgIssue::TooDeep => "SVG exceeds the 256 level nesting safety limit"@,
        }
    }

    /// The message shown for the issue.
    pub fn message(self) -> (m: String)
        ensures
            m@ == self.message_spec(),
    {
        match self {
            SvgIssue::DocumentType => crate::text::owned("SVG document types are not supported"),
            SvgIssue::UnterminatedTag => crate::text::owned("SVG contains an unterminated tag"),
            SvgIssue::TooManyElements => crate::text::owned("SVG exceeds the 100000 element safety limit"),
            SvgIssue::TooDeep => crate::text::owned("SVG exceeds the 256 level nesting safety limit"),
        }
    }
}

/// The outcome of reading the tags from `cursor` on, `depth` elements being
/// open and `elements` started so far. Comments, declarations and
/// processing instructions are skipped; a closing tag closes one level; any
/// other tag is an element, which opens a level unless it closes itself.
pub open spec fn scan(src: Seq<u8>, cursor: int, depth: nat, elements: nat) -> Option<SvgIssue>
    decreases src.len() - cursor,
{
    if cursor < 0 || cursor > src.len() {
        None
    } else {
        match find_from(src, cursor, 60) {
            None => None,
            Some(start) => match find_from(src, start, 62) {
                None => Some(SvgIssue::UnterminatedTag),
                Some(end) => {
                    let tag = src.subrange(start + 1, end);
                    let next = end + 1;
                    if next <= cursor || next > src.len() {
                        None
                    } else if tag.len() > 0 && (tag[0] == 33 || tag[0] == 63) {
                        scan(src, next, depth, elements)
                    } else if tag.len() > 0 && tag[0] == 47 {
                        scan(src, next, if depth > 0 { (depth - 1) as nat } else { 0 }, elements)
                    } else if elements + 1 > MAX_SVG_ELEMENTS {
                        Some(SvgIssue::TooManyElements)
                    } else if ends_with_slash(tag) {
                        scan(src, next, depth, elements + 1)
                    } else if depth + 1 > MAX_SVG_DEPTH {
                        Some(SvgIssue::TooDeep)
                    } else {
                        scan(src, next, depth + 1, elements + 1)
                    }
                },
            },
        }
    }
}

/// Why the source is refused, if it is.
pub open spec fn svg_issue(src: Seq<u8>) -> Option<SvgIssue> {
    if has_doctype(src) {
        Some(SvgIssue::DocumentType)
    } else {
        scan(src, 0, 0, 0)
    }
}

proof fn lemma_find_from(src: Seq<u8>, from: int, b: u8)
    requires
        0 <= from,
    ensures
        match find_from(src, from, b) {
            Some(i) => from <= i < src.len() && src[i] == b && forall|k: int| from <= k < i ==> src[k] != b,
            None => forall|k: int| from <= k < src.len() ==> src[k] != b,
        },
    decreases src.len() - from,
{
    if from < src.len() && src[from] != b {
        lemma_find_from(src, from + 1, b);
    }
}

fn find_byte(src: &[u8], from: usize, b: u8) -> (r: Option<usize>)
    requires
        from <= src@.len(),
    ensures
        match r {
            Some(i) => find_from(src@, from as int, b) == Some(i as int),
            None => find_from(src@, from as int, b) is None,
        },
{
    let mut i = from;
    while i < src.len()
        invariant
            from <= i <= src@.len(),
            find_from(src@, from as int, b) == find_from(src@, i as int, b),
        decreases src@.len() - i,
    {
        if src[i] == b {
            return Some(i);
        }
        i += 1;
    }
    None
}

fn lower_byte(b: u8) -> (r: u8)
    ensures
        r == lower(b),
{
    if 65 <= b && b <= 90 { b + 32 } else { b }
}

fn doctype_anywhere(src: &[u8]) -> (r: bool)
    ensures
        r == has_doctype(src@),
{
    let pattern: [u8; 9] = [60u8, 33u8, 100u8, 111u8, 99u8, 116u8, 121u8, 112u8, 101u8];
    assert(pattern@ =~= doctype());
    if src.len() < 9 {
        assert(!has_doctype(src@));
        return false;
    }
    let mut i: usize = 0;
    let n = src.len();
    let last_start = n - 9;
    while i <= last_start
        invariant
            src@.len() >= 9,
            last_start == src@.len() - 9,
            n == src@.len(),
            i <= last_start + 1,
            pattern@ == doctype(),
            forall|j: int| 0 <= j < i ==> !doctype_at(src@, j),
        decreases src@.len() - i,
    {
        let mut k: usize = 0;
        let mut same = true;
        while k < 9 && same
            invariant
                i <= last_start,
                last_start == src@.len() - 9,
                n == src@.len(),
                k <= 9,
                pattern@ == doctype(),
                same == forall|m: int| 0 <= m < k ==> lower(#[trigger] src@[i + m]) == doctype()[m],
            decreases 9 - k,
        {
            if lower_byte(src[i + k]) != pattern[k] {
                same = false;
            }
            k += 1;
        }
        if same {
            assert(doctype_at(src@, i as int));
            return true;
        }
        i += 1;
    }
    assert forall|j: int| !doctype_at(src@, j) by {
        if 0 <= j && j < i {
        }
    }
    false
}

fn ends_with_slash_at(src: &[u8], start: usize, end: usize) -> (r: bool)
    requires
        start <= end <= src@.len(),
    ensures
        r == ends_with_slash(src@.subrange(start as int, end as int)),
{
    let mut j = end;
    while j > start
        invariant
            start <= j <= end <= src@.len(),
            ends_with_slash(src@.subrange(start as int, end as int)) == ends_with_slash(src@.subrange(start as int, j as int)),
        decreases j,
    {
        let b = src[j - 1];
        let ghost t = src@.subrange(start as int, j as int);
        assert(t.last() == b);
        assert(t.drop_last() =~= src@.subrange(start as int, j - 1));
        if !(b == 32 || b == 9 || b == 10 || b == 12 || b == 13) {
            return b == 47;
        }
        j -= 1;
    }
    false
}

/// Checks an SVG source before it is parsed: `Err` with the issue's message
/// exactly where `svg_issue` finds one.
pub fn validate_svg_source(source: &[u8]) -> (r: Result<(), String>)
    ensures
        match r {
            Ok(()) => svg_issue(source@) is None,
            Err(m) => svg_issue(source@) matches Some(issue) && m@ == issue.message_spec(),
        },
{
    match svg_check(source) {
        Some(issue) => Err(issue.message()),
        None => Ok(()),
    }
}

/// The issue that refuses the source, if any.
pub fn svg_check(source: &[u8]) -> (r: Option<SvgIssue>)
    ensures
        r == svg_issue(source@),
{
    if doctype_anywhere(source) {
        return Some(SvgIssue::DocumentType);
    }
    let mut depth: usize = 0;
    let mut elements: usize = 0;
    let mut cursor: usize = 0;
    while cursor <= source.len()
        invariant
            cursor <= source@.len(),
            depth <= MAX_SVG_DEPTH,
            elements <= MAX_SVG_ELEMENTS,
            !has_doctype(source@),
            scan(source@, 0, 0, 0) == scan(source@, cursor as int, depth as nat, elements as nat),
        decreases source@.len() + 1 - cursor,
    {
        proof {
            lemma_find_from(source@, cursor as int, 60);
        }
        let start = match find_byte(source, cursor, 60) {
            None => return None,
            Some(s) => s,
        };
        proof {
            lemma_find_from(source@, start as int, 62);
        }
        let end = match find_byte(source, start, 62) {
            None => return Some(SvgIssue::UnterminatedTag),
            Some(e) => e,
        };
        assert(start < end) by {
            assert(source@[start as int] == 60);
        }
        let first: Option<u8> = if start + 1 < end { Some(source[start + 1]) } else { None };
        let ghost tag = source@.subrange(start + 1, end as int);
        let next = end + 1;
        match first {
            Some(b) => {
                assert(tag[0] == b);
            },
            None => {
                assert(tag.len() == 0);
            },
        }
        if first == Some(33u8) || first == Some(63u8) {
            cursor = next;
        } else if first == Some(47u8) {
            depth = if depth > 0 { depth - 1 } else { 0 };
            cursor = next;
        } else {
            if elements + 1 > MAX_SVG_ELEMENTS {
                return Some(SvgIssue::TooManyElements);
            }
            if ends_with_slash_at(source, start + 1, end) {
                elements = elements + 1;
                cursor = next;
            } else {
                if depth + 1 > MAX_SVG_DEPTH {
                    return Some(SvgIssue::TooDeep);
                }
                depth = depth + 1;
                elements = elements + 1;
                cursor = next;
            }
        }
    }
    None
}

/// A source that declares a document type anywhere is refused for it,
/// before anything else is looked at; one without any '<' is accepted.
pub proof fn law_document_types_are_refused(src: Seq<u8>)
    ensures
        has_doctype(src) ==> svg_issue(src) == Some(SvgIssue::DocumentType),
        (!has_doctype(src) && find_from(src, 0, 60) is None) ==> svg_issue(src) is None,
{
}

} // verus!
