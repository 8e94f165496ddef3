//! The application menu's documentation links and their consistency rules.
use vstd::prelude::*;
use crate::text::{append_str, chars_of, eq_chars, has_prefix, owned, starts_with_str, string_of};

verus! {

pub const PROJECT_URI: &'static str = "https://github.com/nedrichards/pinpoint-ng";
pub const DOCUMENTATION_BASE_URI: &'static str = "https://github.com/nedrichards/pinpoint-ng/blob/main/docs/";

/// One documentation entry of the menu: its action name, its label and the
/// document it opens.
#[derive(Clone, Debug)]
pub struct DocumentationItem {
    pub action: String,
    pub label: String,
    pub document: String,
}

/// A documentation entry's text.
pub struct DocView {
    pub action: Seq<char>,
    pub label: Seq<char>,
    pub document: Seq<char>,
}

pub open spec fn doc_view(i: DocumentationItem) -> DocView {
    DocView { action: i.action@, label: i.label@, document: i.document@ }
}

pub open spec fn docs_view(items: Seq<DocumentationItem>) -> Seq<DocView> {
    items.map_values(|i: DocumentationItem| doc_view(i))
}

/// The documentation the menu links to.
pub open spec fn documentation_spec() -> Seq<DocView> {
    seq![
        DocView { action: "format"@, label: "Presentation Format"@, document: "presentation-format.md"@ },
        DocView { action: "command-line"@, label: "Command Line and Flatpak"@, document: "command-line.md"@ },
        DocView { action: "editors"@, label: "External Editors"@, document: "external-editors.md"@ },
        DocView { action: "accessibility"@, label: "Accessibility"@, document: "accessibility.md"@ },
    ]
}

fn item(action: &str, label: &str, document: &str) -> (i: DocumentationItem)
    ensures
        i.action@ == action@,
        i.label@ == label@,
        i.document@ == document@,
{
    DocumentationItem { action: owned(action), label: owned(label), document: owned(document) }
}

/// The documentation the menu links to.
pub fn documentation() -> (items: Vec<DocumentationItem>)
    ensures
        docs_view(items@) == documentation_spec(),
{
    let mut items: Vec<DocumentationItem> = Vec::new();
    items.push(item("format", "Presentation Format", "presentation-format.md"));
    items.push(item("command-line", "Command Line and Flatpak", "command-line.md"));
    items.push(item("editors", "External Editors", "external-editors.md"));
    items.push(item("accessibility", "Accessibility", "accessibility.md"));
    assert(docs_view(items@) =~= documentation_spec());
    items
}

/// `s` ends with ".md".
pub open spec fn markdown(s: Seq<char>) -> bool {
    s.len() >= 3 && s.subrange(s.len() - 3, s.len() as int) == ".md"@
}

/// The first problem among the first `n` items: an empty action or label,
/// a document that is not Markdown, or an action used before.
pub open spec fn item_problem(items: Seq<DocView>, n: nat) -> Option<Seq<char>>
    decreases n,
{
    if n == 0 {
        None
    } else {
        match item_problem(items, (n - 1) as nat) {
            Some(p) => Some(p),
            None => {
                let it = items[n - 1];
                if it.action.len() == 0 || it.label.len() == 0 || !markdown(it.document) {
                    Some("application documentation menu contains an invalid item"@)
                } else if exists|j: int| 0 <= j < n - 1 && (#[trigger] items[j]).action == it.action {
                    Some("application menu repeats the "@ + it.action + " action"@)
                } else {
                    None
                }
            },
        }
    }
}

/// What the menu check says of `items` and the two base addresses.
pub open spec fn menu_check(items: Seq<DocView>, project: Seq<char>, docs: Seq<char>) -> Option<Seq<char>> {
    match item_problem(items, items.len()) {
        Some(p) => Some(p),
        None => if !has_prefix(project, "https://"@) || !has_prefix(docs, "https://"@) {
            Some("application links are not HTTPS"@)
        } else {
            None
        },
    }
}

fn ends_with_md(s: &Vec<char>) -> (r: bool)
    ensures
        r == markdown(s@),
{
    let n = s.len();
    let r = n >= 3 && s[n - 3] == '.' && s[n - 2] == 'm' && s[n - 1] == 'd';
    proof {
        reveal_strlit(".md");
        if n >= 3 {
            let tail = s@.subrange(n - 3, n as int);
            if r {
                assert(tail =~= ".md"@);
            } else if tail == ".md"@ {
                assert(tail[0] == '.' && tail[1] == 'm' && tail[2] == 'd');
            }
        }
    }
    r
}

/// Checks the menu's documentation entries and links.
pub fn validate_menu(items: &Vec<DocumentationItem>, project_uri: &str, documentation_uri: &str) -> (r: Result<(), String>)
    ensures
        match r {
            Ok(()) => menu_check(docs_view(items@), project_uri@, documentation_uri@) is None,
            Err(e) => menu_check(docs_view(items@), project_uri@, documentation_uri@) == Some(e@),
        },
{
    let mut i: usize = 0;
    while i < items.len()
        invariant
            i <= items@.len(),
            item_problem(docs_view(items@), i as nat) is None,
        decreases items@.len() - i,
    {
        let it = &items[i];
        assert(docs_view(items@)[i as int] == doc_view(*it));
        let action = chars_of(it.action.as_str());
        let document = chars_of(it.document.as_str());
        if action.len() == 0 || it.label.as_str().is_empty() || !ends_with_md(&document) {
            proof {
                lemma_problem_stays(docs_view(items@), (i + 1) as nat, items@.len());
            }
            return Err(owned("application documentation menu contains an invalid item"));
        }
        let mut j: usize = 0;
        while j < i
            invariant
                j <= i < items@.len(),
                action@ == items@[i as int].action@,
                item_problem(docs_view(items@), i as nat) is None,
                docs_view(items@)[i as int].action.len() > 0,
                docs_view(items@)[i as int].label.len() > 0,
                markdown(docs_view(items@)[i as int].document),
                forall|k: int| 0 <= k < j ==> items@[k].action@ != action@,
            decreases i - j,
        {
            let other = chars_of(items[j].action.as_str());
            if eq_chars(&other, &action) {
                proof {
                    let dv = docs_view(items@);
                    assert(dv[j as int].action == dv[i as int].action);
                    assert(item_problem(dv, (i + 1) as nat) == Some("application menu repeats the "@ + dv[i as int].action + " action"@));
                    lemma_problem_stays(dv, (i + 1) as nat, items@.len());
                }
                let mut m = chars_of("application menu repeats the ");
                append_str(&mut m, items[i].action.as_str());
                append_str(&mut m, " action");
                return Err(string_of(&m));
            }
            j += 1;
        }
        i += 1;
    }
    let p = chars_of(project_uri);
    let d = chars_of(documentation_uri);
    if !starts_with_str(&p, "https://") || !starts_with_str(&d, "https://") {
        return Err(owned("application links are not HTTPS"));
    }
    Ok(())
}

proof fn lemma_problem_stays(items: Seq<DocView>, n: nat, m: nat)
    requires
        n <= m <= items.len(),
        item_problem(items, n) is Some,
    ensures
        item_problem(items, m) == item_problem(items, n),
    decreases m - n,
{
    if n < m {
        lemma_problem_stays(items, n, (m - 1) as nat);
    }
}

/// Checks the application's own menu.
pub fn validate_menu_contract() -> (r: Result<(), String>)
    ensures
        match r {
            Ok(()) => menu_check(documentation_spec(), PROJECT_URI@, DOCUMENTATION_BASE_URI@) is None,
            Err(e) => menu_check(documentation_spec(), PROJECT_URI@, DOCUMENTATION_BASE_URI@) == Some(e@),
        },
{
    let items = documentation();
    validate_menu(&items, PROJECT_URI, DOCUMENTATION_BASE_URI)
}

/// The address of a documentation page.
pub fn documentation_uri(document: &str) -> (u: String)
    ensures
        u@ == DOCUMENTATION_BASE_URI@ + document@,
{
    let mut v = chars_of(DOCUMENTATION_BASE_URI);
    append_str(&mut v, document);
    string_of(&v)
}

} // verus!
