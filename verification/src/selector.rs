use vstd::prelude::*;
use vstd::string::*;

use crate::dom::HtmlDoc;
use crate::text::{contains_token, has_ws_token, split_ws};

verus! {

/// A recursive, structural definition of a CSS selector.
#[derive(Debug)]
pub enum CssSelector {
    /// Matches an HTML tag name (e.g., "div", "a")
    Tag(String),
    /// Matches a CSS class (e.g., "quote")
    Class(String),
    /// Matches an HTML ID (e.g., "main")
    Id(String),
    /// Matches an attribute existence or specific value
    Attribute { key: String, value: Option<String> },
    /// AND logic: matches if ALL sub-selectors match
    And(Vec<CssSelector>),
    /// OR logic: matches if ANY sub-selector matches
    Or(Vec<CssSelector>),
    /// Descendant logic: .ancestor .descendant
    Descendant { ancestor: Box<CssSelector>, descendant: Box<CssSelector> },
    /// Child logic: .parent > .child
    Child { parent: Box<CssSelector>, child: Box<CssSelector> },
}

/// Does the node at index `i` of `doc` satisfy `sel`?
///
/// `Descendant` demands a match somewhere on the strict parent chain;
/// `Child` demands one exactly one level up. `And` of an empty list is
/// vacuously true, `Or` of an empty list vacuously false.
pub open spec fn spec_matches(doc: HtmlDoc, i: int, sel: CssSelector) -> bool
    decreases sel, 0int, 0int,
{
    match sel {
        CssSelector::Tag(tag) => doc.nodes@[i].tag@ == tag@,
        CssSelector::Class(cls) => match doc.nodes@[i].spec_attr("class"@) {
            Some(classes) => has_ws_token(classes, cls@),
            None => false,
        },
        CssSelector::Id(id) => doc.nodes@[i].spec_attr("id"@) == Some(id@),
        CssSelector::Attribute { key, value } => match value {
            Some(v) => doc.nodes@[i].spec_attr(key@) == Some(v@),
            None => doc.nodes@[i].spec_attr(key@) is Some,
        },
        CssSelector::And(sels) => forall|k: int|
            0 <= k < sels@.len() ==> spec_matches(doc, i, #[trigger] sels@[k]),
        CssSelector::Or(sels) => exists|k: int|
            0 <= k < sels@.len() && spec_matches(doc, i, #[trigger] sels@[k]),
        CssSelector::Descendant { ancestor, descendant } => spec_matches(doc, i, *descendant)
            && (match doc.nodes@[i].parent {
            Some(p) => ancestor_matches(doc, p as int, *ancestor),
            None => false,
        }),
        CssSelector::Child { parent, child } => spec_matches(doc, i, *child) && (match doc.nodes@[i].parent {
            Some(p) => spec_matches(doc, p as int, *parent),
            None => false,
        }),
    }
}

/// Does `sel` match node `i` or any node on its parent chain?
pub open spec fn ancestor_matches(doc: HtmlDoc, i: int, sel: CssSelector) -> bool
    decreases sel, 1int, i,
{
    spec_matches(doc, i, sel) || (match doc.nodes@[i].parent {
        Some(p) => p < i && ancestor_matches(doc, p as int, sel),
        None => false,
    })
}

impl CssSelector {
    /// Purely structural match of this selector against one node.
    pub fn matches(&self, doc: &HtmlDoc, i: usize) -> (r: bool)
        requires
            doc.wf(),
            i < doc.nodes@.len(),
        ensures
            r == spec_matches(*doc, i as int, *self),
        decreases *self, 0int,
    {
        match self {
            CssSelector::Tag(tag) => doc.nodes[i].tag.eq(tag),
            CssSelector::Class(cls) => match doc.nodes[i].attr("class") {
                Some(classes) => contains_token(classes.as_str(), cls.as_str()),
                None => false,
            },
            CssSelector::Id(id) => match doc.nodes[i].attr("id") {
                Some(v) => v.eq(id),
                None => false,
            },
            CssSelector::Attribute { key, value } => match doc.nodes[i].attr(key.as_str()) {
                Some(v) => match value {
                    Some(want) => v.eq(want),
                    None => true,
                },
                None => false,
            },
            CssSelector::And(sels) => matches_all(sels, doc, i),
            CssSelector::Or(sels) => matches_any(sels, doc, i),
            CssSelector::Descendant { ancestor, descendant } => {
                if !descendant.matches(doc, i) {
                    return false;
                }
                proof {
                    assert(doc.parent_ok(i as int));
                }
                match doc.nodes[i].parent {
                    Some(p) => ancestor_chain_matches(ancestor, doc, p),
                    None => false,
                }
            },
            CssSelector::Child { parent, child } => {
                if !child.matches(doc, i) {
                    return false;
                }
                proof {
                    assert(doc.parent_ok(i as int));
                }
                match doc.nodes[i].parent {
                    Some(p) => parent.matches(doc, p),
                    None => false,
                }
            },
        }
    }
}

/// Conjunction over a selector list, as `And` uses it.
fn matches_all(sels: &Vec<CssSelector>, doc: &HtmlDoc, i: usize) -> (r: bool)
    requires
        doc.wf(),
        i < doc.nodes@.len(),
    ensures
        r == (forall|k: int|
            0 <= k < sels@.len() ==> spec_matches(*doc, i as int, #[trigger] sels@[k])),
    decreases *sels, 0int,
{
    let n = sels.len();
    let mut k: usize = 0;
    while k < n
        invariant
            k <= n,
            n == sels@.len(),
            doc.wf(),
            i < doc.nodes@.len(),
            forall|j: int| 0 <= j < k ==> spec_matches(*doc, i as int, #[trigger] sels@[j]),
        decreases n - k,
    {
        if !sels[k].matches(doc, i) {
            return false;
        }
        k = k + 1;
    }
    true
}

/// Disjunction over a selector list, as `Or` uses it.
fn matches_any(sels: &Vec<CssSelector>, doc: &HtmlDoc, i: usize) -> (r: bool)
    requires
        doc.wf(),
        i < doc.nodes@.len(),
    ensures
        r == (exists|k: int|
            0 <= k < sels@.len() && spec_matches(*doc, i as int, #[trigger] sels@[k])),
    decreases *sels, 0int,
{
    let n = sels.len();
    let mut k: usize = 0;
    while k < n
        invariant
            k <= n,
            n == sels@.len(),
            doc.wf(),
            i < doc.nodes@.len(),
            forall|j: int| 0 <= j < k ==> !spec_matches(*doc, i as int, #[trigger] sels@[j]),
        decreases n - k,
    {
        if sels[k].matches(doc, i) {
            return true;
        }
        k = k + 1;
    }
    false
}

/// Walks the parent chain upward from `start`, looking for a node that
/// `sel` matches; short-circuits on the first hit.
fn ancestor_chain_matches(sel: &CssSelector, doc: &HtmlDoc, start: usize) -> (r: bool)
    requires
        doc.wf(),
        start < doc.nodes@.len(),
    ensures
        r == ancestor_matches(*doc, start as int, *sel),
    decreases *sel, 1int,
{
    let mut cur: Option<usize> = Some(start);
    loop
        invariant
            doc.wf(),
            match cur {
                Some(c) => c < doc.nodes@.len() && ancestor_matches(*doc, start as int, *sel)
                    == ancestor_matches(*doc, c as int, *sel),
                None => !ancestor_matches(*doc, start as int, *sel),
            },
        decreases (match cur {
            Some(c) => c + 1,
            None => 0,
        }),
    {
        match cur {
            None => {
                return false;
            },
            Some(c) => {
                if sel.matches(doc, c) {
                    return true;
                }
                proof {
                    assert(doc.parent_ok(c as int));
                }
                cur = doc.nodes[c].parent;
            },
        }
    }
}

/// Textual CSS-equivalent rendering of a selector, for display and
/// logs; not guaranteed to reparse.
pub open spec fn spec_css_string(sel: CssSelector) -> Seq<char>
    decreases sel, 0int, 0int,
{
    match sel {
        CssSelector::Tag(tag) => tag@,
        CssSelector::Class(cls) => "."@ + cls@,
        CssSelector::Id(id) => "#"@ + id@,
        CssSelector::Attribute { key, value } => match value {
            Some(v) => "["@ + key@ + "='"@ + v@ + "']"@,
            None => "["@ + key@ + "]"@,
        },
        CssSelector::And(sels) => spec_css_join(sels, ""@, 0),
        CssSelector::Or(sels) => spec_css_join(sels, ", "@, 0),
        CssSelector::Descendant { ancestor, descendant } => spec_css_string(*ancestor) + " "@
            + spec_css_string(*descendant),
        CssSelector::Child { parent, child } => spec_css_string(*parent) + " > "@
            + spec_css_string(*child),
    }
}

/// Renderings of `sels[i..]`, separated by `sep`.
pub open spec fn spec_css_join(sels: Vec<CssSelector>, sep: Seq<char>, i: int) -> Seq<char>
    decreases sels, 1int, sels@.len() - i,
{
    if i < 0 || i >= sels@.len() {
        Seq::empty()
    } else if i == sels@.len() - 1 {
        spec_css_string(sels@[i])
    } else {
        spec_css_string(sels@[i]) + sep + spec_css_join(sels, sep, i + 1)
    }
}

impl CssSelector {
    /// Converts the structured selector into a standard CSS selector string.
    pub fn to_css_string(&self) -> (r: String)
        ensures
            r@ == spec_css_string(*self),
        decreases *self, 0int, 0int,
    {
        match self {
            CssSelector::Tag(tag) => tag.clone(),
            CssSelector::Class(cls) => {
                let mut s = String::from_str(".");
                s.append(cls.as_str());
                s
            },
            CssSelector::Id(id) => {
                let mut s = String::from_str("#");
                s.append(id.as_str());
                s
            },
            CssSelector::Attribute { key, value } => {
                let mut s = String::from_str("[");
                s.append(key.as_str());
                match value {
                    Some(v) => {
                        s.append("='");
                        s.append(v.as_str());
                        s.append("']");
                    },
                    None => {
                        s.append("]");
                    },
                }
                s
            },
            CssSelector::And(sels) => css_join_from(sels, "", 0),
            CssSelector::Or(sels) => css_join_from(sels, ", ", 0),
            CssSelector::Descendant { ancestor, descendant } => {
                let mut s = ancestor.to_css_string();
                s.append(" ");
                let d = descendant.to_css_string();
                s.append(d.as_str());
                s
            },
            CssSelector::Child { parent, child } => {
                let mut s = parent.to_css_string();
                s.append(" > ");
                let c = child.to_css_string();
                s.append(c.as_str());
                s
            },
        }
    }
}

/// Renders `sels[i..]` joined by `sep`.
fn css_join_from(sels: &Vec<CssSelector>, sep: &str, i: usize) -> (r: String)
    ensures
        r@ == spec_css_join(*sels, sep@, i as int),
    decreases *sels, 1int, sels@.len() - i,
{
    if i >= sels.len() {
        String::new()
    } else if i == sels.len() - 1 {
        sels[i].to_css_string()
    } else {
        let mut s = sels[i].to_css_string();
        s.append(sep);
        let rest = css_join_from(sels, sep, i + 1);
        s.append(rest.as_str());
        s
    }
}

/// `And` over an empty list matches every node: vacuous truth.
pub proof fn lemma_empty_and_matches(doc: HtmlDoc, i: int, sels: Vec<CssSelector>)
    requires
        sels@.len() == 0,
    ensures
        spec_matches(doc, i, CssSelector::And(sels)),
{
}

/// `Or` over an empty list matches no node: vacuous falsehood.
pub proof fn lemma_empty_or_matches_none(doc: HtmlDoc, i: int, sels: Vec<CssSelector>)
    requires
        sels@.len() == 0,
    ensures
        !spec_matches(doc, i, CssSelector::Or(sels)),
{
}

/// A class selector matches exactly when its name occurs as a whole
/// whitespace-separated token of the class attribute, never as a mere
/// substring of one.
pub proof fn lemma_class_is_token_match(doc: HtmlDoc, i: int, cls: String)
    ensures
        spec_matches(doc, i, CssSelector::Class(cls)) <==> (match doc.nodes@[i].spec_attr(
            "class"@,
        ) {
            Some(classes) => split_ws(classes).contains(cls@),
            None => false,
        }),
{
}

/// `a` lies strictly above `i` on the parent chain.
pub open spec fn is_strict_ancestor(doc: HtmlDoc, a: int, i: int) -> bool
    decreases i,
{
    match doc.nodes@[i].parent {
        Some(p) => a == p as int || (0 <= p < i && is_strict_ancestor(doc, a, p as int)),
        None => false,
    }
}

/// In a well-formed document a strict ancestor has a smaller index.
pub proof fn lemma_strict_ancestor_lt(doc: HtmlDoc, a: int, i: int)
    requires
        doc.wf(),
        0 <= i < doc.nodes@.len(),
        is_strict_ancestor(doc, a, i),
    ensures
        a < i,
    decreases i,
{
    assert(doc.parent_ok(i));
    match doc.nodes@[i].parent {
        Some(p) => {
            if a == p as int {
            } else {
                lemma_strict_ancestor_lt(doc, a, p as int);
            }
        },
        None => {
        },
    }
}

/// The upward walk finds a match exactly when the node itself or some
/// strict ancestor of it matches.
pub proof fn lemma_ancestor_matches_iff_exists(doc: HtmlDoc, j: int, sel: CssSelector)
    requires
        doc.wf(),
        0 <= j < doc.nodes@.len(),
    ensures
        ancestor_matches(doc, j, sel) <==> (spec_matches(doc, j, sel) || exists|x: int|
            0 <= x < j && #[trigger] is_strict_ancestor(doc, x, j) && spec_matches(doc, x, sel)),
    decreases j,
{
    assert(doc.parent_ok(j));
    match doc.nodes@[j].parent {
        None => {
            if exists|x: int|
                0 <= x < j && #[trigger] is_strict_ancestor(doc, x, j) && spec_matches(
                    doc,
                    x,
                    sel,
                ) {
                let x = choose|x: int|
                    0 <= x < j && #[trigger] is_strict_ancestor(doc, x, j) && spec_matches(
                        doc,
                        x,
                        sel,
                    );
                assert(!is_strict_ancestor(doc, x, j));
            }
        },
        Some(p) => {
            lemma_ancestor_matches_iff_exists(doc, p as int, sel);
            if ancestor_matches(doc, j, sel) && !spec_matches(doc, j, sel) {
                assert(ancestor_matches(doc, p as int, sel));
                if spec_matches(doc, p as int, sel) {
                    assert(is_strict_ancestor(doc, p as int, j));
                } else {
                    let x = choose|x: int|
                        0 <= x < p && #[trigger] is_strict_ancestor(doc, x, p as int)
                            && spec_matches(doc, x, sel);
                    assert(is_strict_ancestor(doc, x, j));
                }
            }
            if !ancestor_matches(doc, j, sel) && !spec_matches(doc, j, sel) && exists|x: int|
                0 <= x < j && #[trigger] is_strict_ancestor(doc, x, j) && spec_matches(
                    doc,
                    x,
                    sel,
                ) {
                let x = choose|x: int|
                    0 <= x < j && #[trigger] is_strict_ancestor(doc, x, j) && spec_matches(
                        doc,
                        x,
                        sel,
                    );
                if x == p as int {
                    assert(ancestor_matches(doc, p as int, sel));
                } else {
                    assert(is_strict_ancestor(doc, x, p as int));
                    lemma_strict_ancestor_lt(doc, x, p as int);
                    assert(ancestor_matches(doc, p as int, sel));
                }
                assert(ancestor_matches(doc, j, sel));
            }
        },
    }
}

/// A `Descendant` match always rests on a strictly higher node: the
/// node is never accepted as its own ancestor.
pub proof fn lemma_descendant_requires_strict_ancestor(
    doc: HtmlDoc,
    i: int,
    ancestor: Box<CssSelector>,
    descendant: Box<CssSelector>,
)
    requires
        doc.wf(),
        0 <= i < doc.nodes@.len(),
        spec_matches(doc, i, (CssSelector::Descendant { ancestor, descendant })),
    ensures
        spec_matches(doc, i, *descendant),
        exists|x: int|
            0 <= x < i && #[trigger] is_strict_ancestor(doc, x, i) && spec_matches(
                doc,
                x,
                *ancestor,
            ),
{
    assert(doc.parent_ok(i));
    match doc.nodes@[i].parent {
        Some(p) => {
            lemma_ancestor_matches_iff_exists(doc, p as int, *ancestor);
            if spec_matches(doc, p as int, *ancestor) {
                assert(is_strict_ancestor(doc, p as int, i));
            } else {
                let x = choose|x: int|
                    0 <= x < p && #[trigger] is_strict_ancestor(doc, x, p as int) && spec_matches(
                        doc,
                        x,
                        *ancestor,
                    );
                assert(is_strict_ancestor(doc, x, i));
            }
        },
        None => {
        },
    }
}

/// `Child` inspects exactly one level: the immediate parent decides,
/// nothing higher up is consulted.
pub proof fn lemma_child_is_one_level(
    doc: HtmlDoc,
    i: int,
    parent: Box<CssSelector>,
    child: Box<CssSelector>,
)
    ensures
        spec_matches(doc, i, (CssSelector::Child { parent, child })) <==> (spec_matches(
            doc,
            i,
            *child,
        ) && (match doc.nodes@[i].parent {
            Some(p) => spec_matches(doc, p as int, *parent),
            None => false,
        })),
{
}

} // verus!
