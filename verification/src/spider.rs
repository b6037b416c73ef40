use vstd::prelude::*;
use vstd::string::*;

use chadselect::ChadSelect;

use crate::chad::{
    chad_add_html, chad_docs, chad_new, chad_query_all, chad_query_results, chad_select_first,
    chad_select_one,
};
use crate::error::Error;
use crate::text::{
    find_char, find_index, has_function_pipe, lemma_find_index_spec, lemma_pipe_free_concat,
    lemma_pipe_free_skip,
};

verus! {

/// What to take from a matched node.
#[derive(Debug, Clone)]
pub enum ExtractionType {
    Text,
    Attribute(String),
    Html,
}

/// One field rule: a selector string, optionally prefixed with a query
/// language tag (default "css"), plus the extraction kind.
#[derive(Debug, Clone)]
pub struct ExtractionRule {
    pub selector: String,
    pub extract: ExtractionType,
}

/// One scraped record: an ordered field-to-string mapping, consumed
/// once by the sink.
#[derive(Debug, Clone)]
pub struct Item {
    pub fields: Vec<(String, String)>,
}

pub open spec fn pairs_view(ps: Seq<(String, String)>) -> Seq<(Seq<char>, Seq<char>)> {
    ps.map_values(|p: (String, String)| (p.0@, p.1@))
}

pub open spec fn item_view(it: Item) -> Seq<(Seq<char>, Seq<char>)> {
    pairs_view(it.fields@)
}

pub open spec fn strs_view(v: Seq<String>) -> Seq<Seq<char>> {
    v.map_values(|s: String| s@)
}

pub open spec fn results_views(v: Seq<Vec<String>>) -> Seq<Seq<Seq<char>>> {
    v.map_values(|r: Vec<String>| strs_view(r@))
}

/// Longest result sequence among the first `j` rules.
pub open spec fn max_len_prefix(results: Seq<Seq<Seq<char>>>, j: int) -> nat
    decreases j,
{
    if j <= 0 {
        0
    } else {
        let prev = max_len_prefix(results, j - 1);
        if results[j - 1].len() > prev {
            results[j - 1].len()
        } else {
            prev
        }
    }
}

pub open spec fn spec_max_len(results: Seq<Seq<Seq<char>>>) -> nat {
    max_len_prefix(results, results.len() as int)
}

/// Fields of the aligned item at position `i`, over the first `j`
/// rules: a rule contributes its `i`-th result when it has one.
pub open spec fn aligned_row(
    names: Seq<Seq<char>>,
    results: Seq<Seq<Seq<char>>>,
    i: int,
    j: int,
) -> Seq<(Seq<char>, Seq<char>)>
    decreases j,
{
    if j <= 0 {
        Seq::empty()
    } else {
        let prev = aligned_row(names, results, i, j - 1);
        if i < results[j - 1].len() {
            prev.push((names[j - 1], results[j - 1][i]))
        } else {
            prev
        }
    }
}

/// Fields of the one item of single-item mode, over the first `j`
/// rules: a rule contributes its value when that value is non-empty.
pub open spec fn single_row(names: Seq<Seq<char>>, vals: Seq<Seq<char>>, j: int) -> Seq<
    (Seq<char>, Seq<char>),
>
    decreases j,
{
    if j <= 0 {
        Seq::empty()
    } else {
        let prev = single_row(names, vals, j - 1);
        if vals[j - 1].len() > 0 {
            prev.push((names[j - 1], vals[j - 1]))
        } else {
            prev
        }
    }
}

pub proof fn lemma_max_len_achieved(results: Seq<Seq<Seq<char>>>, j: int, i: int)
    requires
        0 <= j,
        0 <= i < max_len_prefix(results, j),
    ensures
        exists|k: int| 0 <= k < j && i < #[trigger] results[k].len(),
    decreases j,
{
    if j <= 0 {
    } else {
        if i < results[j - 1].len() {
            assert(i < results[j - 1].len());
        } else {
            lemma_max_len_achieved(results, j - 1, i);
        }
    }
}

pub proof fn lemma_aligned_row_nonempty(
    names: Seq<Seq<char>>,
    results: Seq<Seq<Seq<char>>>,
    i: int,
    j: int,
)
    requires
        exists|k: int| 0 <= k < j && i < #[trigger] results[k].len(),
    ensures
        aligned_row(names, results, i, j).len() > 0,
    decreases j,
{
    let k = choose|k: int| 0 <= k < j && i < #[trigger] results[k].len();
    if k == j - 1 {
    } else {
        lemma_aligned_row_nonempty(names, results, i, j - 1);
    }
}

/// Positional alignment: the `i`-th item takes, from every rule that
/// has at least `i + 1` results, that rule's `i`-th result. Exactly as
/// many items come out as the longest result sequence is long.
pub fn align_items(field_names: &Vec<String>, field_results: &Vec<Vec<String>>) -> (r: Vec<Item>)
    requires
        field_names@.len() == field_results@.len(),
    ensures
        r@.len() == spec_max_len(results_views(field_results@)),
        forall|i: int|
            0 <= i < r@.len() ==> item_view(#[trigger] r@[i]) == aligned_row(
                strs_view(field_names@),
                results_views(field_results@),
                i,
                field_names@.len() as int,
            ),
{
    let ghost nv = strs_view(field_names@);
    let ghost rv = results_views(field_results@);
    let n_rules = field_names.len();
    let mut max_len: usize = 0;
    let mut j: usize = 0;
    while j < n_rules
        invariant
            j <= n_rules,
            n_rules == field_results@.len(),
            rv == results_views(field_results@),
            max_len == max_len_prefix(rv, j as int),
        decreases n_rules - j,
    {
        let len_j = field_results[j].len();
        proof {
            assert(rv[j as int] == strs_view(field_results@[j as int]@));
            assert(rv[j as int].len() == len_j);
        }
        if len_j > max_len {
            max_len = len_j;
        }
        j = j + 1;
    }
    let mut items: Vec<Item> = Vec::new();
    let mut i: usize = 0;
    while i < max_len
        invariant
            i <= max_len,
            items@.len() == i,
            n_rules == field_names@.len(),
            n_rules == field_results@.len(),
            nv == strs_view(field_names@),
            rv == results_views(field_results@),
            max_len == max_len_prefix(rv, n_rules as int),
            forall|ii: int|
                0 <= ii < i ==> item_view(#[trigger] items@[ii]) == aligned_row(
                    nv,
                    rv,
                    ii,
                    n_rules as int,
                ),
        decreases max_len - i,
    {
        let mut fields: Vec<(String, String)> = Vec::new();
        let mut j2: usize = 0;
        while j2 < n_rules
            invariant
                j2 <= n_rules,
                n_rules == field_names@.len(),
                n_rules == field_results@.len(),
                nv == strs_view(field_names@),
                rv == results_views(field_results@),
                pairs_view(fields@) == aligned_row(nv, rv, i as int, j2 as int),
            decreases n_rules - j2,
        {
            proof {
                assert(rv[j2 as int] == strs_view(field_results@[j2 as int]@));
            }
            if i < field_results[j2].len() {
                let name = field_names[j2].clone();
                let val = field_results[j2][i].clone();
                let ghost old_fields = fields@;
                fields.push((name, val));
                proof {
                    assert(nv[j2 as int] == field_names@[j2 as int]@);
                    assert(rv[j2 as int][i as int] == field_results@[j2 as int]@[i as int]@);
                    assert(pairs_view(fields@) =~= pairs_view(old_fields).push(
                        (nv[j2 as int], rv[j2 as int][i as int]),
                    ));
                }
            }
            j2 = j2 + 1;
        }
        proof {
            if fields@.len() == 0 {
                lemma_max_len_achieved(rv, n_rules as int, i as int);
                lemma_aligned_row_nonempty(nv, rv, i as int, n_rules as int);
                assert(pairs_view(fields@).len() == 0);
            }
        }
        // a row below the maximum always has at least one field, so the
        // emptiness check never drops anything
        if fields.len() > 0 {
            items.push(Item { fields });
        }
        i = i + 1;
    }
    items
}

/// Single-item mode: one item holding exactly the fields whose rule
/// produced a non-empty value; an error when no rule produced any.
pub fn build_single_item(field_names: &Vec<String>, field_values: &Vec<String>) -> (r: Result<
    Item,
    Error,
>)
    requires
        field_names@.len() == field_values@.len(),
    ensures
        match r {
            Ok(item) => item_view(item) == single_row(
                strs_view(field_names@),
                strs_view(field_values@),
                field_names@.len() as int,
            ) && (exists|k: int|
                0 <= k < field_values@.len() && #[trigger] field_values@[k]@.len() > 0),
            Err(e) => e is Extraction && e.spec_message() == "No data found for item"@ && (
            forall|k: int|
                0 <= k < field_values@.len() ==> #[trigger] field_values@[k]@.len() == 0),
        },
{
    let ghost nv = strs_view(field_names@);
    let ghost vv = strs_view(field_values@);
    let n = field_names.len();
    let mut fields: Vec<(String, String)> = Vec::new();
    let mut found: bool = false;
    let mut j: usize = 0;
    while j < n
        invariant
            j <= n,
            n == field_names@.len(),
            n == field_values@.len(),
            nv == strs_view(field_names@),
            vv == strs_view(field_values@),
            pairs_view(fields@) == single_row(nv, vv, j as int),
            found == (exists|k: int| 0 <= k < j && #[trigger] field_values@[k]@.len() > 0),
        decreases n - j,
    {
        proof {
            assert(vv[j as int] == field_values@[j as int]@);
            assert(nv[j as int] == field_names@[j as int]@);
        }
        if field_values[j].as_str().unicode_len() > 0 {
            let name = field_names[j].clone();
            let val = field_values[j].clone();
            let ghost old_fields = fields@;
            fields.push((name, val));
            found = true;
            proof {
                assert(pairs_view(fields@) =~= pairs_view(old_fields).push(
                    (nv[j as int], vv[j as int]),
                ));
            }
        }
        j = j + 1;
    }
    if found {
        Ok(Item { fields })
    } else {
        Err(Error::Extraction(String::from_str("No data found for item")))
    }
}

/// One site's crawl definition: name, seed URLs, optional root scope
/// selector, and the field rules. The sink that consumes its items is
/// owned by the surrounding pipeline.
#[derive(Debug, Clone)]
pub struct GenericSpider {
    pub name: String,
    pub start_urls: Vec<String>,
    pub root_selector: Option<String>,
    pub extraction_rules: Vec<(String, ExtractionRule)>,
}

pub open spec fn rule_names(rules: Seq<(String, ExtractionRule)>) -> Seq<Seq<char>> {
    rules.map_values(|p: (String, ExtractionRule)| p.0@)
}

/// Adds the default "css:" prefix when the selector carries no query
/// language tag of its own.
pub open spec fn spec_with_css_prefix(s: Seq<char>) -> Seq<char> {
    if find_index(s, ':') is Some {
        s
    } else {
        "css:"@ + s
    }
}

/// The selector with its query language tag stripped.
pub open spec fn spec_selector_body(s: Seq<char>) -> Seq<char> {
    match find_index(s, ':') {
        Some(k) => s.skip(k + 1),
        None => s,
    }
}

/// Scoped field query: the (prefixed) root selector, a space, and the
/// rule's bare selector.
pub open spec fn spec_combined_query(root: Seq<char>, sel: Seq<char>) -> Seq<char> {
    spec_with_css_prefix(root) + " "@ + spec_selector_body(sel)
}

/// Per-rule result sequences of the scoped field queries.
pub open spec fn spec_root_results(
    docs: Seq<Seq<char>>,
    root: Seq<char>,
    rules: Seq<(String, ExtractionRule)>,
) -> Seq<Seq<Seq<char>>> {
    rules.map_values(
        |p: (String, ExtractionRule)| chad_query_results(
            docs,
            spec_combined_query(root, p.1.selector@),
        ),
    )
}

/// Per-rule single values of single-item mode.
pub open spec fn spec_single_values(
    docs: Seq<Seq<char>>,
    rules: Seq<(String, ExtractionRule)>,
) -> Seq<Seq<char>> {
    rules.map_values(
        |p: (String, ExtractionRule)| chad_select_first(docs, spec_with_css_prefix(p.1.selector@)),
    )
}

pub fn with_css_prefix(sel: &String) -> (r: String)
    ensures
        r@ == spec_with_css_prefix(sel@),
        !has_function_pipe(sel@) ==> !has_function_pipe(r@),
{
    match find_char(sel.as_str(), ':') {
        Some(_) => sel.clone(),
        None => {
            let mut q = String::from_str("css:");
            q.append(sel.as_str());
            proof {
                if !has_function_pipe(sel@) {
                    reveal_strlit("css:");
                    assert("css:"@ =~= seq!['c', 's', 's', ':']);
                    if has_function_pipe("css:"@) {
                        let i = choose|i: int|
                            0 <= i && i + 1 < "css:"@.len() && (#[trigger] "css:"@[i]) == '>'
                                && "css:"@[i + 1] == '>';
                        assert("css:"@[i] == '>');
                    }
                    lemma_pipe_free_concat("css:"@, sel@);
                }
            }
            q
        },
    }
}

pub fn selector_body(sel: &String) -> (r: String)
    ensures
        r@ == spec_selector_body(sel@),
        !has_function_pipe(sel@) ==> !has_function_pipe(r@),
{
    let n = sel.as_str().unicode_len();
    match find_char(sel.as_str(), ':') {
        Some(k) => {
            proof {
                lemma_find_index_spec(sel@, ':');
            }
            let sub = sel.as_str().substring_char(k + 1, n);
            proof {
                assert(sel@.subrange(k + 1, n as int) =~= sel@.skip(k + 1));
                if !has_function_pipe(sel@) {
                    lemma_pipe_free_skip(sel@, k + 1);
                }
            }
            String::from_str(sub)
        },
        None => sel.clone(),
    }
}

pub fn combined_query(root: &String, sel: &String) -> (r: String)
    ensures
        r@ == spec_combined_query(root@, sel@),
        !has_function_pipe(root@) && !has_function_pipe(sel@) ==> !has_function_pipe(r@),
{
    let mut q = with_css_prefix(root);
    let ghost prefix = q@;
    q.append(" ");
    let body = selector_body(sel);
    q.append(body.as_str());
    proof {
        if !has_function_pipe(root@) && !has_function_pipe(sel@) {
            reveal_strlit(" ");
            assert(" "@ =~= seq![' ']);
            assert(!has_function_pipe(" "@));
            lemma_pipe_free_concat(prefix, " "@);
            assert((prefix + " "@).last() == ' ');
            lemma_pipe_free_concat(prefix + " "@, body@);
        }
    }
    q
}

impl GenericSpider {
    /// No selector of this definition reaches the ">>" function pipe,
    /// the query syntax the trusted query wrappers exclude.
    pub open spec fn pipe_free(&self) -> bool {
        &&& match self.root_selector {
            Some(r) => !has_function_pipe(r@),
            None => true,
        }
        &&& forall|j: int|
            0 <= j < self.extraction_rules@.len() ==> !has_function_pipe(
                (#[trigger] self.extraction_rules@[j]).1.selector@,
            )
    }

    pub fn new(
        name: String,
        start_urls: Vec<String>,
        root_selector: Option<String>,
        extraction_rules: Vec<(String, ExtractionRule)>,
    ) -> (s: GenericSpider)
        ensures
            s.name == name,
            s.start_urls == start_urls,
            s.root_selector == root_selector,
            s.extraction_rules == extraction_rules,
    {
        GenericSpider { name, start_urls, root_selector, extraction_rules }
    }

    pub fn name(&self) -> (r: String)
        ensures
            r@ == self.name@,
    {
        self.name.clone()
    }

    pub fn start_urls(&self) -> (r: &Vec<String>)
        ensures
            r == &self.start_urls,
    {
        &self.start_urls
    }

    /// Fetch-free part of one scrape: loads the page body into the
    /// query engine, runs every field rule, and aligns the results.
    /// With a root selector, positional alignment produces as many
    /// items as the longest per-field result sequence; without one, at
    /// most one item is produced and an extraction failure yields zero
    /// items. Selectors must be free of the ">>" function pipe, which
    /// the trusted query wrappers exclude; callers check a
    /// configuration once, up front.
    pub fn extract_from_html(&self, html: String) -> (r: Vec<Item>)
        requires
            self.pipe_free(),
        ensures
            match self.root_selector {
                Some(root) => {
                    let results = spec_root_results(seq![html@], root@, self.extraction_rules@);
                    r@.len() == spec_max_len(results) && (forall|i: int|
                        0 <= i < r@.len() ==> item_view(#[trigger] r@[i]) == aligned_row(
                            rule_names(self.extraction_rules@),
                            results,
                            i,
                            self.extraction_rules@.len() as int,
                        ))
                },
                None => {
                    let vals = spec_single_values(seq![html@], self.extraction_rules@);
                    if forall|k: int| 0 <= k < vals.len() ==> #[trigger] vals[k].len() == 0 {
                        r@.len() == 0
                    } else {
                        r@.len() == 1 && item_view(r@[0]) == single_row(
                            rule_names(self.extraction_rules@),
                            vals,
                            self.extraction_rules@.len() as int,
                        )
                    }
                },
            },
    {
        let ghost h = html@;
        let mut cs = chad_new();
        chad_add_html(&mut cs, html);
        proof {
            assert(chad_docs(cs) =~= seq![h]);
        }
        let n = self.extraction_rules.len();
        match &self.root_selector {
            Some(root) => {
                let ghost results = spec_root_results(seq![h], root@, self.extraction_rules@);
                let mut names: Vec<String> = Vec::new();
                let mut field_results: Vec<Vec<String>> = Vec::new();
                let mut k: usize = 0;
                while k < n
                    invariant
                        self.pipe_free(),
                        k <= n,
                        n == self.extraction_rules@.len(),
                        chad_docs(cs) == seq![h],
                        self.root_selector == Some(*root),
                        results == spec_root_results(seq![h], root@, self.extraction_rules@),
                        names@.len() == k,
                        field_results@.len() == k,
                        forall|j: int| 0 <= j < k ==> names@[j] == self.extraction_rules@[j].0,
                        forall|j: int|
                            0 <= j < k ==> strs_view(#[trigger] field_results@[j]@) == results[j],
                    decreases n - k,
                {
                    let name = self.extraction_rules[k].0.clone();
                    proof {
                        assert(!has_function_pipe(self.extraction_rules@[k as int].1.selector@));
                    }
                    let q = combined_query(root, &self.extraction_rules[k].1.selector);
                    let res = chad_query_all(&cs, q.as_str());
                    proof {
                        assert(results[k as int] == chad_query_results(
                            seq![h],
                            spec_combined_query(root@, self.extraction_rules@[k as int].1.selector@),
                        ));
                        assert(res@.map_values(|s: String| s@) == strs_view(res@));
                    }
                    names.push(name);
                    field_results.push(res);
                    k = k + 1;
                }
                let items = align_items(&names, &field_results);
                proof {
                    assert(strs_view(names@) =~= rule_names(self.extraction_rules@));
                    assert(results_views(field_results@) =~= results);
                }
                items
            },
            None => {
                let ghost vals = spec_single_values(seq![h], self.extraction_rules@);
                let mut names: Vec<String> = Vec::new();
                let mut values: Vec<String> = Vec::new();
                let mut k: usize = 0;
                while k < n
                    invariant
                        self.pipe_free(),
                        k <= n,
                        n == self.extraction_rules@.len(),
                        chad_docs(cs) == seq![h],
                        self.root_selector is None,
                        vals == spec_single_values(seq![h], self.extraction_rules@),
                        names@.len() == k,
                        values@.len() == k,
                        forall|j: int| 0 <= j < k ==> names@[j] == self.extraction_rules@[j].0,
                        forall|j: int| 0 <= j < k ==> #[trigger] values@[j]@ == vals[j],
                    decreases n - k,
                {
                    let name = self.extraction_rules[k].0.clone();
                    proof {
                        assert(!has_function_pipe(self.extraction_rules@[k as int].1.selector@));
                    }
                    let q = with_css_prefix(&self.extraction_rules[k].1.selector);
                    let v = chad_select_one(&cs, q.as_str());
                    proof {
                        assert(vals[k as int] == chad_select_first(
                            seq![h],
                            spec_with_css_prefix(self.extraction_rules@[k as int].1.selector@),
                        ));
                    }
                    names.push(name);
                    values.push(v);
                    k = k + 1;
                }
                proof {
                    assert(strs_view(names@) =~= rule_names(self.extraction_rules@));
                    assert(strs_view(values@) =~= vals);
                }
                match build_single_item(&names, &values) {
                    Ok(item) => {
                        let mut items: Vec<Item> = Vec::new();
                        items.push(item);
                        items
                    },
                    Err(_) => Vec::new(),
                }
            },
        }
    }
}

} // verus!
