use vstd::prelude::*;

use chadselect::ChadSelect;

use crate::text::has_function_pipe;

verus! {

#[verifier::external_type_specification]
#[verifier::external_body]
pub struct ExChadSelect(ChadSelect);

/// The HTML documents a `ChadSelect` instance holds, in load order.
pub uninterp spec fn chad_docs(cs: ChadSelect) -> Seq<Seq<char>>;

/// Every match that `ChadSelect::query` with index -1 returns for the
/// given document list and query string, in encounter order.
pub uninterp spec fn chad_query_results(docs: Seq<Seq<char>>, query: Seq<char>) -> Seq<Seq<char>>;

/// The single result `ChadSelect::select` with index 0 returns for the
/// given document list and query string.
pub uninterp spec fn chad_select_first(docs: Seq<Seq<char>>, query: Seq<char>) -> Seq<char>;

/// Relies on chadselect::ChadSelect::new: a fresh instance holds no
/// content.
#[verifier::external_body]
pub(crate) fn chad_new() -> (cs: ChadSelect)
    ensures
        chad_docs(cs) == Seq::<Seq<char>>::empty(),
{
    ChadSelect::new()
}

/// Relies on chadselect::ChadSelect::add_html: appends one HTML
/// document to the instance's content list.
#[verifier::external_body]
pub(crate) fn chad_add_html(cs: &mut ChadSelect, content: String)
    ensures
        chad_docs(*final(cs)) == chad_docs(*old(cs)).push(content@),
{
    cs.add_html(content)
}

/// Relies on chadselect::ChadSelect::query with index -1: returns all
/// matches of the query over the loaded documents; the result depends
/// on the documents and the query alone. A query without the ">>"
/// function pipe never reaches the post-processing text functions,
/// whose argument arithmetic and slicing can panic; such a query never
/// panics.
#[verifier::external_body]
pub(crate) fn chad_query_all(cs: &ChadSelect, query: &str) -> (r: Vec<String>)
    requires
        !has_function_pipe(query@),
    ensures
        r@.map_values(|s: String| s@) == chad_query_results(chad_docs(*cs), query@),
{
    cs.query(-1, query)
}

/// Relies on chadselect::ChadSelect::select with index 0: returns the
/// first match when that match is valid (non-empty, not
/// whitespace-only) and the empty string otherwise; the result depends
/// on the documents and the query alone. As with the query wrapper, a
/// query without the ">>" function pipe never panics.
#[verifier::external_body]
pub(crate) fn chad_select_one(cs: &ChadSelect, query: &str) -> (r: String)
    requires
        !has_function_pipe(query@),
    ensures
        r@ == chad_select_first(chad_docs(*cs), query@),
        r@.len() > 0 ==> chad_query_results(chad_docs(*cs), query@).len() > 0 && r@
            == chad_query_results(chad_docs(*cs), query@)[0],
{
    cs.select(0, query)
}

} // verus!
