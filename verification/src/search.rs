use vstd::prelude::*;

verus! {

/// One novel that the site's search found.
#[derive(Debug, Clone)]
pub struct SearchResult {
    pub name: String,
    pub url: String,
}

/// A search result as a (name, path) pair.
pub open spec fn result_view(r: SearchResult) -> (Seq<char>, Seq<char>) {
    (r.name@, r.url@)
}

/// The search results as (name, path) pairs.
pub open spec fn results_view(rs: Seq<SearchResult>) -> Seq<(Seq<char>, Seq<char>)> {
    rs.map_values(|r: SearchResult| result_view(r))
}

/// The names offered for selection, in the order of the results.
pub fn result_names(results: &Vec<SearchResult>) -> (names: Vec<String>)
    ensures
        names.len() == results.len(),
        forall|i: int| 0 <= i < results.len() ==> (#[trigger] names@[i])@ == results@[i].name@,
{
    let mut names: Vec<String> = Vec::new();
    for i in 0..results.len()
        invariant
            names.len() == i,
            forall|j: int| 0 <= j < i ==> (#[trigger] names@[j])@ == results@[j].name@,
    {
        names.push(results[i].name.clone());
    }
    names
}

/// The path of the result that was selected.
pub fn selected_url(results: &Vec<SearchResult>, selection: usize) -> (url: String)
    requires
        selection < results.len(),
    ensures
        url@ == results@[selection as int].url@,
{
    results[selection].url.clone()
}

/// Selecting the entry shown under a name gives the path of the result that has that
/// name: the names and the results stand in the same order.
pub proof fn lemma_selection_matches_names(
    results: Seq<SearchResult>,
    names: Seq<String>,
    selection: int,
)
    requires
        names.len() == results.len(),
        forall|i: int| 0 <= i < results.len() ==> (#[trigger] names[i])@ == results[i].name@,
        0 <= selection < results.len(),
    ensures
        results_view(results)[selection] == (names[selection]@, results[selection].url@),
{
}

} // verus!
