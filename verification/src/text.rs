use vstd::prelude::*;

verus! {

/// The texts of a sequence of strings.
pub open spec fn views(v: Seq<String>) -> Seq<Seq<char>> {
    v.map_values(|x: String| x@)
}

pub broadcast proof fn lemma_views_push(v: Seq<String>, x: String)
    ensures
        #[trigger] views(v.push(x)) == views(v).push(x@),
{
    assert(views(v.push(x)) =~= views(v).push(x@));
}

pub broadcast proof fn lemma_views_index(v: Seq<String>, i: int)
    requires
        0 <= i < v.len(),
    ensures
        #[trigger] views(v)[i] == v[i]@,
{
}

pub broadcast proof fn lemma_views_len(v: Seq<String>)
    ensures
        #[trigger] views(v).len() == v.len(),
{
}

pub broadcast group group_views {
    lemma_views_push,
    lemma_views_index,
    lemma_views_len,
}

} // verus!
