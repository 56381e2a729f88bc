use vstd::prelude::*;
use crate::matching::occurs_at;
use crate::search::{key_of, lower_of, search_result, selected};
use crate::text::{lines_of, lines_upto};

verus! {

proof fn lemma_empty_key_selects_all(ls: Seq<Seq<char>>, query: Seq<char>, ignore_case: bool)
    requires
        key_of(query, ignore_case).len() == 0,
    ensures
        selected(ls, query, ignore_case) == ls,
    decreases ls.len(),
{
    if ls.len() > 0 {
        lemma_empty_key_selects_all(ls.drop_last(), query, ignore_case);
        let k = key_of(ls.last(), ignore_case);
        assert(k.subrange(0, 0) == key_of(query, ignore_case));
        assert(occurs_at(k, key_of(query, ignore_case), 0));
        assert(ls.drop_last().push(ls.last()) == ls);
    }
}

/// An empty query (one whose compared form is empty) selects every line of the
/// contents, in order, and shows each one as it is.
pub proof fn law_empty_query_selects_every_line(
    contents: Seq<char>,
    query: Seq<char>,
    ignore_case: bool,
    highlight: bool,
    r: Seq<Seq<char>>,
)
    ensures
        key_of(query, ignore_case).len() == 0 ==> selected(lines_of(contents), query, ignore_case)
            == lines_of(contents),
        key_of(query, ignore_case).len() == 0 && search_result(
            query,
            contents,
            ignore_case,
            highlight,
            r,
        ) ==> r == lines_of(contents),
{
    if key_of(query, ignore_case).len() == 0 {
        let ls = lines_of(contents);
        lemma_empty_key_selects_all(ls, query, ignore_case);
        if search_result(query, contents, ignore_case, highlight, r) {
            assert forall|k: int| 0 <= k < r.len() implies r[k] == ls[k] by {
                crate::matching::lemma_empty_query_shows_line(
                    ls[k],
                    key_of(ls[k], ignore_case),
                    key_of(query, ignore_case),
                    highlight,
                    r[k],
                );
            }
            assert(r == ls);
        }
    }
}

proof fn lemma_lowercase_select_alike(ls: Seq<Seq<char>>, query: Seq<char>)
    requires
        lower_of(query) == query,
        forall|k: int| 0 <= k < ls.len() ==> lower_of(#[trigger] ls[k]) == ls[k],
    ensures
        selected(ls, query, true) == selected(ls, query, false),
    decreases ls.len(),
{
    if ls.len() > 0 {
        assert(lower_of(ls[ls.len() - 1]) == ls[ls.len() - 1]);
        lemma_lowercase_select_alike(ls.drop_last(), query);
    }
}

/// Where the query and every line are already in lowercase, the case-insensitive
/// search selects the same lines as the exact one and may show them the same way.
pub proof fn law_lowercase_inputs_search_alike(
    query: Seq<char>,
    contents: Seq<char>,
    highlight: bool,
    r: Seq<Seq<char>>,
)
    ensures
        lower_of(query) == query && (forall|k: int|
            0 <= k < lines_of(contents).len() ==> lower_of(#[trigger] lines_of(contents)[k])
                == lines_of(contents)[k]) ==> selected(lines_of(contents), query, true) == selected(
            lines_of(contents),
            query,
            false,
        ) && (search_result(query, contents, true, highlight, r) <==> search_result(
            query,
            contents,
            false,
            highlight,
            r,
        )),
{
    let ls = lines_of(contents);
    if lower_of(query) == query && (forall|k: int|
        0 <= k < ls.len() ==> lower_of(#[trigger] ls[k]) == ls[k]) {
        lemma_lowercase_select_alike(ls, query);
        let sel = selected(ls, query, false);
        lemma_selected_from(ls, query, false);
        assert forall|k: int| 0 <= k < sel.len() implies key_of(#[trigger] sel[k], true) == key_of(
            sel[k],
            false,
        ) by {
            let j = choose|j: int| 0 <= j < ls.len() && ls[j] == sel[k];
            assert(lower_of(ls[j]) == ls[j]);
        }
    }
}

proof fn lemma_selected_from(ls: Seq<Seq<char>>, query: Seq<char>, ignore_case: bool)
    ensures
        forall|k: int|
            0 <= k < selected(ls, query, ignore_case).len() ==> exists|j: int|
                0 <= j < ls.len() && ls[j] == #[trigger] selected(ls, query, ignore_case)[k],
    decreases ls.len(),
{
    if ls.len() > 0 {
        let prev = ls.drop_last();
        lemma_selected_from(prev, query, ignore_case);
        let sel = selected(ls, query, ignore_case);
        assert forall|k: int| 0 <= k < sel.len() implies exists|j: int|
            0 <= j < ls.len() && ls[j] == #[trigger] sel[k] by {
            if k < selected(prev, query, ignore_case).len() {
                let j = choose|j: int|
                    0 <= j < prev.len() && prev[j] == selected(prev, query, ignore_case)[k];
                assert(ls[j] == sel[k]);
            } else {
                assert(ls[ls.len() - 1] == sel[k]);
            }
        }
    }
}

/// The search without highlighting is a function of its inputs: two results of it
/// on the same query, contents and mode are equal.
pub proof fn law_plain_search_repeatable(
    query: Seq<char>,
    contents: Seq<char>,
    ignore_case: bool,
    r1: Seq<Seq<char>>,
    r2: Seq<Seq<char>>,
)
    ensures
        search_result(query, contents, ignore_case, false, r1) && search_result(
            query,
            contents,
            ignore_case,
            false,
            r2,
        ) ==> r1 == r2,
{
    if search_result(query, contents, ignore_case, false, r1) && search_result(
        query,
        contents,
        ignore_case,
        false,
        r2,
    ) {
        let sel = selected(lines_of(contents), query, ignore_case);
        assert forall|k: int| 0 <= k < r1.len() implies r1[k] == r2[k] by {
            assert(r1[k] == sel[k]);
            assert(r2[k] == sel[k]);
        }
        assert(r1 == r2);
    }
}

/// Empty contents have no lines, so every search of them comes back empty.
pub proof fn law_empty_contents_give_nothing(
    query: Seq<char>,
    ignore_case: bool,
    highlight: bool,
    r: Seq<Seq<char>>,
)
    ensures
        lines_of(Seq::<char>::empty()).len() == 0,
        search_result(query, Seq::<char>::empty(), ignore_case, highlight, r) ==> r.len() == 0,
{
    assert(lines_upto(Seq::<char>::empty()).0.len() == 0);
}

} // verus!
