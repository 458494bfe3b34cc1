//! The decisions behind the user-interface commands: which sources a search
//! asks, how their answers merge, when a save request is refused, and how a
//! second page is judged.
use crate::model::{InspoItem, ItemView, SearchResponse, SourceError, SourceErrorView};
use crate::sources::{catalog, opt_seq};
use crate::text::{chars_eq, chars_of, lemma_chars_deep_view, owned, string_of, trim, trimmed};
use vstd::prelude::*;

verus! {

broadcast use lemma_chars_deep_view;

/// The query a search runs: the text typed, without surrounding blanks.
pub fn normalize_query(query: &str) -> (r: String)
    ensures
        r@ == trim(query@),
{
    string_of(&trimmed(&chars_of(query)))
}

/// The answer a search gets before any source is asked: when the query is
/// blank, an empty answer (no item, no error); otherwise `None`, and the
/// selected sources are asked.
pub fn blank_search(query: &str) -> (r: Option<SearchResponse>)
    ensures
        r is Some <==> trim(query@).len() == 0,
        r matches Some(resp) ==> resp.items.deep_view() == Seq::<ItemView>::empty()
            && resp.errors.deep_view() == Seq::<SourceErrorView>::empty(),
{
    if trimmed(&chars_of(query)).len() == 0 {
        Some(SearchResponse::empty())
    } else {
        None
    }
}

/// The positions, among the first `n` catalogue entries and in display order,
/// of the sources whose id was requested.
pub open spec fn selected_upto(requested: Seq<Seq<char>>, n: nat) -> Seq<usize>
    decreases n,
{
    if n == 0 {
        Seq::empty()
    } else {
        selected_upto(requested, (n - 1) as nat) + if requested.contains(catalog()[n - 1].0) {
            seq![(n - 1) as usize]
        } else {
            Seq::empty()
        }
    }
}

/// The catalogue positions of the requested sources, in display order.
pub open spec fn selected(requested: Seq<Seq<char>>) -> Seq<usize> {
    selected_upto(requested, catalog().len())
}

/// A search asks only requested sources, each once, in display order.
pub proof fn law_selected(requested: Seq<Seq<char>>, n: nat)
    requires
        n <= catalog().len(),
    ensures
        forall|k: int|
            0 <= k < selected_upto(requested, n).len() ==> #[trigger] selected_upto(requested, n)[k]
                < n && requested.contains(catalog()[selected_upto(requested, n)[k] as int].0),
        forall|i: int, j: int|
            0 <= i < j < selected_upto(requested, n).len() ==> selected_upto(requested, n)[i]
                < selected_upto(requested, n)[j],
    decreases n,
{
    if n > 0 {
        law_selected(requested, (n - 1) as nat);
        let p = selected_upto(requested, (n - 1) as nat);
        let q = selected_upto(requested, n);
        assert forall|k: int| 0 <= k < q.len() implies #[trigger] q[k] < n && requested.contains(
            catalog()[q[k] as int].0,
        ) by {
            if k < p.len() {
                assert(q[k] == p[k]);
            }
        }
        assert forall|i: int, j: int| 0 <= i < j < q.len() implies q[i] < q[j] by {
            assert(q[i] == p[i]);
            if j < p.len() {
                assert(q[j] == p[j]);
            }
        }
    }
}

/// No requested source is left out: every catalogue position whose id was
/// requested is among the positions asked, however many ids were requested.
pub proof fn law_selected_complete(requested: Seq<Seq<char>>, n: nat)
    requires
        n <= catalog().len(),
    ensures
        forall|k: int|
            0 <= k < n && requested.contains(#[trigger] catalog()[k].0) ==> selected_upto(
                requested,
                n,
            ).contains(k as usize),
    decreases n,
{
    if n > 0 {
        law_selected_complete(requested, (n - 1) as nat);
        let p = selected_upto(requested, (n - 1) as nat);
        let q = selected_upto(requested, n);
        assert forall|k: int|
            0 <= k < n && requested.contains(#[trigger] catalog()[k].0) implies q.contains(
            k as usize,
        ) by {
            if k < n - 1 {
                let j = choose|j: int| 0 <= j < p.len() && p[j] == k as usize;
                assert(q[j] == p[j]);
            } else {
                assert(q[q.len() - 1] == (n - 1) as usize);
            }
        }
    }
}

/// The sources a search asks are exactly the requested ones: a catalogue
/// position is asked if and only if its id was requested.
pub proof fn law_selected_exact(requested: Seq<Seq<char>>)
    ensures
        forall|k: int|
            0 <= k < catalog().len() ==> (selected(requested).contains(k as usize)
                <==> requested.contains(#[trigger] catalog()[k].0)),
{
    law_selected_complete(requested, catalog().len());
    law_selected(requested, catalog().len());
    assert forall|k: int|
        0 <= k < catalog().len() && selected(requested).contains(k as usize) implies requested.contains(
        #[trigger] catalog()[k].0,
    ) by {
        let j = choose|j: int| 0 <= j < selected(requested).len() && selected(requested)[j] == k as usize;
        assert(selected_upto(requested, catalog().len())[j] == k as usize);
    }
}

fn requested_contains(requested: &Vec<String>, id: &str) -> (r: bool)
    ensures
        r == requested.deep_view().contains(id@),
{
    let want = chars_of(id);
    let mut i: usize = 0;
    while i < requested.len()
        invariant
            i <= requested.len(),
            want@ == id@,
            forall|k: int| 0 <= k < i ==> requested.deep_view()[k] != id@,
        decreases requested.len() - i,
    {
        if chars_eq(&chars_of(requested[i].as_str()), &want) {
            assert(requested.deep_view()[i as int] == id@);
            return true;
        }
        i = i + 1;
    }
    false
}

/// The catalogue positions of the sources whose id is in `requested`, in
/// display order (the order of `sources::list`).
pub fn selected_sources(requested: &Vec<String>) -> (r: Vec<usize>)
    ensures
        r@ == selected(requested.deep_view()),
{
    let infos = crate::sources::list();
    assert(infos.deep_view().len() == infos.len());
    let mut r: Vec<usize> = Vec::new();
    let mut k: usize = 0;
    while k < infos.len()
        invariant
            k <= infos.len(),
            infos.deep_view() == crate::sources::listing(),
            infos.len() == catalog().len(),
            r@ == selected_upto(requested.deep_view(), k as nat),
        decreases infos.len() - k,
    {
        assert(infos.deep_view()[k as int] == infos@[k as int].deep_view());
        assert(crate::sources::listing()[k as int] == (catalog()[k as int].0, catalog()[k as int].1));
        assert(infos@[k as int].id@ == catalog()[k as int].0);
        if requested_contains(requested, infos[k].id.as_str()) {
            r.push(k);
        }
        k = k + 1;
        assert(r@ =~= selected_upto(requested.deep_view(), k as nat));
    }
    r
}

/// The error a failed source reports to the user.
pub fn source_error(source: &str, source_label: &str, message: &str) -> (r: SourceError)
    ensures
        r@ == (SourceErrorView { source: source@, source_label: source_label@, message: message@ }),
{
    SourceError { source: owned(source), source_label: owned(source_label), message: owned(message) }
}

/// What one asked source adds to a search, given what asking it gave: the
/// items it found, or no item and one error under its id and label.
pub open spec fn answer_of(
    source: Seq<char>,
    source_label: Seq<char>,
    outcome: Result<Seq<ItemView>, Seq<char>>,
) -> (Seq<ItemView>, Option<SourceErrorView>) {
    match outcome {
        Ok(items) => (items, None),
        Err(m) => (
            Seq::empty(),
            Some(SourceErrorView { source, source_label, message: m }),
        ),
    }
}

/// The view of what asking a source gave.
pub open spec fn outcome_view(outcome: Result<Vec<InspoItem>, String>) -> Result<
    Seq<ItemView>,
    Seq<char>,
> {
    match outcome {
        Ok(items) => Ok(items.deep_view()),
        Err(m) => Err(m@),
    }
}

/// What one asked source adds to a search: the items it found when it
/// answered, or no item and one error, under its id and label, with the
/// message it failed with.
pub fn source_answer(source: &str, source_label: &str, outcome: Result<Vec<InspoItem>, String>) -> (r: (
    Vec<InspoItem>,
    Option<SourceError>,
))
    ensures
        r.deep_view() == answer_of(source@, source_label@, outcome_view(outcome)),
{
    match outcome {
        Ok(items) => (items, None),
        Err(m) => {
            let none: Vec<InspoItem> = Vec::new();
            assert(none.deep_view() =~= Seq::<ItemView>::empty());
            (none, Some(source_error(source, source_label, m.as_str())))
        },
    }
}

/// The items of every answer, concatenated in answer order.
pub open spec fn all_items(rs: Seq<(Seq<ItemView>, Option<SourceErrorView>)>) -> Seq<ItemView>
    decreases rs.len(),
{
    if rs.len() == 0 {
        Seq::empty()
    } else {
        all_items(rs.drop_last()) + rs.last().0
    }
}

/// The errors of the failed answers, in answer order.
pub open spec fn all_errors(rs: Seq<(Seq<ItemView>, Option<SourceErrorView>)>) -> Seq<
    SourceErrorView,
>
    decreases rs.len(),
{
    if rs.len() == 0 {
        Seq::empty()
    } else {
        all_errors(rs.drop_last()) + opt_seq(rs.last().1)
    }
}

/// Merging loses no item and invents none: the merged items number as many as
/// all answers hold together, and there is at most one error per answer.
pub proof fn law_merge_sizes(rs: Seq<(Seq<ItemView>, Option<SourceErrorView>)>)
    ensures
        all_items(rs).len() == item_total(rs),
        all_errors(rs).len() <= rs.len(),
    decreases rs.len(),
{
    if rs.len() > 0 {
        law_merge_sizes(rs.drop_last());
    }
}

/// How many of the answers carry no error, that is, how many sources answered.
pub open spec fn answered(rs: Seq<(Seq<ItemView>, Option<SourceErrorView>)>) -> nat
    decreases rs.len(),
{
    if rs.len() == 0 {
        0
    } else {
        answered(rs.drop_last()) + if rs.last().1 is None {
            1nat
        } else {
            0nat
        }
    }
}

/// A failing source costs one error and nothing more: the errors of a merged
/// search and the sources that answered together number the sources asked.
pub proof fn law_errors_and_answers(rs: Seq<(Seq<ItemView>, Option<SourceErrorView>)>)
    ensures
        all_errors(rs).len() + answered(rs) == rs.len(),
    decreases rs.len(),
{
    if rs.len() > 0 {
        law_errors_and_answers(rs.drop_last());
    }
}

/// The merged items of two runs of answers, one after the other.
proof fn lemma_all_items_concat(
    a: Seq<(Seq<ItemView>, Option<SourceErrorView>)>,
    b: Seq<(Seq<ItemView>, Option<SourceErrorView>)>,
)
    ensures
        all_items(a + b) == all_items(a) + all_items(b),
    decreases b.len(),
{
    if b.len() == 0 {
        assert(a + b =~= a);
        assert(all_items(a) + all_items(b) =~= all_items(a));
    } else {
        lemma_all_items_concat(a, b.drop_last());
        assert((a + b).drop_last() =~= a + b.drop_last());
        assert((a + b).last() == b.last());
        assert(all_items(a) + all_items(b) =~= all_items(a) + all_items(b.drop_last()) + b.last().0);
    }
}

/// Each answer holds its own place in the merged items: the items of answer
/// `k` stand between those of the answers before it and those after it,
/// whatever the other answers hold.
pub proof fn law_merge_place(rs: Seq<(Seq<ItemView>, Option<SourceErrorView>)>, k: int)
    requires
        0 <= k < rs.len(),
    ensures
        all_items(rs) == all_items(rs.take(k)) + rs[k].0 + all_items(rs.skip(k + 1)),
{
    let front = rs.take(k + 1);
    assert(front.drop_last() =~= rs.take(k));
    assert(front.last() == rs[k]);
    assert(front + rs.skip(k + 1) =~= rs);
    lemma_all_items_concat(front, rs.skip(k + 1));
}

/// The items of an outcome, none when it failed.
pub open spec fn ok_items(outcome: Result<Seq<ItemView>, Seq<char>>) -> Seq<ItemView> {
    match outcome {
        Ok(items) => items,
        Err(_) => Seq::empty(),
    }
}

/// The answers of the asked sources, given each one's id, label and what
/// asking it gave.
pub open spec fn answers(
    outcomes: Seq<(Seq<char>, Seq<char>, Result<Seq<ItemView>, Seq<char>>)>,
) -> Seq<(Seq<ItemView>, Option<SourceErrorView>)> {
    outcomes.map_values(
        |o: (Seq<char>, Seq<char>, Result<Seq<ItemView>, Seq<char>>)| answer_of(o.0, o.1, o.2),
    )
}

/// How many of the asked sources answered.
pub open spec fn succeeded(
    outcomes: Seq<(Seq<char>, Seq<char>, Result<Seq<ItemView>, Seq<char>>)>,
) -> nat
    decreases outcomes.len(),
{
    if outcomes.len() == 0 {
        0
    } else {
        succeeded(outcomes.drop_last()) + if outcomes.last().2 is Ok {
            1nat
        } else {
            0nat
        }
    }
}

proof fn lemma_answered_succeeded(
    outcomes: Seq<(Seq<char>, Seq<char>, Result<Seq<ItemView>, Seq<char>>)>,
)
    ensures
        answered(answers(outcomes)) == succeeded(outcomes),
    decreases outcomes.len(),
{
    if outcomes.len() > 0 {
        lemma_answered_succeeded(outcomes.drop_last());
        assert(answers(outcomes).drop_last() =~= answers(outcomes.drop_last()));
    }
}

/// A search with failing sources still answers: each source that answered
/// adds exactly its items, in its place, whatever the other sources did; a
/// failing source adds no item and one error; and the errors and the sources
/// that answered together number the sources asked.
pub proof fn law_partial_failure(
    outcomes: Seq<(Seq<char>, Seq<char>, Result<Seq<ItemView>, Seq<char>>)>,
)
    ensures
        all_errors(answers(outcomes)).len() + succeeded(outcomes) == outcomes.len(),
        forall|k: int|
            0 <= k < outcomes.len() && (#[trigger] outcomes[k]).2 is Ok ==> all_items(
                answers(outcomes),
            ) == all_items(answers(outcomes).take(k)) + ok_items(outcomes[k].2) + all_items(
                answers(outcomes).skip(k + 1),
            ),
        forall|k: int|
            0 <= k < outcomes.len() && (#[trigger] outcomes[k]).2 is Err ==> answers(outcomes)[k].0
                == Seq::<ItemView>::empty() && answers(outcomes)[k].1 is Some,
{
    law_errors_and_answers(answers(outcomes));
    lemma_answered_succeeded(outcomes);
    assert forall|k: int|
        0 <= k < outcomes.len() && (#[trigger] outcomes[k]).2 is Ok implies all_items(
        answers(outcomes),
    ) == all_items(answers(outcomes).take(k)) + ok_items(outcomes[k].2) + all_items(
        answers(outcomes).skip(k + 1),
    ) by {
        law_merge_place(answers(outcomes), k);
    }
}

/// Two searches over the same sources that differ only in which of the others
/// fail: a source that answered the same way in both adds the same items to
/// both, each time in its own place.
pub proof fn law_answer_independent(
    first: Seq<(Seq<char>, Seq<char>, Result<Seq<ItemView>, Seq<char>>)>,
    second: Seq<(Seq<char>, Seq<char>, Result<Seq<ItemView>, Seq<char>>)>,
    k: int,
)
    requires
        first.len() == second.len(),
        0 <= k < first.len(),
        first[k] == second[k],
        first[k].2 is Ok,
    ensures
        answers(first)[k] == answers(second)[k],
        answers(first)[k].0 == ok_items(first[k].2),
        all_items(answers(first)) == all_items(answers(first).take(k)) + ok_items(first[k].2)
            + all_items(answers(first).skip(k + 1)),
        all_items(answers(second)) == all_items(answers(second).take(k)) + ok_items(first[k].2)
            + all_items(answers(second).skip(k + 1)),
{
    law_partial_failure(first);
    law_partial_failure(second);
    assert(first[k].2 is Ok);
    assert(second[k].2 is Ok);
}

/// How many items the answers hold together.
pub open spec fn item_total(rs: Seq<(Seq<ItemView>, Option<SourceErrorView>)>) -> nat
    decreases rs.len(),
{
    if rs.len() == 0 {
        0
    } else {
        item_total(rs.drop_last()) + rs.last().0.len()
    }
}

fn clone_item(it: &InspoItem) -> (r: InspoItem)
    ensures
        r@ == it@,
{
    InspoItem {
        id: it.id.clone(),
        source: it.source.clone(),
        source_label: it.source_label.clone(),
        title: it.title.clone(),
        author: it.author.clone(),
        thumbnail: it.thumbnail.clone(),
        full: it.full.clone(),
        link: it.link.clone(),
    }
}

impl SearchResponse {
    /// The answer to a search that asks no source.
    pub fn empty() -> (r: SearchResponse)
        ensures
            r.items.deep_view() == Seq::<ItemView>::empty(),
            r.errors.deep_view() == Seq::<SourceErrorView>::empty(),
    {
        let r = SearchResponse { items: Vec::new(), errors: Vec::new() };
        assert(r.items.deep_view() =~= Seq::<ItemView>::empty());
        assert(r.errors.deep_view() =~= Seq::<SourceErrorView>::empty());
        r
    }

    /// Merges the answers of the asked sources, each either items or an error.
    pub fn merge(results: &Vec<(Vec<InspoItem>, Option<SourceError>)>) -> (r: SearchResponse)
        ensures
            r.items.deep_view() == all_items(results.deep_view()),
            r.errors.deep_view() == all_errors(results.deep_view()),
    {
        let ghost rs = results.deep_view();
        let mut items: Vec<InspoItem> = Vec::new();
        let mut errors: Vec<SourceError> = Vec::new();
        let mut i: usize = 0;
        assert(rs.take(0) =~= Seq::<(Seq<ItemView>, Option<SourceErrorView>)>::empty());
        assert(items.deep_view() =~= Seq::<ItemView>::empty());
        assert(errors.deep_view() =~= Seq::<SourceErrorView>::empty());
        while i < results.len()
            invariant
                i <= results.len(),
                rs == results.deep_view(),
                items.deep_view() == all_items(rs.take(i as int)),
                errors.deep_view() == all_errors(rs.take(i as int)),
            decreases results.len() - i,
        {
            assert(rs.take(i + 1).drop_last() =~= rs.take(i as int));
            assert(rs.take(i + 1).last() == rs[i as int]);
            let its = &results[i].0;
            let ghost before = items.deep_view();
            let mut j: usize = 0;
            while j < its.len()
                invariant
                    j <= its.len(),
                    items.deep_view() == before + its.deep_view().take(j as int),
                decreases its.len() - j,
            {
                assert(its.deep_view()[j as int] == its@[j as int].deep_view());
                assert(its.deep_view().take(j + 1) =~= its.deep_view().take(j as int).push(
                    its.deep_view()[j as int],
                ));
                let ghost old_items = items.deep_view();
                let c = clone_item(&its[j]);
                items.push(c);
                assert(items.deep_view() =~= old_items.push(its.deep_view()[j as int]));
                j = j + 1;
                assert(items.deep_view() =~= before + its.deep_view().take(j as int));
            }
            assert(its.deep_view().take(its.len() as int) =~= its.deep_view());
            assert(rs[i as int].0 == its.deep_view());
            let ghost ebefore = errors.deep_view();
            match &results[i].1 {
                Some(e) => {
                    errors.push(source_error(e.source.as_str(), e.source_label.as_str(), e.message.as_str()));
                    assert(errors.deep_view() =~= ebefore + opt_seq(rs[i as int].1));
                },
                None => {
                    assert(ebefore + opt_seq(rs[i as int].1) =~= ebefore);
                },
            }
            i = i + 1;
        }
        assert(rs.take(results.len() as int) =~= rs);
        SearchResponse { items, errors }
    }
}

/// The message a save request without destination gets.
pub open spec fn no_folder_message() -> Seq<char> {
    "No destination folder selected"@
}

/// Refuses a save request whose destination folder is blank.
pub fn check_folder(folder: &str) -> (r: Result<(), String>)
    ensures
        trim(folder@).len() == 0 <==> r is Err,
        r matches Err(m) ==> m@ == no_folder_message(),
{
    if trimmed(&chars_of(folder)).len() == 0 {
        Err(owned("No destination folder selected"))
    } else {
        Ok(())
    }
}

/// Whether `id` is the id of one of `items`.
pub open spec fn has_id(items: Seq<ItemView>, id: Seq<char>) -> bool {
    exists|k: int| 0 <= k < items.len() && items[k].id == id
}

/// How many of `second` have an id that none of `first` has.
pub open spec fn fresh_count(first: Seq<ItemView>, second: Seq<ItemView>) -> nat
    decreases second.len(),
{
    if second.len() == 0 {
        0
    } else {
        fresh_count(first, second.drop_last()) + if has_id(first, second.last().id) {
            0nat
        } else {
            1nat
        }
    }
}

/// A second page never has more new items than items.
pub proof fn law_fresh_bound(first: Seq<ItemView>, second: Seq<ItemView>)
    ensures
        fresh_count(first, second) <= second.len(),
    decreases second.len(),
{
    if second.len() > 0 {
        law_fresh_bound(first, second.drop_last());
    }
}

fn has_item_id(items: &Vec<InspoItem>, id: &Vec<char>) -> (r: bool)
    ensures
        r == has_id(items.deep_view(), id@),
{
    let mut k: usize = 0;
    while k < items.len()
        invariant
            k <= items.len(),
            forall|j: int| 0 <= j < k ==> items.deep_view()[j].id != id@,
        decreases items.len() - k,
    {
        if chars_eq(&chars_of(items[k].id.as_str()), id) {
            assert(items.deep_view()[k as int].id == id@);
            return true;
        }
        k = k + 1;
    }
    false
}

/// How many items of a second page are new, judged by id against the first.
pub fn count_fresh(first: &Vec<InspoItem>, second: &Vec<InspoItem>) -> (r: usize)
    ensures
        r == fresh_count(first.deep_view(), second.deep_view()),
{
    let ghost s = second.deep_view();
    let mut n: usize = 0;
    let mut i: usize = 0;
    assert(s.take(0) =~= Seq::<ItemView>::empty());
    while i < second.len()
        invariant
            i <= second.len(),
            s == second.deep_view(),
            n == fresh_count(first.deep_view(), s.take(i as int)),
            n <= i,
        decreases second.len() - i,
    {
        assert(s.take(i + 1).drop_last() =~= s.take(i as int));
        assert(s.take(i + 1).last() == s[i as int]);
        if !has_item_id(first, &chars_of(second[i].id.as_str())) {
            n = n + 1;
        }
        i = i + 1;
    }
    assert(s.take(second.len() as int) =~= s);
    n
}

} // verus!
