use crate::json::{
    first_present, json_table, json_table_of, leaf_at, listed_rows, pointers, string_at,
    string_of_first_present, JsonLeaf, JsonLeafView,
};
use crate::model::{InspoItem, ItemView};
use crate::sources::{
    build_paged_url, chars_or, filter_map, item_view, lemma_filter_map_all,
    lemma_filter_map_from, lemma_filter_map_step, make_item, opt_seq, or_text, paged_url,
};
use crate::text::{chars_of, lemma_chars_deep_view};
use vstd::prelude::*;

verus! {

broadcast use lemma_chars_deep_view;

/// The JSON pointers read below each search result, in row order: id, small
/// and full and raw image URLs, alt text, description, author name, page link.
pub open spec fn unsplash_fields() -> Seq<Seq<char>> {
    seq![
        "/id"@,
        "/urls/small"@,
        "/urls/full"@,
        "/urls/raw"@,
        "/alt_description"@,
        "/description"@,
        "/user/name"@,
        "/links/html"@,
    ]
}

/// The grid item for one search result, or `None` when it has no id or no
/// small image.
pub open spec fn unsplash_item(row: Seq<JsonLeafView>) -> Option<ItemView> {
    let id = or_text(leaf_at(row, 0).string, Seq::empty());
    let thumbnail = or_text(leaf_at(row, 1).string, Seq::empty());
    let full = or_text(first_present(leaf_at(row, 2), leaf_at(row, 3)).string, thumbnail);
    let title = or_text(first_present(leaf_at(row, 4), leaf_at(row, 5)).string, Seq::empty());
    let author = or_text(leaf_at(row, 6).string, Seq::empty());
    let link = or_text(leaf_at(row, 7).string, "https://unsplash.com/"@);
    if id.len() == 0 || thumbnail.len() == 0 {
        None
    } else {
        Some(item_view(id, "unsplash"@, "Unsplash"@, title, author, thumbnail, full, link))
    }
}

/// [`unsplash_item`] as a function.
pub open spec fn unsplash_row() -> spec_fn(Seq<JsonLeafView>) -> Option<ItemView> {
    |row: Seq<JsonLeafView>| unsplash_item(row)
}

/// Unsplash via its internal `napi` endpoint (no API key required).
/// This is one of the more reliable sources.
pub struct Unsplash;

/// Every item of an answer comes from this source and has a non-empty id and
/// a non-empty thumbnail.
pub proof fn law_unsplash_items(rows: Seq<Seq<JsonLeafView>>)
    ensures
        forall|k: int|
            0 <= k < filter_map(rows, unsplash_row()).len() ==> {
                let it = #[trigger] filter_map(rows, unsplash_row())[k];
                &&& it.source == "unsplash"@
                &&& it.id.len() > 0
                &&& it.thumbnail.len() > 0
            },
{
    assert forall|k: int| 0 <= k < filter_map(rows, unsplash_row()).len() implies {
        let it = #[trigger] filter_map(rows, unsplash_row())[k];
        &&& it.source == "unsplash"@
        &&& it.id.len() > 0
        &&& it.thumbnail.len() > 0
    } by {
        lemma_filter_map_from(rows, unsplash_row(), k);
    }
}

impl Unsplash {
    /// Stable machine id.
    pub fn id(&self) -> (r: &'static str)
        ensures
            r@ == "unsplash"@,
    {
        "unsplash"
    }

    /// Human-facing label.
    pub fn label(&self) -> (r: &'static str)
        ensures
            r@ == "Unsplash"@,
    {
        "Unsplash"
    }

    /// Referer sent when downloading images from this source (hotlink bypass).
    pub fn referer(&self) -> (r: &'static str)
        ensures
            r@ == "https://unsplash.com/"@,
    {
        "https://unsplash.com/"
    }

    /// The search request for `query`, 30 results per page.
    pub fn search_url(&self, query: &str, page: u32) -> (r: String)
        ensures
            r@ == paged_url(
                "https://unsplash.com/napi/search/photos?query="@,
                query@,
                "&per_page=30&page="@,
                page,
            ),
    {
        build_paged_url("https://unsplash.com/napi/search/photos?query=", query, "&per_page=30&page=", page)
    }

    /// The grid item for one row read with [`unsplash_fields`].
    pub fn row_item(&self, row: &Vec<JsonLeaf>) -> (r: Option<InspoItem>)
        ensures
            r.deep_view() == unsplash_item(row.deep_view()),
    {
        let empty: Vec<char> = Vec::new();
        let id = chars_or(&string_at(row, 0), &empty);
        if id.len() == 0 {
            return None;
        }
        let thumbnail = chars_or(&string_at(row, 1), &empty);
        let full = chars_or(&string_of_first_present(row, 2, 3), &thumbnail);
        if thumbnail.len() == 0 {
            return None;
        }
        let title = chars_or(&string_of_first_present(row, 4, 5), &empty);
        let author = chars_or(&string_at(row, 6), &empty);
        let link = chars_or(&string_at(row, 7), &chars_of("https://unsplash.com/"));
        Some(make_item(&id, self.id(), self.label(), &title, &author, &thumbnail, &full, &link))
    }

    /// The grid items for the rows of a search answer, in order.
    pub fn items(&self, rows: &Vec<Vec<JsonLeaf>>) -> (r: Vec<InspoItem>)
        ensures
            r.deep_view() == filter_map(rows.deep_view(), unsplash_row()),
    {
        let ghost rs = rows.deep_view();
        let mut out: Vec<InspoItem> = Vec::new();
        let mut i: usize = 0;
        while i < rows.len()
            invariant
                i <= rows.len(),
                rs == rows.deep_view(),
                out.deep_view() == filter_map(rs.take(i as int), unsplash_row()),
            decreases rows.len() - i,
        {
            proof {
                lemma_filter_map_step(rs, unsplash_row(), i as int);
            }
            let ghost before = out.deep_view();
            match self.row_item(&rows[i]) {
                Some(it) => {
                    out.push(it);
                    assert(out.deep_view() =~= before + opt_seq(unsplash_row()(rs[i as int])));
                },
                None => {
                    assert(before + opt_seq(unsplash_row()(rs[i as int])) =~= before);
                },
            }
            i = i + 1;
        }
        proof {
            lemma_filter_map_all(rs, unsplash_row());
        }
        out
    }

    /// The grid items of a search answer; `None` when the body is not JSON.
    pub fn parse(&self, body: &str) -> (r: Option<Vec<InspoItem>>)
        ensures
            r.deep_view() == match json_table_of(body@, "/results"@, unsplash_fields(), seq![]) {
                Some(t) => Some(filter_map(listed_rows(t), unsplash_row())),
                None => None,
            },
    {
        let fields = vec![
            "/id",
            "/urls/small",
            "/urls/full",
            "/urls/raw",
            "/alt_description",
            "/description",
            "/user/name",
            "/links/html",
        ];
        let top: Vec<&str> = Vec::new();
        assert(pointers(fields@) =~= unsplash_fields());
        assert(pointers(top@) =~= seq![]);
        match json_table(body, "/results", fields.as_slice(), top.as_slice()) {
            Some(t) => Some(self.items(&t.into_rows())),
            None => None,
        }
    }
}

} // verus!
