use crate::json::{
    first_present, json_table, json_table_of, leaf_at, listed_rows, pointers, string_at,
    string_of_first_present, text_at, JsonLeaf, JsonLeafView,
};
use crate::model::{InspoItem, ItemView};
use crate::sources::{
    build_paged_url, chars_or, filter_map, item_view, lemma_filter_map_all,
    lemma_filter_map_from, lemma_filter_map_step, make_item, opt_seq, or_text, paged_url,
};
use crate::text::{chars_eq, chars_of, concat, lemma_chars_deep_view};
use vstd::prelude::*;

verus! {

broadcast use lemma_chars_deep_view;

/// The JSON pointers read below each block, in row order: class, id, display
/// and thumb and original and large image URLs, title, author name.
pub open spec fn arena_fields() -> Seq<Seq<char>> {
    seq![
        "/class"@,
        "/id"@,
        "/image/display/url"@,
        "/image/thumb/url"@,
        "/image/original/url"@,
        "/image/large/url"@,
        "/title"@,
        "/user/full_name"@,
    ]
}

/// The grid item for one block: only image blocks with an id and an image
/// count. The id is the JSON text of the block's `id` value.
pub open spec fn arena_item(row: Seq<JsonLeafView>) -> Option<ItemView> {
    let id = or_text(leaf_at(row, 1).text, Seq::empty());
    let thumbnail = or_text(first_present(leaf_at(row, 2), leaf_at(row, 3)).string, Seq::empty());
    let full = or_text(first_present(leaf_at(row, 4), leaf_at(row, 5)).string, thumbnail);
    let title = or_text(leaf_at(row, 6).string, Seq::empty());
    let author = or_text(leaf_at(row, 7).string, Seq::empty());
    if leaf_at(row, 0).string != Some("Image"@) || thumbnail.len() == 0 || id.len() == 0 {
        None
    } else {
        Some(
            item_view(
                id,
                "arena"@,
                "Are.na"@,
                title,
                author,
                thumbnail,
                full,
                "https://www.are.na/block/"@ + id,
            ),
        )
    }
}

/// [`arena_item`] as a function.
pub open spec fn arena_row() -> spec_fn(Seq<JsonLeafView>) -> Option<ItemView> {
    |row: Seq<JsonLeafView>| arena_item(row)
}

/// Are.na via its public v2 API (no auth for public content).
/// A curator-heavy design community — reliable source.
pub struct Arena;

/// Every item of an answer comes from this source and has a non-empty id and
/// a non-empty thumbnail.
pub proof fn law_arena_items(rows: Seq<Seq<JsonLeafView>>)
    ensures
        forall|k: int|
            0 <= k < filter_map(rows, arena_row()).len() ==> {
                let it = #[trigger] filter_map(rows, arena_row())[k];
                &&& it.source == "arena"@
                &&& it.id.len() > 0
                &&& it.thumbnail.len() > 0
            },
{
    assert forall|k: int| 0 <= k < filter_map(rows, arena_row()).len() implies {
        let it = #[trigger] filter_map(rows, arena_row())[k];
        &&& it.source == "arena"@
        &&& it.id.len() > 0
        &&& it.thumbnail.len() > 0
    } by {
        lemma_filter_map_from(rows, arena_row(), k);
    }
}

impl Arena {
    /// Stable machine id.
    pub fn id(&self) -> (r: &'static str)
        ensures
            r@ == "arena"@,
    {
        "arena"
    }

    /// Human-facing label.
    pub fn label(&self) -> (r: &'static str)
        ensures
            r@ == "Are.na"@,
    {
        "Are.na"
    }

    /// Referer sent when downloading images from this source (hotlink bypass).
    pub fn referer(&self) -> (r: &'static str)
        ensures
            r@ == "https://www.are.na/"@,
    {
        "https://www.are.na/"
    }

    /// The search request for `query`, 32 blocks per page.
    pub fn search_url(&self, query: &str, page: u32) -> (r: String)
        ensures
            r@ == paged_url("https://api.are.na/v2/search/blocks?q="@, query@, "&per=32&page="@, page),
    {
        build_paged_url("https://api.are.na/v2/search/blocks?q=", query, "&per=32&page=", page)
    }

    /// The grid item for one row read with [`arena_fields`].
    pub fn row_item(&self, row: &Vec<JsonLeaf>) -> (r: Option<InspoItem>)
        ensures
            r.deep_view() == arena_item(row.deep_view()),
    {
        let empty: Vec<char> = Vec::new();
        let is_image = match string_at(row, 0) {
            Some(c) => chars_eq(&chars_of(c.as_str()), &chars_of("Image")),
            None => false,
        };
        if !is_image {
            return None;
        }
        let id = chars_or(&text_at(row, 1), &empty);
        let thumbnail = chars_or(&string_of_first_present(row, 2, 3), &empty);
        let full = chars_or(&string_of_first_present(row, 4, 5), &thumbnail);
        if thumbnail.len() == 0 || id.len() == 0 {
            return None;
        }
        let title = chars_or(&string_at(row, 6), &empty);
        let author = chars_or(&string_at(row, 7), &empty);
        let link = concat(&chars_of("https://www.are.na/block/"), &id);
        Some(make_item(&id, self.id(), self.label(), &title, &author, &thumbnail, &full, &link))
    }

    /// The grid items for the rows of a search answer, in order.
    pub fn items(&self, rows: &Vec<Vec<JsonLeaf>>) -> (r: Vec<InspoItem>)
        ensures
            r.deep_view() == filter_map(rows.deep_view(), arena_row()),
    {
        let ghost rs = rows.deep_view();
        let mut out: Vec<InspoItem> = Vec::new();
        let mut i: usize = 0;
        while i < rows.len()
            invariant
                i <= rows.len(),
                rs == rows.deep_view(),
                out.deep_view() == filter_map(rs.take(i as int), arena_row()),
            decreases rows.len() - i,
        {
            proof {
                lemma_filter_map_step(rs, arena_row(), i as int);
            }
            let ghost before = out.deep_view();
            match self.row_item(&rows[i]) {
                Some(it) => {
                    out.push(it);
                    assert(out.deep_view() =~= before + opt_seq(arena_row()(rs[i as int])));
                },
                None => {
                    assert(before + opt_seq(arena_row()(rs[i as int])) =~= before);
                },
            }
            i = i + 1;
        }
        proof {
            lemma_filter_map_all(rs, arena_row());
        }
        out
    }

    /// The grid items of a search answer; `None` when the body is not JSON.
    pub fn parse(&self, body: &str) -> (r: Option<Vec<InspoItem>>)
        ensures
            r.deep_view() == match json_table_of(body@, "/blocks"@, arena_fields(), seq![]) {
                Some(t) => Some(filter_map(listed_rows(t), arena_row())),
                None => None,
            },
    {
        let fields = vec![
            "/class",
            "/id",
            "/image/display/url",
            "/image/thumb/url",
            "/image/original/url",
            "/image/large/url",
            "/title",
            "/user/full_name",
        ];
        let top: Vec<&str> = Vec::new();
        assert(pointers(fields@) =~= arena_fields());
        assert(pointers(top@) =~= seq![]);
        match json_table(body, "/blocks", fields.as_slice(), top.as_slice()) {
            Some(t) => Some(self.items(&t.into_rows())),
            None => None,
        }
    }
}

} // verus!
