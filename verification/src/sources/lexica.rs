use crate::json::{
    json_table, json_table_of, leaf_at, listed_rows, pointers, string_at, JsonLeaf, JsonLeafView,
};
use crate::model::{InspoItem, ItemView};
use crate::sources::{
    build_query_url, chars_or, filter_map, item_view, lemma_filter_map_all,
    lemma_filter_map_from, lemma_filter_map_step, make_item, opt_seq, or_text,
};
use crate::encode::url_encoded;
use crate::text::{chars_of, concat, copy, lemma_chars_deep_view, slice};
use vstd::prelude::*;

verus! {

broadcast use lemma_chars_deep_view;

/// The JSON pointers read below each image, in row order: id, image URL,
/// small image URL, prompt, prompt id.
pub open spec fn lexica_fields() -> Seq<Seq<char>> {
    seq!["/id"@, "/src"@, "/srcSmall"@, "/prompt"@, "/promptid"@]
}

/// At most the first `n` characters of `s`.
pub open spec fn first_chars(s: Seq<char>, n: nat) -> Seq<char> {
    if s.len() <= n {
        s
    } else {
        s.take(n as int)
    }
}

/// The grid item for one image, or `None` when it has no id or no image.
/// The title is the prompt cut to 80 characters; the link is the prompt page
/// when there is a prompt id, else the image itself.
pub open spec fn lexica_item(row: Seq<JsonLeafView>) -> Option<ItemView> {
    let id = or_text(leaf_at(row, 0).string, Seq::empty());
    let full = or_text(leaf_at(row, 1).string, Seq::empty());
    let thumbnail = or_text(leaf_at(row, 2).string, full);
    let title = first_chars(or_text(leaf_at(row, 3).string, Seq::empty()), 80);
    let link = match leaf_at(row, 4).string {
        Some(pid) => if pid.len() > 0 {
            "https://lexica.art/prompt/"@ + pid
        } else {
            full
        },
        None => full,
    };
    if id.len() == 0 || full.len() == 0 {
        None
    } else {
        Some(item_view(id, "lexica"@, "Lexica"@, title, Seq::empty(), thumbnail, full, link))
    }
}

/// [`lexica_item`] as a function.
pub open spec fn lexica_row() -> spec_fn(Seq<JsonLeafView>) -> Option<ItemView> {
    |row: Seq<JsonLeafView>| lexica_item(row)
}

/// Lexica via its public search API. AI-generated imagery — broad visual
/// inspiration rather than production UI, but reliable and keyword-searchable.
pub struct Lexica;

/// Every item of an answer comes from this source and has a non-empty id and
/// a non-empty image and a title of at most 80 characters.
pub proof fn law_lexica_items(rows: Seq<Seq<JsonLeafView>>)
    ensures
        forall|k: int|
            0 <= k < filter_map(rows, lexica_row()).len() ==> {
                let it = #[trigger] filter_map(rows, lexica_row())[k];
                &&& it.source == "lexica"@
                &&& it.id.len() > 0
                &&& it.full.len() > 0 && it.title.len() <= 80
            },
{
    assert forall|k: int| 0 <= k < filter_map(rows, lexica_row()).len() implies {
        let it = #[trigger] filter_map(rows, lexica_row())[k];
        &&& it.source == "lexica"@
        &&& it.id.len() > 0
        &&& it.full.len() > 0 && it.title.len() <= 80
    } by {
        lemma_filter_map_from(rows, lexica_row(), k);
    }
}

/// What an image of a Lexica answer becomes, in terms of the values read at
/// its `/id`, `/src` and `/srcSmall` pointers: it is kept exactly when its id
/// and its `src` are non-empty strings; the item's id is that id, its
/// full-size image is the `src` string, and its thumbnail is the `srcSmall`
/// string when there is one, else the `src` image too.
pub proof fn law_lexica_images(row: Seq<JsonLeafView>)
    ensures
        lexica_fields()[0] == "/id"@,
        lexica_fields()[1] == "/src"@,
        lexica_fields()[2] == "/srcSmall"@,
        lexica_item(row) is Some <==> (leaf_at(row, 0).string is Some && leaf_at(
            row,
            0,
        ).string.unwrap().len() > 0 && leaf_at(row, 1).string is Some && leaf_at(
            row,
            1,
        ).string.unwrap().len() > 0),
        lexica_item(row) is Some ==> {
            let it = lexica_item(row).unwrap();
            &&& leaf_at(row, 0).string == Some(it.id)
            &&& leaf_at(row, 1).string == Some(it.full)
            &&& leaf_at(row, 2).string is Some ==> leaf_at(row, 2).string == Some(it.thumbnail)
            &&& leaf_at(row, 2).string is None ==> it.thumbnail == it.full
        },
{
}

impl Lexica {
    /// Stable machine id.
    pub fn id(&self) -> (r: &'static str)
        ensures
            r@ == "lexica"@,
    {
        "lexica"
    }

    /// Human-facing label.
    pub fn label(&self) -> (r: &'static str)
        ensures
            r@ == "Lexica"@,
    {
        "Lexica"
    }

    /// Referer sent when downloading images from this source (hotlink bypass).
    pub fn referer(&self) -> (r: &'static str)
        ensures
            r@ == "https://lexica.art/"@,
    {
        "https://lexica.art/"
    }

    /// The search request for `query`. The endpoint answers with one result
    /// set and has no paging, so the page is ignored: every page asks the
    /// same request.
    pub fn search_url(&self, query: &str, page: u32) -> (r: String)
        ensures
            r@ == "https://lexica.art/api/v1/search?q="@ + url_encoded(query@),
    {
        build_query_url("https://lexica.art/api/v1/search?q=", query)
    }

    /// The grid item for one row read with [`lexica_fields`].
    pub fn row_item(&self, row: &Vec<JsonLeaf>) -> (r: Option<InspoItem>)
        ensures
            r.deep_view() == lexica_item(row.deep_view()),
    {
        let empty: Vec<char> = Vec::new();
        let id = chars_or(&string_at(row, 0), &empty);
        let full = chars_or(&string_at(row, 1), &empty);
        if id.len() == 0 || full.len() == 0 {
            return None;
        }
        let thumbnail = chars_or(&string_at(row, 2), &full);
        let prompt = chars_or(&string_at(row, 3), &empty);
        let n: usize = if prompt.len() <= 80 {
            prompt.len()
        } else {
            80
        };
        let title = slice(&prompt, 0, n);
        assert(title@ =~= first_chars(prompt@, 80));
        let link = match string_at(row, 4) {
            Some(pid) => {
                let p = chars_of(pid.as_str());
                if p.len() > 0 {
                    concat(&chars_of("https://lexica.art/prompt/"), &p)
                } else {
                    copy(&full)
                }
            },
            None => copy(&full),
        };
        Some(make_item(&id, self.id(), self.label(), &title, &empty, &thumbnail, &full, &link))
    }

    /// The grid items for the rows of a search answer, in order.
    pub fn items(&self, rows: &Vec<Vec<JsonLeaf>>) -> (r: Vec<InspoItem>)
        ensures
            r.deep_view() == filter_map(rows.deep_view(), lexica_row()),
    {
        let ghost rs = rows.deep_view();
        let mut out: Vec<InspoItem> = Vec::new();
        let mut i: usize = 0;
        while i < rows.len()
            invariant
                i <= rows.len(),
                rs == rows.deep_view(),
                out.deep_view() == filter_map(rs.take(i as int), lexica_row()),
            decreases rows.len() - i,
        {
            proof {
                lemma_filter_map_step(rs, lexica_row(), i as int);
            }
            let ghost before = out.deep_view();
            match self.row_item(&rows[i]) {
                Some(it) => {
                    out.push(it);
                    assert(out.deep_view() =~= before + opt_seq(lexica_row()(rs[i as int])));
                },
                None => {
                    assert(before + opt_seq(lexica_row()(rs[i as int])) =~= before);
                },
            }
            i = i + 1;
        }
        proof {
            lemma_filter_map_all(rs, lexica_row());
        }
        out
    }

    /// The grid items of a search answer; `None` when the body is not JSON.
    pub fn parse(&self, body: &str) -> (r: Option<Vec<InspoItem>>)
        ensures
            r.deep_view() == match json_table_of(body@, "/images"@, lexica_fields(), seq![]) {
                Some(t) => Some(filter_map(listed_rows(t), lexica_row())),
                None => None,
            },
    {
        let fields = vec!["/id", "/src", "/srcSmall", "/prompt", "/promptid"];
        let top: Vec<&str> = Vec::new();
        assert(pointers(fields@) =~= lexica_fields());
        assert(pointers(top@) =~= seq![]);
        match json_table(body, "/images", fields.as_slice(), top.as_slice()) {
            Some(t) => Some(self.items(&t.into_rows())),
            None => None,
        }
    }
}

} // verus!
