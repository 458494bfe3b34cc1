use crate::encode::{json_quote, json_quoted, url_encode, url_encoded};
use crate::json::{
    first_present, json_table, json_table_of, leaf_at, listed_rows, pointers, string_at,
    string_of_first_present, JsonLeaf, JsonLeafView, JsonTableView,
};
use crate::model::{InspoItem, ItemView};
use crate::sources::{
    chars_or, filter_map, first_page, item_view, lemma_filter_map_all, lemma_filter_map_from,
    lemma_filter_map_step,
    make_item, opt_chars, opt_seq, or_else, or_text,
};
use crate::text::{chars_eq, chars_of, concat, lemma_chars_deep_view, string_of};
use vstd::prelude::*;

verus! {

broadcast use lemma_chars_deep_view;

/// The JSON pointers read below each pin, in row order: id, the 474x, 236x,
/// 736x and original image URLs, grid title, title, pinner full name and
/// pinner user name.
pub open spec fn pinterest_fields() -> Seq<Seq<char>> {
    seq![
        "/id"@,
        "/images/474x/url"@,
        "/images/236x/url"@,
        "/images/736x/url"@,
        "/images/orig/url"@,
        "/grid_title"@,
        "/title"@,
        "/pinner/full_name"@,
        "/pinner/username"@,
    ]
}

/// Where the pins of an answer stand.
pub open spec fn pinterest_results() -> Seq<char> {
    "/resource_response/data/results"@
}

/// The pointer read from the root of an answer: the next-page bookmark.
pub open spec fn pinterest_top() -> Seq<Seq<char>> {
    seq!["/resource_response/bookmark"@]
}

/// The bookmark Pinterest sends when there is no further page.
pub open spec fn end_bookmark() -> Seq<char> {
    "-end-"@
}

/// The `data` parameter of a search request: the search options as JSON, keys
/// in sorted order, with the bookmark of the previous answer when there is one.
pub open spec fn request_data(query: Seq<char>, bookmark: Option<Seq<char>>) -> Seq<char> {
    "{\"context\":{},\"options\":{"@ + match bookmark {
        Some(b) => "\"bookmarks\":["@ + json_quoted(b) + "],"@,
        None => Seq::empty(),
    } + "\"page_size\":25,\"query\":"@ + json_quoted(query) + ",\"scope\":\"pins\"}}"@
}

/// The search request for `query`, continuing from `bookmark` when given.
pub open spec fn request_url(query: Seq<char>, bookmark: Option<Seq<char>>) -> Seq<char> {
    "https://www.pinterest.com/resource/BaseSearchResource/get/?source_url="@ + url_encoded(
        "/search/pins/?q="@ + url_encoded(query),
    ) + "&data="@ + url_encoded(request_data(query, bookmark))
}

/// A thumbnail and a full-size URL out of a pin's images: the 474x, 236x or
/// 736x image for the thumbnail, the original, the 736x or the thumbnail for
/// the full size.
pub open spec fn picked_images(row: Seq<JsonLeafView>) -> Option<(Seq<char>, Seq<char>)> {
    let thumb = or_else(
        or_else(leaf_at(row, 1).string, leaf_at(row, 2).string),
        leaf_at(row, 3).string,
    );
    let full = or_else(or_else(leaf_at(row, 4).string, leaf_at(row, 3).string), thumb);
    match (thumb, full) {
        (Some(t), Some(f)) => Some((t, f)),
        _ => None,
    }
}

/// Pick a thumbnail and a full-size URL out of a pin's images (see
/// [`picked_images`]).
pub fn pick_images(row: &Vec<JsonLeaf>) -> (r: Option<(Vec<char>, Vec<char>)>)
    ensures
        r.deep_view() == picked_images(row.deep_view()),
{
    let s1 = string_at(row, 1);
    let s2 = string_at(row, 2);
    let s3 = string_at(row, 3);
    let s4 = string_at(row, 4);
    let thumb = if s1.is_some() {
        s1
    } else if s2.is_some() {
        s2
    } else {
        string_at(row, 3)
    };
    let full = if s4.is_some() {
        s4
    } else if s3.is_some() {
        s3
    } else {
        match &thumb {
            Some(t) => Some(t.clone()),
            None => None,
        }
    };
    match (opt_chars(&thumb), opt_chars(&full)) {
        (Some(t), Some(f)) => Some((t, f)),
        _ => None,
    }
}

/// What a pin's images become, in terms of the strings read at its
/// `/images/474x/url`, `/images/236x/url`, `/images/736x/url` and
/// `/images/orig/url` pointers: the thumbnail is the first of the 474x, 236x
/// and 736x URLs that is present; the full-size image is the original when
/// present, else the 736x image, else the thumbnail; and a pin with none of
/// the three thumbnail sizes gives no images.
pub proof fn law_pinterest_images(row: Seq<JsonLeafView>)
    ensures
        pinterest_fields()[1] == "/images/474x/url"@,
        pinterest_fields()[2] == "/images/236x/url"@,
        pinterest_fields()[3] == "/images/736x/url"@,
        pinterest_fields()[4] == "/images/orig/url"@,
        picked_images(row) is Some <==> (leaf_at(row, 1).string is Some || leaf_at(row, 2).string is Some
            || leaf_at(row, 3).string is Some),
        picked_images(row) is Some ==> {
            let (thumbnail, full) = picked_images(row).unwrap();
            &&& leaf_at(row, 1).string is Some ==> leaf_at(row, 1).string == Some(thumbnail)
            &&& leaf_at(row, 1).string is None && leaf_at(row, 2).string is Some ==> leaf_at(
                row,
                2,
            ).string == Some(thumbnail)
            &&& leaf_at(row, 1).string is None && leaf_at(row, 2).string is None ==> leaf_at(
                row,
                3,
            ).string == Some(thumbnail)
            &&& leaf_at(row, 4).string is Some ==> leaf_at(row, 4).string == Some(full)
            &&& leaf_at(row, 4).string is None && leaf_at(row, 3).string is Some ==> leaf_at(
                row,
                3,
            ).string == Some(full)
            &&& leaf_at(row, 4).string is None && leaf_at(row, 3).string is None ==> full
                == thumbnail
        },
{
}

/// Every pin kept as a grid item carries the images picked from it: its
/// full-size image is the pin's original when it has one, else its 736x
/// image, else its thumbnail; its id is the pin's id and its link the pin's
/// page.
pub proof fn law_pinterest_item_images(row: Seq<JsonLeafView>)
    ensures
        pinterest_item(row) is Some <==> (leaf_at(row, 0).string is Some && leaf_at(
            row,
            0,
        ).string.unwrap().len() > 0 && picked_images(row) is Some),
        pinterest_item(row) is Some ==> {
            let it = pinterest_item(row).unwrap();
            &&& leaf_at(row, 0).string == Some(it.id)
            &&& (it.thumbnail, it.full) == picked_images(row).unwrap()
            &&& leaf_at(row, 4).string is Some ==> leaf_at(row, 4).string == Some(it.full)
            &&& leaf_at(row, 4).string is None && leaf_at(row, 3).string is Some ==> leaf_at(
                row,
                3,
            ).string == Some(it.full)
            &&& leaf_at(row, 4).string is None && leaf_at(row, 3).string is None ==> it.full
                == it.thumbnail
            &&& it.link == "https://www.pinterest.com/pin/"@ + it.id + "/"@
        },
{
    law_pinterest_images(row);
}

/// The grid item for one pin, or `None` when it has no id or no image.
pub open spec fn pinterest_item(row: Seq<JsonLeafView>) -> Option<ItemView> {
    let id = or_text(leaf_at(row, 0).string, Seq::empty());
    let title = or_text(first_present(leaf_at(row, 5), leaf_at(row, 6)).string, Seq::empty());
    let author = or_text(first_present(leaf_at(row, 7), leaf_at(row, 8)).string, Seq::empty());
    if id.len() == 0 {
        None
    } else {
        match picked_images(row) {
            Some((thumbnail, full)) => Some(
                item_view(
                    id,
                    "pinterest"@,
                    "Pinterest"@,
                    title,
                    author,
                    thumbnail,
                    full,
                    "https://www.pinterest.com/pin/"@ + id + "/"@,
                ),
            ),
            None => None,
        }
    }
}

/// [`pinterest_item`] as a function.
pub open spec fn pinterest_row() -> spec_fn(Seq<JsonLeafView>) -> Option<ItemView> {
    |row: Seq<JsonLeafView>| pinterest_item(row)
}

/// The bookmark to continue with after an answer: its bookmark, unless it is
/// missing, no string, or the end marker.
pub open spec fn next_bookmark(t: JsonTableView) -> Option<Seq<char>> {
    match leaf_at(t.top, 0).string {
        Some(b) => if b == end_bookmark() {
            None
        } else {
            Some(b)
        },
        None => None,
    }
}

/// Pinterest paginates with opaque "bookmarks", not page numbers: each answer
/// carries a bookmark that must be replayed to fetch the next batch. To reach
/// page N a search makes up to N requests in a row and keeps only the last
/// batch. The pager decides which request comes next; the caller performs it.
pub struct PinterestPager {
    target: u32,
    fetched: u32,
    bookmark: Option<String>,
    rows: Vec<Vec<JsonLeaf>>,
    done: bool,
}

impl PinterestPager {
    /// How many requests the search needs at most.
    pub closed spec fn target(&self) -> nat {
        self.target as nat
    }

    /// How many answers have been taken in.
    pub closed spec fn fetched(&self) -> nat {
        self.fetched as nat
    }

    /// The bookmark the next request continues from.
    pub closed spec fn bookmark(&self) -> Option<Seq<char>> {
        self.bookmark.deep_view()
    }

    /// The pins of the last answer.
    pub closed spec fn rows(&self) -> Seq<Seq<JsonLeafView>> {
        self.rows.deep_view()
    }

    /// Whether no further request is to be made.
    pub closed spec fn is_done(&self) -> bool {
        self.done
    }

    /// The pager's invariant: at least one request is planned, no more are
    /// made than planned, and an unfinished pager has requests left.
    pub closed spec fn wf(&self) -> bool {
        &&& 1 <= self.target
        &&& self.fetched <= self.target
        &&& !self.done ==> self.fetched < self.target
    }

    /// A search never makes more requests than planned: a well-formed pager
    /// plans at least one, has taken in no more answers than planned, and has
    /// requests left while it is not finished.
    pub proof fn law_pager_bound(&self)
        requires
            self.wf(),
        ensures
            1 <= self.target(),
            self.fetched() <= self.target(),
            !self.is_done() ==> self.fetched() < self.target(),
    {
    }

    /// Whether the search is finished.
    pub fn done(&self) -> (r: bool)
        ensures
            r == self.is_done(),
    {
        self.done
    }

    /// The next request for `query`, or `None` once the search is finished.
    pub fn next_url(&self, query: &str) -> (r: Option<String>)
        ensures
            self.is_done() ==> r is None,
            !self.is_done() ==> r is Some && r.unwrap()@ == request_url(query@, self.bookmark()),
    {
        if self.done {
            None
        } else {
            Some(Pinterest.page_url(query, &self.bookmark))
        }
    }

    /// Takes in the answer to the last request: its pins replace the kept
    /// batch, and the search goes on only while requests remain and the
    /// answer names a next bookmark. `None` (nothing changed) when the body
    /// is not JSON.
    pub fn advance(&mut self, body: &str) -> (r: Option<()>)
        requires
            old(self).wf(),
            !old(self).is_done(),
        ensures
            final(self).wf(),
            final(self).target() == old(self).target(),
            match json_table_of(body@, pinterest_results(), pinterest_fields(), pinterest_top()) {
                None => r is None && *final(self) == *old(self),
                Some(t) => {
                    &&& r is Some
                    &&& final(self).fetched() == old(self).fetched() + 1
                    &&& final(self).rows() == listed_rows(t)
                    &&& final(self).is_done() == (final(self).fetched() == final(self).target()
                        || next_bookmark(t) is None)
                    &&& !final(self).is_done() ==> final(self).bookmark() == next_bookmark(t)
                    &&& final(self).is_done() ==> final(self).bookmark() == old(self).bookmark()
                },
            },
    {
        let fields = vec![
            "/id",
            "/images/474x/url",
            "/images/236x/url",
            "/images/736x/url",
            "/images/orig/url",
            "/grid_title",
            "/title",
            "/pinner/full_name",
            "/pinner/username",
        ];
        let top = vec!["/resource_response/bookmark"];
        assert(pointers(fields@) =~= pinterest_fields());
        assert(pointers(top@) =~= pinterest_top());
        let t = match json_table(
            body,
            "/resource_response/data/results",
            fields.as_slice(),
            top.as_slice(),
        ) {
            Some(t) => t,
            None => return None,
        };
        let next = match string_at(&t.top, 0) {
            Some(b) => {
                if chars_eq(&chars_of(b.as_str()), &chars_of("-end-")) {
                    None
                } else {
                    Some(b)
                }
            },
            None => None,
        };
        assert(next.deep_view() == next_bookmark(t.deep_view()));
        self.fetched = self.fetched + 1;
        self.rows = t.into_rows();
        if self.fetched < self.target && next.is_some() {
            self.bookmark = next;
        } else {
            self.done = true;
        }
        Some(())
    }

    /// The grid items of the last batch taken in.
    pub fn items(&self) -> (r: Vec<InspoItem>)
        ensures
            r.deep_view() == filter_map(self.rows(), pinterest_row()),
    {
        Pinterest.items(&self.rows)
    }
}

/// Pinterest via its internal `BaseSearchResource` endpoint (unauthenticated).
pub struct Pinterest;

/// Every item of an answer comes from this source and has a non-empty id and
/// the pin page as link.
pub proof fn law_pinterest_items(rows: Seq<Seq<JsonLeafView>>)
    ensures
        forall|k: int|
            0 <= k < filter_map(rows, pinterest_row()).len() ==> {
                let it = #[trigger] filter_map(rows, pinterest_row())[k];
                &&& it.source == "pinterest"@
                &&& it.id.len() > 0
                &&& it.link == "https://www.pinterest.com/pin/"@ + it.id + "/"@
            },
{
    assert forall|k: int| 0 <= k < filter_map(rows, pinterest_row()).len() implies {
        let it = #[trigger] filter_map(rows, pinterest_row())[k];
        &&& it.source == "pinterest"@
        &&& it.id.len() > 0
        &&& it.link == "https://www.pinterest.com/pin/"@ + it.id + "/"@
    } by {
        lemma_filter_map_from(rows, pinterest_row(), k);
    }
}

impl Pinterest {
    /// Stable machine id.
    pub fn id(&self) -> (r: &'static str)
        ensures
            r@ == "pinterest"@,
    {
        "pinterest"
    }

    /// Human-facing label.
    pub fn label(&self) -> (r: &'static str)
        ensures
            r@ == "Pinterest"@,
    {
        "Pinterest"
    }

    /// Referer sent when downloading images from this source (hotlink bypass).
    pub fn referer(&self) -> (r: &'static str)
        ensures
            r@ == "https://www.pinterest.com/"@,
    {
        "https://www.pinterest.com/"
    }

    /// A pager for a search that ends on page `page` (1-based; 0 is the first).
    pub fn pager(&self, page: u32) -> (r: PinterestPager)
        ensures
            r.wf(),
            r.target() == first_page(page),
            r.fetched() == 0,
            r.bookmark() is None,
            r.rows() == Seq::<Seq<JsonLeafView>>::empty(),
            !r.is_done(),
    {
        let target: u32 = if page == 0 {
            1
        } else {
            page
        };
        let r = PinterestPager {
            target,
            fetched: 0,
            bookmark: None,
            rows: Vec::new(),
            done: false,
        };
        assert(r.rows.deep_view() =~= Seq::<Seq<JsonLeafView>>::empty());
        r
    }

    /// The `data` parameter of a request (see [`request_data`]).
    pub fn request_data(&self, query: &str, bookmark: &Option<String>) -> (r: String)
        ensures
            r@ == request_data(query@, bookmark.deep_view()),
    {
        let q = json_quote(query);
        let mut d = chars_of("{\"context\":{},\"options\":{");
        match bookmark {
            Some(b) => {
                let bq = json_quote(b.as_str());
                d = concat(&d, &chars_of("\"bookmarks\":["));
                d = concat(&d, &chars_of(bq.as_str()));
                d = concat(&d, &chars_of("],"));
            },
            None => {},
        }
        d = concat(&d, &chars_of("\"page_size\":25,\"query\":"));
        d = concat(&d, &chars_of(q.as_str()));
        d = concat(&d, &chars_of(",\"scope\":\"pins\"}}"));
        string_of(&d)
    }

    /// The request for `query`, continuing from `bookmark` when given.
    pub fn page_url(&self, query: &str, bookmark: &Option<String>) -> (r: String)
        ensures
            r@ == request_url(query@, bookmark.deep_view()),
    {
        let source = concat(&chars_of("/search/pins/?q="), &chars_of(url_encode(query).as_str()));
        let source = string_of(&source);
        let data = self.request_data(query, bookmark);
        let mut u = chars_of("https://www.pinterest.com/resource/BaseSearchResource/get/?source_url=");
        u = concat(&u, &chars_of(url_encode(source.as_str()).as_str()));
        u = concat(&u, &chars_of("&data="));
        u = concat(&u, &chars_of(url_encode(data.as_str()).as_str()));
        string_of(&u)
    }

    /// The grid item for one row read with [`pinterest_fields`].
    pub fn row_item(&self, row: &Vec<JsonLeaf>) -> (r: Option<InspoItem>)
        ensures
            r.deep_view() == pinterest_item(row.deep_view()),
    {
        let empty: Vec<char> = Vec::new();
        let id = chars_or(&string_at(row, 0), &empty);
        if id.len() == 0 {
            return None;
        }
        let (thumbnail, full) = match pick_images(row) {
            Some(p) => p,
            None => return None,
        };
        let title = chars_or(&string_of_first_present(row, 5, 6), &empty);
        let author = chars_or(&string_of_first_present(row, 7, 8), &empty);
        let link = concat(&concat(&chars_of("https://www.pinterest.com/pin/"), &id), &chars_of("/"));
        Some(make_item(&id, self.id(), self.label(), &title, &author, &thumbnail, &full, &link))
    }

    /// The grid items for the rows of an answer, in order.
    pub fn items(&self, rows: &Vec<Vec<JsonLeaf>>) -> (r: Vec<InspoItem>)
        ensures
            r.deep_view() == filter_map(rows.deep_view(), pinterest_row()),
    {
        let ghost rs = rows.deep_view();
        let mut out: Vec<InspoItem> = Vec::new();
        let mut i: usize = 0;
        while i < rows.len()
            invariant
                i <= rows.len(),
                rs == rows.deep_view(),
                out.deep_view() == filter_map(rs.take(i as int), pinterest_row()),
            decreases rows.len() - i,
        {
            proof {
                lemma_filter_map_step(rs, pinterest_row(), i as int);
            }
            let ghost before = out.deep_view();
            match self.row_item(&rows[i]) {
                Some(it) => {
                    out.push(it);
                    assert(out.deep_view() =~= before + opt_seq(pinterest_row()(rs[i as int])));
                },
                None => {
                    assert(before + opt_seq(pinterest_row()(rs[i as int])) =~= before);
                },
            }
            i = i + 1;
        }
        proof {
            lemma_filter_map_all(rs, pinterest_row());
        }
        out
    }
}

} // verus!
