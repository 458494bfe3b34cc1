use crate::html::{
    attr, attr_at, has_inner, inner_at, inner_attr, scrape, scraped_cards, strs, CardView,
    ScrapedCard,
};
use crate::model::{InspoItem, ItemView};
use crate::sources::{
    best_of_attr, build_paged_url, card_attr_names, card_attrs, card_link_and_id, chars_or,
    filter_map, first_some, http_prefix, item_view, lemma_filter_map_all, lemma_filter_map_step,
    link_and_id, make_item, opt_chars, opt_seq, or_else, or_text, paged_url, srcset_of,
};
use crate::text::{
    chars_of, copy, has_prefix, lemma_chars_deep_view, replace_all, replaced, starts_with, trim,
    trimmed,
};
use vstd::prelude::*;

verus! {

broadcast use lemma_chars_deep_view;

/// The selector of a shot card.
pub open spec fn dribbble_cards() -> Seq<char> {
    "li.shot-thumbnail, li[id^=screenshot]"@
}

/// The inner selectors of a shot card: its image, its link.
pub open spec fn dribbble_inner() -> Seq<Seq<char>> {
    seq!["img"@, "a.shot-thumbnail-link, a[href*='/shots/']"@]
}

/// The image address of a shot: `data-src`, else the best `srcset`
/// candidate, else `src`.
pub open spec fn dribbble_thumb(img: Seq<Option<Seq<char>>>) -> Option<Seq<char>> {
    or_else(or_else(attr_at(img, 0), srcset_of(attr_at(img, 1))), attr_at(img, 2))
}

/// The grid item for one shot card, or `None` when it has no image or its
/// image address is not absolute. Without a link the item points at the
/// searched page and takes its thumbnail as id; the full-size address drops
/// the `_1x1` resize suffix.
pub open spec fn dribbble_item(card: CardView, page_url: Seq<char>) -> Option<ItemView> {
    match inner_at(card, 0) {
        None => None,
        Some(img) => match dribbble_thumb(img) {
            Some(t) => if has_prefix(t, "http"@) {
                let href = match inner_at(card, 1) {
                    Some(a) => attr_at(a, 4),
                    None => None,
                };
                let (link, id) = link_and_id(href, "https://dribbble.com"@, page_url, t);
                Some(
                    item_view(
                        if id.len() == 0 {
                            t
                        } else {
                            id
                        },
                        "dribbble"@,
                        "Dribbble"@,
                        trim(or_text(attr_at(img, 3), Seq::empty())),
                        Seq::empty(),
                        t,
                        replace_all(t, "_1x1"@, Seq::empty()),
                        link,
                    ),
                )
            } else {
                None
            },
            None => None,
        },
    }
}

/// [`dribbble_item`] as a function of the card.
pub open spec fn dribbble_card(page_url: Seq<char>) -> spec_fn(CardView) -> Option<ItemView> {
    |c: CardView| dribbble_item(c, page_url)
}

/// Dribbble via HTML scraping of the public shot search.
///
/// Best-effort: Dribbble sits behind bot protection and changes its markup,
/// so this may return nothing.
pub struct Dribbble;

/// Every item a Dribbble page yields comes from Dribbble, has a non-empty id
/// and an absolute `http` thumbnail.
pub proof fn law_dribbble_items(cards: Seq<CardView>, page_url: Seq<char>)
    ensures
        forall|k: int|
            0 <= k < filter_map(cards, dribbble_card(page_url)).len() ==> {
                let it = #[trigger] filter_map(cards, dribbble_card(page_url))[k];
                &&& it.source == "dribbble"@
                &&& it.id.len() > 0
                &&& has_prefix(it.thumbnail, "http"@)
            },
{
    reveal_strlit("http");
    assert forall|k: int| 0 <= k < filter_map(cards, dribbble_card(page_url)).len() implies {
        let it = #[trigger] filter_map(cards, dribbble_card(page_url))[k];
        &&& it.source == "dribbble"@
        &&& it.id.len() > 0
        &&& has_prefix(it.thumbnail, "http"@)
    } by {
        crate::sources::lemma_filter_map_from(cards, dribbble_card(page_url), k);
    }
}

impl Dribbble {
    /// Stable machine id.
    pub fn id(&self) -> (r: &'static str)
        ensures
            r@ == "dribbble"@,
    {
        "dribbble"
    }

    /// Human-facing label.
    pub fn label(&self) -> (r: &'static str)
        ensures
            r@ == "Dribbble"@,
    {
        "Dribbble"
    }

    /// Referer sent when downloading images from this source (hotlink bypass).
    pub fn referer(&self) -> (r: &'static str)
        ensures
            r@ == "https://dribbble.com/"@,
    {
        "https://dribbble.com/"
    }

    /// The search request for `query`.
    pub fn search_url(&self, query: &str, page: u32) -> (r: String)
        ensures
            r@ == paged_url("https://dribbble.com/search/shots?q="@, query@, "&page="@, page),
    {
        build_paged_url("https://dribbble.com/search/shots?q=", query, "&page=", page)
    }

    /// The grid item for one scraped card of the page at `page_url`.
    pub fn card_item(&self, card: &ScrapedCard, page_url: &Vec<char>) -> (r: Option<InspoItem>)
        ensures
            r.deep_view() == dribbble_item(card.deep_view(), page_url@),
    {
        if !has_inner(card, 0) {
            return None;
        }
        let img = match &card.inner[0] {
            Some(img) => img,
            None => return None,
        };
        let thumb = first_some(
            first_some(opt_chars(&attr(img, 0)), best_of_attr(&attr(img, 1))),
            opt_chars(&attr(img, 2)),
        );
        let t = match thumb {
            Some(t) => t,
            None => return None,
        };
        if !starts_with(&t, &http_prefix()) {
            return None;
        }
        let href = inner_attr(card, 1, 4);
        let (link, id) = card_link_and_id(&href, "https://dribbble.com", page_url, &t);
        let id = if id.len() == 0 {
            copy(&t)
        } else {
            id
        };
        let empty: Vec<char> = Vec::new();
        let title = trimmed(&chars_or(&attr(img, 3), &empty));
        let full = replaced(&t, &chars_of("_1x1"), &empty);
        Some(make_item(&id, self.id(), self.label(), &title, &empty, &t, &full, &link))
    }

    /// The grid items for the scraped cards of the page at `page_url`, in order.
    pub fn items(&self, cards: &Vec<ScrapedCard>, page_url: &str) -> (r: Vec<InspoItem>)
        ensures
            r.deep_view() == filter_map(cards.deep_view(), dribbble_card(page_url@)),
    {
        let url = chars_of(page_url);
        let ghost f = dribbble_card(page_url@);
        let ghost cs = cards.deep_view();
        let mut out: Vec<InspoItem> = Vec::new();
        let mut i: usize = 0;
        while i < cards.len()
            invariant
                i <= cards.len(),
                cs == cards.deep_view(),
                url@ == page_url@,
                f == dribbble_card(page_url@),
                out.deep_view() == filter_map(cs.take(i as int), f),
            decreases cards.len() - i,
        {
            proof {
                lemma_filter_map_step(cs, f, i as int);
            }
            let ghost before = out.deep_view();
            match self.card_item(&cards[i], &url) {
                Some(it) => {
                    out.push(it);
                    assert(out.deep_view() =~= before + opt_seq(f(cs[i as int])));
                },
                None => {
                    assert(before + opt_seq(f(cs[i as int])) =~= before);
                },
            }
            i = i + 1;
        }
        proof {
            lemma_filter_map_all(cs, f);
        }
        out
    }

    /// The grid items of the search page `html` fetched from `page_url`;
    /// `None` when a selector is refused.
    pub fn parse(&self, html: &str, page_url: &str) -> (r: Option<Vec<InspoItem>>)
        ensures
            r.deep_view() == match scraped_cards(html@, dribbble_cards(), dribbble_inner(), card_attrs()) {
                Some(cs) => Some(filter_map(cs, dribbble_card(page_url@))),
                None => None,
            },
    {
        let inner = vec!["img", "a.shot-thumbnail-link, a[href*='/shots/']"];
        assert(strs(inner@) =~= dribbble_inner());
        let names = card_attr_names();
        match scrape(html, "li.shot-thumbnail, li[id^=screenshot]", inner.as_slice(), names.as_slice()) {
            Some(cards) => Some(self.items(&cards, page_url)),
            None => None,
        }
    }
}

} // verus!
