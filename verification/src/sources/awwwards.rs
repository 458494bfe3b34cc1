use crate::html::{
    attr, attr_at, has_inner, inner_at, inner_attr, scrape, scraped_cards, strs, CardView,
    ScrapedCard,
};
use crate::model::{InspoItem, ItemView};
use crate::sources::{
    build_paged_url, card_attr_names, card_attrs, card_link_and_id, chars_or, first_some,
    http_prefix, item_view, link_and_id, make_item, opt_chars, or_else, or_text, paged_url,
};
use crate::text::{
    chars_of, contains_text, copy, has_prefix, lemma_chars_deep_view, starts_with, trim,
    trimmed,
};
use vstd::prelude::*;

verus! {

broadcast use lemma_chars_deep_view;

/// The selector of an award card: each carries a figure with the preview image.
pub open spec fn awwwards_cards() -> Seq<char> {
    "li.js-collectable, div.card-site, figure"@
}

/// The inner selectors of an award card: its image, its link.
pub open spec fn awwwards_inner() -> Seq<Seq<char>> {
    seq!["img"@, "a[href*='/sites/'], a[href*='/inspiration/']"@]
}

/// The preview address of a card: the image's `data-src`, else its `src`,
/// when that is absolute.
pub open spec fn awwwards_thumb(card: CardView) -> Option<Seq<char>> {
    match inner_at(card, 0) {
        None => None,
        Some(img) => match or_else(attr_at(img, 0), attr_at(img, 2)) {
            Some(t) => if has_prefix(t, "http"@) {
                Some(t)
            } else {
                None
            },
            None => None,
        },
    }
}

/// The grid item for a card with preview address `t`. Without a link the item
/// points at the searched page and takes its thumbnail as id.
pub open spec fn awwwards_item(card: CardView, t: Seq<char>, page_url: Seq<char>) -> ItemView {
    let title = match inner_at(card, 0) {
        Some(img) => trim(or_text(attr_at(img, 3), Seq::empty())),
        None => Seq::empty(),
    };
    let href = match inner_at(card, 1) {
        Some(a) => attr_at(a, 4),
        None => None,
    };
    let (link, id) = link_and_id(href, "https://www.awwwards.com"@, page_url, t);
    item_view(
        if id.len() == 0 {
            t
        } else {
            id
        },
        "awwwards"@,
        "Awwwards"@,
        title,
        Seq::empty(),
        t,
        t,
        link,
    )
}

/// The items of a run of cards, and the preview addresses met so far: a card
/// whose preview was already met is skipped.
pub open spec fn awwwards_scan(cards: Seq<CardView>, page_url: Seq<char>) -> (
    Seq<ItemView>,
    Seq<Seq<char>>,
)
    decreases cards.len(),
{
    if cards.len() == 0 {
        (Seq::empty(), Seq::empty())
    } else {
        let (items, seen) = awwwards_scan(cards.drop_last(), page_url);
        match awwwards_thumb(cards.last()) {
            None => (items, seen),
            Some(t) => if seen.contains(t) {
                (items, seen)
            } else {
                (items.push(awwwards_item(cards.last(), t, page_url)), seen.push(t))
            },
        }
    }
}

/// Awwwards via HTML scraping of the website search — award-winning web/UI
/// design, very on-theme. Best-effort: markup and bot protection may change.
pub struct Awwwards;

/// The items an Awwwards page yields have pairwise different thumbnails (one
/// per preview), each an absolute `http` address, and non-empty ids.
pub proof fn law_awwwards_items(cards: Seq<CardView>, page_url: Seq<char>)
    ensures
        ({
            let (items, seen) = awwwards_scan(cards, page_url);
            &&& forall|i: int, j: int|
                0 <= i < j < items.len() ==> items[i].thumbnail != items[j].thumbnail
            &&& forall|i: int| 0 <= i < items.len() ==> seen.contains(#[trigger] items[i].thumbnail)
            &&& forall|i: int| 0 <= i < items.len() ==> has_prefix(#[trigger] items[i].thumbnail, "http"@)
            &&& forall|i: int| 0 <= i < items.len() ==> (#[trigger] items[i].id).len() > 0
        }),
    decreases cards.len(),
{
    reveal_strlit("http");
    if cards.len() > 0 {
        law_awwwards_items(cards.drop_last(), page_url);
        let (items0, seen0) = awwwards_scan(cards.drop_last(), page_url);
        let c = cards.last();
        match awwwards_thumb(c) {
            None => {},
            Some(t) => {
                if !seen0.contains(t) {
                    let (items, seen) = awwwards_scan(cards, page_url);
                    assert(seen == seen0.push(t));
                    assert(items == items0.push(awwwards_item(c, t, page_url)));
                    assert forall|i: int| 0 <= i < items.len() implies seen.contains(#[trigger] items[i].thumbnail) by {
                        if i < items0.len() {
                            assert(items[i] == items0[i]);
                            let k = choose|k: int| 0 <= k < seen0.len() && seen0[k] == items0[i].thumbnail;
                            assert(seen[k] == seen0[k]);
                        } else {
                            assert(seen[seen0.len() as int] == t);
                        }
                    }
                    assert forall|i: int, j: int| 0 <= i < j < items.len() implies items[i].thumbnail != items[j].thumbnail by {
                        assert(items[i] == items0[i]);
                        if j >= items0.len() {
                            assert(seen0.contains(items0[i].thumbnail));
                        } else {
                            assert(items[j] == items0[j]);
                        }
                    }
                    assert forall|i: int| 0 <= i < items.len() implies has_prefix(#[trigger] items[i].thumbnail, "http"@) by {
                        if i < items0.len() {
                            assert(items[i] == items0[i]);
                        }
                    }
                    assert forall|i: int| 0 <= i < items.len() implies (#[trigger] items[i].id).len() > 0 by {
                        if i < items0.len() {
                            assert(items[i] == items0[i]);
                        }
                    }
                }
            },
        }
    }
}

impl Awwwards {
    /// Stable machine id.
    pub fn id(&self) -> (r: &'static str)
        ensures
            r@ == "awwwards"@,
    {
        "awwwards"
    }

    /// Human-facing label.
    pub fn label(&self) -> (r: &'static str)
        ensures
            r@ == "Awwwards"@,
    {
        "Awwwards"
    }

    /// Referer sent when downloading images from this source (hotlink bypass).
    pub fn referer(&self) -> (r: &'static str)
        ensures
            r@ == "https://www.awwwards.com/"@,
    {
        "https://www.awwwards.com/"
    }

    /// The search request for `query`.
    pub fn search_url(&self, query: &str, page: u32) -> (r: String)
        ensures
            r@ == paged_url("https://www.awwwards.com/websites/?text="@, query@, "&page="@, page),
    {
        build_paged_url("https://www.awwwards.com/websites/?text=", query, "&page=", page)
    }

    /// The preview address of a scraped card.
    pub fn card_thumb(&self, card: &ScrapedCard) -> (r: Option<Vec<char>>)
        ensures
            r.deep_view() == awwwards_thumb(card.deep_view()),
    {
        if !has_inner(card, 0) {
            return None;
        }
        let img = match &card.inner[0] {
            Some(img) => img,
            None => return None,
        };
        match first_some(opt_chars(&attr(img, 0)), opt_chars(&attr(img, 2))) {
            Some(t) => if starts_with(&t, &http_prefix()) {
                Some(t)
            } else {
                None
            },
            None => None,
        }
    }

    /// The grid item for a scraped card with preview address `t`.
    pub fn card_item(&self, card: &ScrapedCard, t: &Vec<char>, page_url: &Vec<char>) -> (r: InspoItem)
        ensures
            r@ == awwwards_item(card.deep_view(), t@, page_url@),
    {
        let empty: Vec<char> = Vec::new();
        let title = if has_inner(card, 0) {
            trimmed(&chars_or(&inner_attr(card, 0, 3), &empty))
        } else {
            Vec::new()
        };
        let href = inner_attr(card, 1, 4);
        let (link, id) = card_link_and_id(&href, "https://www.awwwards.com", page_url, t);
        let id = if id.len() == 0 {
            copy(t)
        } else {
            id
        };
        make_item(&id, self.id(), self.label(), &title, &empty, t, t, &link)
    }

    /// The grid items for the scraped cards of the page at `page_url`, in
    /// order, one per preview address.
    #[verifier::rlimit(40)]
    #[verifier::spinoff_prover]
    pub fn items(&self, cards: &Vec<ScrapedCard>, page_url: &str) -> (r: Vec<InspoItem>)
        ensures
            r.deep_view() == awwwards_scan(cards.deep_view(), page_url@).0,
    {
        let url = chars_of(page_url);
        let ghost cs = cards.deep_view();
        let mut out: Vec<InspoItem> = Vec::new();
        let mut seen: Vec<Vec<char>> = Vec::new();
        let mut i: usize = 0;
        assert(cs.take(0) =~= Seq::<CardView>::empty());
        while i < cards.len()
            invariant
                i <= cards.len(),
                cs == cards.deep_view(),
                url@ == page_url@,
                (out.deep_view(), seen.deep_view()) == awwwards_scan(cs.take(i as int), page_url@),
            decreases cards.len() - i,
        {
            assert(cs.take(i + 1).drop_last() =~= cs.take(i as int));
            assert(cs.take(i + 1).last() == cs[i as int]);
            let ghost before = out.deep_view();
            let ghost seen_before = seen.deep_view();
            match self.card_thumb(&cards[i]) {
                Some(t) => {
                    if !contains_text(&seen, &t) {
                        let it = self.card_item(&cards[i], &t, &url);
                        out.push(it);
                        assert(out.deep_view() =~= before.push(
                            awwwards_item(cs[i as int], t@, page_url@),
                        ));
                        seen.push(t);
                        assert(seen.deep_view() =~= seen_before.push(t@));
                    }
                },
                None => {},
            }
            i = i + 1;
        }
        assert(cs.take(cards.len() as int) =~= cs);
        out
    }

    /// The grid items of the search page `html` fetched from `page_url`;
    /// `None` when a selector is refused.
    pub fn parse(&self, html: &str, page_url: &str) -> (r: Option<Vec<InspoItem>>)
        ensures
            r.deep_view() == match scraped_cards(html@, awwwards_cards(), awwwards_inner(), card_attrs()) {
                Some(cs) => Some(awwwards_scan(cs, page_url@).0),
                None => None,
            },
    {
        let inner = vec!["img", "a[href*='/sites/'], a[href*='/inspiration/']"];
        assert(strs(inner@) =~= awwwards_inner());
        let names = card_attr_names();
        match scrape(html, "li.js-collectable, div.card-site, figure", inner.as_slice(), names.as_slice()) {
            Some(cards) => Some(self.items(&cards, page_url)),
            None => None,
        }
    }
}

} // verus!
