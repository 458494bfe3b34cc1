use crate::html::{
    attr, attr_at, has_inner, inner_at, scrape, scraped_cards, strs, CardView, ScrapedCard,
};
use crate::model::{InspoItem, ItemView};
use crate::sources::{
    absolute, absolute_link, best_of_attr, build_paged_url, card_attr_names, card_attrs,
    chars_or, first_some, http_prefix, item_view, make_item, opt_chars, opt_seq, or_else,
    or_text, paged_url, srcset_of,
};
use crate::text::{
    after_first, all_digits, before_char, chars_of, contains_text, has_prefix,
    lemma_chars_deep_view, only_digits, part_after_first, part_before, starts_with, string_of,
    trim, trimmed,
};
use vstd::prelude::*;

verus! {

broadcast use lemma_chars_deep_view;

/// The selector of a project card: a link into a gallery.
pub open spec fn behance_cards() -> Seq<char> {
    "a[href*='/gallery/']"@
}

/// The inner selectors of a project card: its image.
pub open spec fn behance_inner() -> Seq<Seq<char>> {
    seq!["img"@]
}

/// The numeric gallery id of a `/gallery/<id>/<slug>` href: the digits after
/// the first `/gallery/`, up to the next `/`.
pub open spec fn gallery_id_of(href: Seq<char>) -> Option<Seq<char>> {
    match after_first(href, "/gallery/"@) {
        Some(rest) => {
            let id = before_char(rest, '/');
            if id.len() > 0 && all_digits(id) {
                Some(id)
            } else {
                None
            }
        },
        None => None,
    }
}

/// The gallery id a card links to, if it has an href with one.
pub open spec fn behance_key(card: CardView) -> Option<Seq<char>> {
    match attr_at(card.attrs, 4) {
        Some(h) => gallery_id_of(h),
        None => None,
    }
}

/// The grid item for a card with gallery id `id`, or `None` when it has no
/// image or its image address is not absolute.
pub open spec fn behance_item(card: CardView, id: Seq<char>) -> Option<ItemView> {
    let href = or_text(attr_at(card.attrs, 4), Seq::empty());
    match inner_at(card, 0) {
        None => None,
        Some(img) => match or_else(srcset_of(attr_at(img, 1)), attr_at(img, 2)) {
            Some(t) => if has_prefix(t, "http"@) {
                Some(
                    item_view(
                        id,
                        "behance"@,
                        "Behance"@,
                        trim(or_text(or_else(attr_at(img, 3), attr_at(card.attrs, 5)), Seq::empty())),
                        Seq::empty(),
                        t,
                        t,
                        absolute(href, "https://www.behance.net"@),
                    ),
                )
            } else {
                None
            },
            None => None,
        },
    }
}

/// The items of a run of cards, and the gallery ids met so far. A card with an
/// id already met is skipped; an id counts as met once its card is reached,
/// whether or not that card yields an item.
pub open spec fn behance_scan(cards: Seq<CardView>) -> (Seq<ItemView>, Seq<Seq<char>>)
    decreases cards.len(),
{
    if cards.len() == 0 {
        (Seq::empty(), Seq::empty())
    } else {
        let (items, seen) = behance_scan(cards.drop_last());
        match behance_key(cards.last()) {
            None => (items, seen),
            Some(id) => if seen.contains(id) {
                (items, seen)
            } else {
                (items + opt_seq(behance_item(cards.last(), id)), seen.push(id))
            },
        }
    }
}

/// The items a Behance page yields have pairwise different ids (one per
/// gallery), each a non-empty run of digits found among the ids met, and
/// every thumbnail is an absolute `http` address.
pub proof fn law_behance_items(cards: Seq<CardView>)
    ensures
        ({
            let (items, seen) = behance_scan(cards);
            &&& forall|i: int, j: int| 0 <= i < j < items.len() ==> items[i].id != items[j].id
            &&& forall|i: int| 0 <= i < items.len() ==> seen.contains(#[trigger] items[i].id)
            &&& forall|i: int| 0 <= i < items.len() ==> has_prefix(#[trigger] items[i].thumbnail, "http"@)
            &&& forall|i: int| 0 <= i < items.len() ==> all_digits(#[trigger] items[i].id) && items[i].id.len() > 0
        }),
    decreases cards.len(),
{
    if cards.len() > 0 {
        law_behance_items(cards.drop_last());
        let (items0, seen0) = behance_scan(cards.drop_last());
        let c = cards.last();
        match behance_key(c) {
            None => {},
            Some(id) => {
                if !seen0.contains(id) {
                    let (items, seen) = behance_scan(cards);
                    assert(seen == seen0.push(id));
                    assert forall|i: int| 0 <= i < items.len() implies seen.contains(#[trigger] items[i].id) by {
                        if i < items0.len() {
                            assert(items[i] == items0[i]);
                            let k = choose|k: int| 0 <= k < seen0.len() && seen0[k] == items0[i].id;
                            assert(seen[k] == seen0[k]);
                        } else {
                            assert(items[i].id == id);
                            assert(seen[seen0.len() as int] == id);
                        }
                    }
                    assert forall|i: int, j: int| 0 <= i < j < items.len() implies items[i].id != items[j].id by {
                        assert(items[i] == items0[i]);
                        if j >= items0.len() {
                            assert(items[j].id == id);
                            assert(seen0.contains(items0[i].id));
                        } else {
                            assert(items[j] == items0[j]);
                        }
                    }
                    assert forall|i: int| 0 <= i < items.len() implies has_prefix(#[trigger] items[i].thumbnail, "http"@) by {
                        if i < items0.len() {
                            assert(items[i] == items0[i]);
                        }
                    }
                    assert forall|i: int| 0 <= i < items.len() implies all_digits(#[trigger] items[i].id) && items[i].id.len() > 0 by {
                        if i < items0.len() {
                            assert(items[i] == items0[i]);
                        }
                    }
                }
            },
        }
    }
}

/// A gallery id is a non-empty run of ASCII digits.
pub proof fn law_gallery_id_digits(href: Seq<char>)
    ensures
        gallery_id_of(href) matches Some(id) ==> id.len() > 0 && all_digits(id),
{
}

/// Extract the numeric gallery id from a `/gallery/<id>/<slug>` href.
pub fn gallery_id(href: &str) -> (r: Option<String>)
    ensures
        r.deep_view() == gallery_id_of(href@),
{
    match gallery_id_chars(&chars_of(href)) {
        Some(id) => Some(string_of(&id)),
        None => None,
    }
}

fn gallery_id_chars(href: &Vec<char>) -> (r: Option<Vec<char>>)
    ensures
        r.deep_view() == gallery_id_of(href@),
{
    match part_after_first(href, &chars_of("/gallery/")) {
        Some(rest) => {
            let id = part_before(&rest, '/');
            if id.len() > 0 && only_digits(&id) {
                Some(id)
            } else {
                None
            }
        },
        None => None,
    }
}

/// Behance via HTML scraping of the public project search.
///
/// Best-effort: like Dribbble, Behance uses bot protection and dynamic markup,
/// so results are not guaranteed.
pub struct Behance;

impl Behance {
    /// Stable machine id.
    pub fn id(&self) -> (r: &'static str)
        ensures
            r@ == "behance"@,
    {
        "behance"
    }

    /// Human-facing label.
    pub fn label(&self) -> (r: &'static str)
        ensures
            r@ == "Behance"@,
    {
        "Behance"
    }

    /// Referer sent when downloading images from this source (hotlink bypass).
    pub fn referer(&self) -> (r: &'static str)
        ensures
            r@ == "https://www.behance.net/"@,
    {
        "https://www.behance.net/"
    }

    /// The search request for `query`.
    pub fn search_url(&self, query: &str, page: u32) -> (r: String)
        ensures
            r@ == paged_url("https://www.behance.net/search/projects?search="@, query@, "&page="@, page),
    {
        build_paged_url("https://www.behance.net/search/projects?search=", query, "&page=", page)
    }

    /// The gallery id a scraped card links to.
    pub fn card_key(&self, card: &ScrapedCard) -> (r: Option<Vec<char>>)
        ensures
            r.deep_view() == behance_key(card.deep_view()),
    {
        match attr(&card.attrs, 4) {
            Some(h) => gallery_id_chars(&chars_of(h.as_str())),
            None => None,
        }
    }

    /// The grid item for a scraped card with gallery id `id`.
    pub fn card_item(&self, card: &ScrapedCard, id: &Vec<char>) -> (r: Option<InspoItem>)
        ensures
            r.deep_view() == behance_item(card.deep_view(), id@),
    {
        if !has_inner(card, 0) {
            return None;
        }
        let img = match &card.inner[0] {
            Some(img) => img,
            None => return None,
        };
        let t = match first_some(best_of_attr(&attr(img, 1)), opt_chars(&attr(img, 2))) {
            Some(t) => t,
            None => return None,
        };
        if !starts_with(&t, &http_prefix()) {
            return None;
        }
        let empty: Vec<char> = Vec::new();
        let title = trimmed(&chars_or(&first_some_text(attr(img, 3), attr(&card.attrs, 5)), &empty));
        let href = chars_or(&attr(&card.attrs, 4), &empty);
        let link = absolute_link(&href, "https://www.behance.net");
        Some(make_item(id, self.id(), self.label(), &title, &empty, &t, &t, &link))
    }

    /// The grid items for the scraped cards of a search page, in order, one
    /// per gallery.
    #[verifier::rlimit(40)]
    #[verifier::spinoff_prover]
    pub fn items(&self, cards: &Vec<ScrapedCard>) -> (r: Vec<InspoItem>)
        ensures
            r.deep_view() == behance_scan(cards.deep_view()).0,
    {
        let ghost cs = cards.deep_view();
        let mut out: Vec<InspoItem> = Vec::new();
        let mut seen: Vec<Vec<char>> = Vec::new();
        let mut i: usize = 0;
        assert(cs.take(0) =~= Seq::<CardView>::empty());
        while i < cards.len()
            invariant
                i <= cards.len(),
                cs == cards.deep_view(),
                (out.deep_view(), seen.deep_view()) == behance_scan(cs.take(i as int)),
            decreases cards.len() - i,
        {
            assert(cs.take(i + 1).drop_last() =~= cs.take(i as int));
            assert(cs.take(i + 1).last() == cs[i as int]);
            let ghost before = out.deep_view();
            let ghost seen_before = seen.deep_view();
            match self.card_key(&cards[i]) {
                Some(id) => {
                    if !contains_text(&seen, &id) {
                        match self.card_item(&cards[i], &id) {
                            Some(it) => {
                                out.push(it);
                                assert(out.deep_view() =~= before + opt_seq(
                                    behance_item(cs[i as int], id@),
                                ));
                            },
                            None => {
                                assert(before + opt_seq(behance_item(cs[i as int], id@))
                                    =~= before);
                            },
                        }
                        seen.push(id);
                        assert(seen.deep_view() =~= seen_before.push(id@));
                    }
                },
                None => {},
            }
            i = i + 1;
        }
        assert(cs.take(cards.len() as int) =~= cs);
        out
    }

    /// The grid items of the search page `html`; `None` when a selector is
    /// refused.
    pub fn parse(&self, html: &str) -> (r: Option<Vec<InspoItem>>)
        ensures
            r.deep_view() == match scraped_cards(html@, behance_cards(), behance_inner(), card_attrs()) {
                Some(cs) => Some(behance_scan(cs).0),
                None => None,
            },
    {
        let inner = vec!["img"];
        assert(strs(inner@) =~= behance_inner());
        let names = card_attr_names();
        match scrape(html, "a[href*='/gallery/']", inner.as_slice(), names.as_slice()) {
            Some(cards) => Some(self.items(&cards)),
            None => None,
        }
    }
}

/// `a` when it holds a value, else `b`.
fn first_some_text(a: Option<String>, b: Option<String>) -> (r: Option<String>)
    ensures
        r.deep_view() == or_else(a.deep_view(), b.deep_view()),
{
    match a {
        Some(x) => Some(x),
        None => b,
    }
}

} // verus!
