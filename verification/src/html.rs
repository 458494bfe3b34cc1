//! Reading the HTML pages of the scraped sources.
//!
//! A page is read through `scraper` into a list of [`ScrapedCard`]s: one per
//! element that matches a card selector, with the values of a fixed list of
//! attributes on the card and on the first descendant that matches each of a
//! list of inner selectors. What the sources do with those values is verified.
use scraper::{ElementRef, Html, Selector};
use vstd::prelude::*;

verus! {

/// One element matching the card selector of a page.
#[derive(Debug)]
pub struct ScrapedCard {
    /// The value of each requested attribute on the card itself.
    pub attrs: Vec<Option<String>>,
    /// For each inner selector: the requested attributes of the first
    /// descendant that matches it, if one does.
    pub inner: Vec<Option<Vec<Option<String>>>>,
}

/// The view of a [`ScrapedCard`].
pub struct CardView {
    pub attrs: Seq<Option<Seq<char>>>,
    pub inner: Seq<Option<Seq<Option<Seq<char>>>>>,
}

impl DeepView for ScrapedCard {
    type V = CardView;

    open spec fn deep_view(&self) -> CardView {
        CardView { attrs: self.attrs.deep_view(), inner: self.inner.deep_view() }
    }
}

/// What `scraper` makes of the page `html` (see [`scrape`]).
pub uninterp spec fn scraped_cards(
    html: Seq<char>,
    card: Seq<char>,
    inner: Seq<Seq<char>>,
    names: Seq<Seq<char>>,
) -> Option<Seq<CardView>>;

/// A slice of string slices as character sequences.
pub open spec fn strs(ps: Seq<&str>) -> Seq<Seq<char>> {
    ps.map_values(|p: &str| p@)
}

/// Calls `Selector::parse`, `Html::parse_document`, `Html::select`,
/// `ElementRef::select` and `Element::attr`: `None` when a selector does not
/// parse; otherwise one card per element matching `card`, in the order in
/// which `Html::select` walks the parsed tree's nodes (the order the parser
/// created them), holding the value of each attribute of `names` on it and,
/// for each selector of `inner`, on the first descendant that
/// `ElementRef::select` yields for it. The contract names the
/// outcome and claims only that it depends on the four arguments alone.
#[verifier::external_body]
pub(crate) fn scrape(html: &str, card: &str, inner: &[&str], names: &[&str]) -> (r: Option<
    Vec<ScrapedCard>,
>)
    ensures
        r.deep_view() == scraped_cards(html@, card@, strs(inner@), strs(names@)),
{
    let card_sel = Selector::parse(card).ok()?;
    let sels = inner.iter().map(|s| Selector::parse(s).ok()).collect::<Option<Vec<_>>>()?;
    let doc = Html::parse_document(html);
    let attrs = |e: ElementRef| names.iter().map(|n| e.value().attr(n).map(String::from)).collect();
    Some(doc.select(&card_sel).map(|c| ScrapedCard {
        attrs: attrs(c),
        inner: sels.iter().map(|s| c.select(s).next().map(attrs)).collect(),
    }).collect())
}

/// The value at position `k` of an attribute list, `None` past its end.
pub open spec fn attr_at(attrs: Seq<Option<Seq<char>>>, k: int) -> Option<Seq<char>> {
    if 0 <= k < attrs.len() {
        attrs[k]
    } else {
        None
    }
}

/// The attributes of the first descendant matching inner selector `j`.
pub open spec fn inner_at(card: CardView, j: int) -> Option<Seq<Option<Seq<char>>>> {
    if 0 <= j < card.inner.len() {
        card.inner[j]
    } else {
        None
    }
}

fn clone_opt(o: &Option<String>) -> (r: Option<String>)
    ensures
        r.deep_view() == o.deep_view(),
{
    match o {
        Some(s) => Some(s.clone()),
        None => None,
    }
}

/// The attribute at position `k` of a list of attribute values.
pub fn attr(attrs: &Vec<Option<String>>, k: usize) -> (r: Option<String>)
    ensures
        r.deep_view() == attr_at(attrs.deep_view(), k as int),
{
    if k < attrs.len() {
        clone_opt(&attrs[k])
    } else {
        None
    }
}

/// Whether the card has a descendant matching inner selector `j`.
pub fn has_inner(card: &ScrapedCard, j: usize) -> (r: bool)
    ensures
        r == (inner_at(card.deep_view(), j as int) is Some),
{
    j < card.inner.len() && card.inner[j].is_some()
}

/// Attribute `k` of the first descendant matching inner selector `j`.
pub fn inner_attr(card: &ScrapedCard, j: usize, k: usize) -> (r: Option<String>)
    ensures
        r.deep_view() == match inner_at(card.deep_view(), j as int) {
            Some(a) => attr_at(a, k as int),
            None => None,
        },
{
    if j < card.inner.len() {
        match &card.inner[j] {
            Some(a) => attr(a, k),
            None => None,
        }
    } else {
        None
    }
}

} // verus!
