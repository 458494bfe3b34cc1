//! The inspiration sources: what each one is called, how its search request
//! is written, and how its answer becomes grid items.
use crate::encode::{url_encode, url_encoded};
use crate::model::{InspoItem, ItemView};
use crate::text::{
    after_first_word, after_last, capped_number, chars_eq, chars_of, concat, copy, decimal,
    decimal_of, digits_prefix, first_word, first_word_of, has_prefix, leading_number,
    lemma_chars_deep_view, lemma_decimal_injective, owned, part_after_last, rest_after_first_word, split_by, split_on,
    starts_with, string_of, trim_end_char, without_trailing,
};
use vstd::prelude::*;

pub mod arena;
pub mod awwwards;
pub mod behance;
pub mod dribbble;
pub mod lexica;
pub mod pinterest;
pub mod unsplash;

verus! {

broadcast use lemma_chars_deep_view;

// ----------------------------------------------------------------------------
// Sequences built one optional element at a time
// ----------------------------------------------------------------------------

/// The element of `o` as a sequence of length 0 or 1.
pub open spec fn opt_seq<T>(o: Option<T>) -> Seq<T> {
    match o {
        Some(x) => seq![x],
        None => Seq::empty(),
    }
}

/// The values that `f` gives for the elements of `s`, in order, skipping `None`.
pub open spec fn filter_map<A, B>(s: Seq<A>, f: spec_fn(A) -> Option<B>) -> Seq<B>
    decreases s.len(),
{
    if s.len() == 0 {
        Seq::empty()
    } else {
        filter_map(s.drop_last(), f) + opt_seq(f(s.last()))
    }
}

/// One more element of `s` adds what `f` gives for it.
pub proof fn lemma_filter_map_step<A, B>(s: Seq<A>, f: spec_fn(A) -> Option<B>, i: int)
    requires
        0 <= i < s.len(),
    ensures
        filter_map(s.take(i + 1), f) == filter_map(s.take(i), f) + opt_seq(f(s[i])),
{
    assert(s.take(i + 1).drop_last() =~= s.take(i));
}

/// `filter_map` over the whole of `s` is `filter_map` over `s.take(s.len())`.
pub proof fn lemma_filter_map_all<A, B>(s: Seq<A>, f: spec_fn(A) -> Option<B>)
    ensures
        filter_map(s.take(s.len() as int), f) == filter_map(s, f),
{
    assert(s.take(s.len() as int) =~= s);
}

/// Every element of `filter_map(s, f)` is what `f` gives for some element of `s`.
pub proof fn lemma_filter_map_from<A, B>(s: Seq<A>, f: spec_fn(A) -> Option<B>, k: int)
    requires
        0 <= k < filter_map(s, f).len(),
    ensures
        exists|i: int| 0 <= i < s.len() && f(s[i]) == Some(#[trigger] filter_map(s, f)[k]),
    decreases s.len(),
{
    let p = filter_map(s.drop_last(), f);
    if k < p.len() {
        lemma_filter_map_from(s.drop_last(), f, k);
        let i = choose|i: int| 0 <= i < s.drop_last().len() && f(s.drop_last()[i]) == Some(p[k]);
        assert(s[i] == s.drop_last()[i]);
    } else {
        assert(f(s[s.len() - 1]) == Some(filter_map(s, f)[k]));
    }
}

/// `a` when it holds a value, else `b` (`Option::or_else`).
pub open spec fn or_else<T>(a: Option<T>, b: Option<T>) -> Option<T> {
    if a is Some {
        a
    } else {
        b
    }
}

/// The text in `o`, or `d` (`Option::unwrap_or`).
pub open spec fn or_text(o: Option<Seq<char>>, d: Seq<char>) -> Seq<char> {
    match o {
        Some(s) => s,
        None => d,
    }
}

/// An item with the given fields.
pub open spec fn item_view(
    id: Seq<char>,
    source: Seq<char>,
    source_label: Seq<char>,
    title: Seq<char>,
    author: Seq<char>,
    thumbnail: Seq<char>,
    full: Seq<char>,
    link: Seq<char>,
) -> ItemView {
    ItemView { id, source, source_label, title, author, thumbnail, full, link }
}

/// Builds an item out of its fields.
pub fn make_item(
    id: &Vec<char>,
    source: &str,
    source_label: &str,
    title: &Vec<char>,
    author: &Vec<char>,
    thumbnail: &Vec<char>,
    full: &Vec<char>,
    link: &Vec<char>,
) -> (r: InspoItem)
    ensures
        r@ == item_view(id@, source@, source_label@, title@, author@, thumbnail@, full@, link@),
{
    InspoItem {
        id: string_of(id),
        source: owned(source),
        source_label: owned(source_label),
        title: string_of(title),
        author: string_of(author),
        thumbnail: string_of(thumbnail),
        full: string_of(full),
        link: string_of(link),
    }
}

/// The characters of an optional string.
pub fn opt_chars(o: &Option<String>) -> (r: Option<Vec<char>>)
    ensures
        r.deep_view() == o.deep_view(),
{
    match o {
        Some(s) => Some(chars_of(s.as_str())),
        None => None,
    }
}

/// The characters of an optional string, or `d`.
pub fn chars_or(o: &Option<String>, d: &Vec<char>) -> (r: Vec<char>)
    ensures
        r@ == or_text(o.deep_view(), d@),
{
    match o {
        Some(s) => chars_of(s.as_str()),
        None => copy(d),
    }
}

// ----------------------------------------------------------------------------
// Request URLs
// ----------------------------------------------------------------------------

/// The page actually requested: pages are 1-based, and 0 means the first.
pub open spec fn first_page(page: u32) -> nat {
    if page == 0 {
        1
    } else {
        page as nat
    }
}

/// A search URL: `prefix`, the encoded query, `middle`, the page number.
pub open spec fn paged_url(prefix: Seq<char>, query: Seq<char>, middle: Seq<char>, page: u32) -> Seq<
    char,
> {
    prefix + url_encoded(query) + middle + decimal(first_page(page))
}

/// The page a paged search asks for is the page given, and page 0 asks for
/// the first: for every page from 1 on, the URL is the fixed part followed by
/// the page's decimal number, page 0 and page 1 ask the same, and two
/// different pages from 1 on never ask the same URL.
pub proof fn law_paged_url(prefix: Seq<char>, query: Seq<char>, middle: Seq<char>)
    ensures
        paged_url(prefix, query, middle, 0) == paged_url(prefix, query, middle, 1),
        forall|page: u32|
            page >= 1 ==> #[trigger] paged_url(prefix, query, middle, page) == prefix + url_encoded(
                query,
            ) + middle + decimal(page as nat),
        forall|a: u32, b: u32|
            a >= 1 && b >= 1 && a != b ==> #[trigger] paged_url(prefix, query, middle, a)
                != #[trigger] paged_url(prefix, query, middle, b),
{
    let fixed = prefix + url_encoded(query) + middle;
    assert forall|a: u32, b: u32|
        a >= 1 && b >= 1 && a != b implies #[trigger] paged_url(prefix, query, middle, a)
        != #[trigger] paged_url(prefix, query, middle, b) by {
        if paged_url(prefix, query, middle, a) == paged_url(prefix, query, middle, b) {
            let ua = fixed + decimal(a as nat);
            let ub = fixed + decimal(b as nat);
            assert(ua.skip(fixed.len() as int) =~= decimal(a as nat));
            assert(ub.skip(fixed.len() as int) =~= decimal(b as nat));
            lemma_decimal_injective(a as nat, b as nat);
        }
    }
}

/// Builds [`paged_url`].
pub fn build_paged_url(prefix: &str, query: &str, middle: &str, page: u32) -> (r: String)
    ensures
        r@ == paged_url(prefix@, query@, middle@, page),
{
    let p: u32 = if page == 0 {
        1
    } else {
        page
    };
    let a = concat(&chars_of(prefix), &chars_of(url_encode(query).as_str()));
    let b = concat(&a, &chars_of(middle));
    let c = concat(&b, &decimal_of(p));
    string_of(&c)
}

/// Builds `prefix` followed by the encoded query.
pub fn build_query_url(prefix: &str, query: &str) -> (r: String)
    ensures
        r@ == prefix@ + url_encoded(query@),
{
    let a = concat(&chars_of(prefix), &chars_of(url_encode(query).as_str()));
    string_of(&a)
}

// ----------------------------------------------------------------------------
// Links and image candidates
// ----------------------------------------------------------------------------

/// `href` itself when it starts with `http`, else `base` followed by it.
pub open spec fn absolute(href: Seq<char>, base: Seq<char>) -> Seq<char> {
    if has_prefix(href, "http"@) {
        href
    } else {
        base + href
    }
}

/// The last path segment of `href`, trailing slashes ignored.
pub open spec fn last_segment(href: Seq<char>) -> Seq<char> {
    after_last(trim_end_char(href, '/'), '/')
}

/// The `http` prefix every usable image address has.
pub fn http_prefix() -> (r: Vec<char>)
    ensures
        r@ == "http"@,
{
    chars_of("http")
}

/// Builds [`absolute`].
pub fn absolute_link(href: &Vec<char>, base: &str) -> (r: Vec<char>)
    ensures
        r@ == absolute(href@, base@),
{
    if starts_with(href, &http_prefix()) {
        copy(href)
    } else {
        concat(&chars_of(base), href)
    }
}

/// Builds [`last_segment`].
pub fn last_segment_of(href: &Vec<char>) -> (r: Vec<char>)
    ensures
        r@ == last_segment(href@),
{
    part_after_last(&without_trailing(href, '/'), '/')
}

/// The size an entry of a `srcset` declares: the number its descriptor starts
/// with (`400w`, `2x`; a fractional density counts by its whole part), or 1
/// when it has no descriptor.
pub open spec fn entry_size(entry: Seq<char>) -> nat {
    match first_word(after_first_word(entry)) {
        Some(d) => capped_number(digits_prefix(d)),
        None => 1,
    }
}

/// The URL of an entry, when it has one that is an absolute `http` address.
pub open spec fn http_candidate(entry: Seq<char>) -> Option<Seq<char>> {
    match first_word(entry) {
        Some(u) => if has_prefix(u, "http"@) {
            Some(u)
        } else {
            None
        },
        None => None,
    }
}

/// The `http` candidate of `entries` with the largest declared size, with that
/// size; of equal sizes the later entry wins.
pub open spec fn largest_candidate(entries: Seq<Seq<char>>) -> Option<(Seq<char>, nat)>
    decreases entries.len(),
{
    if entries.len() == 0 {
        None
    } else {
        let p = largest_candidate(entries.drop_last());
        let e = entries.last();
        match http_candidate(e) {
            None => p,
            Some(u) => match p {
                Some((_, n)) => if entry_size(e) >= n {
                    Some((u, entry_size(e)))
                } else {
                    p
                },
                None => Some((u, entry_size(e))),
            },
        }
    }
}

/// The largest candidate of a `srcset`: among its comma-separated entries
/// whose URL starts with `http`, the one with the largest width or density.
pub open spec fn srcset_best(srcset: Seq<char>) -> Option<Seq<char>> {
    match largest_candidate(split_on(srcset, ',')) {
        Some((u, _)) => Some(u),
        None => None,
    }
}

proof fn lemma_largest_candidate(entries: Seq<Seq<char>>)
    ensures
        largest_candidate(entries) matches Some((u, n)) ==> {
            &&& has_prefix(u, "http"@)
            &&& exists|k: int|
                0 <= k < entries.len() && http_candidate(#[trigger] entries[k]) == Some(u)
                    && entry_size(entries[k]) == n
            &&& forall|k: int|
                0 <= k < entries.len() && (#[trigger] http_candidate(entries[k])) is Some
                    ==> entry_size(entries[k]) <= n
        },
        largest_candidate(entries) is None ==> forall|k: int|
            0 <= k < entries.len() ==> (#[trigger] http_candidate(entries[k])) is None,
    decreases entries.len(),
{
    if entries.len() > 0 {
        let es = entries.drop_last();
        lemma_largest_candidate(es);
        let last = entries.len() - 1;
        assert forall|k: int| 0 <= k < es.len() implies #[trigger] entries[k] == es[k] by {}
        match largest_candidate(entries) {
            Some((u, n)) => {
                if largest_candidate(entries) == largest_candidate(es) {
                    let (pu, pn) = largest_candidate(es)->0;
                    let k0 = choose|k: int|
                        0 <= k < es.len() && http_candidate(#[trigger] es[k]) == Some(pu)
                            && entry_size(es[k]) == pn;
                    assert(entries[k0] == es[k0]);
                    assert forall|k: int|
                        0 <= k < entries.len() && (#[trigger] http_candidate(entries[k])) is Some
                        implies entry_size(entries[k]) <= n by {
                        if k < es.len() {
                            assert(entries[k] == es[k]);
                        }
                    }
                } else {
                    assert(http_candidate(entries[last]) == Some(u));
                    assert forall|k: int|
                        0 <= k < entries.len() && (#[trigger] http_candidate(entries[k])) is Some
                        implies entry_size(entries[k]) <= n by {
                        if k < es.len() {
                            assert(entries[k] == es[k]);
                        }
                    }
                }
            },
            None => {
                assert forall|k: int| 0 <= k < entries.len() implies (#[trigger] http_candidate(
                    entries[k],
                )) is None by {
                    if k < es.len() {
                        assert(entries[k] == es[k]);
                    }
                }
            },
        }
    }
}

/// The candidate picked from a `srcset` is the URL of one of its entries, an
/// absolute `http` address, and no entry with such a URL declares a larger
/// size; nothing is picked only when no entry has an `http` URL.
pub proof fn law_srcset_best(srcset: Seq<char>)
    ensures
        srcset_best(srcset) matches Some(u) ==> {
            &&& has_prefix(u, "http"@)
            &&& exists|k: int|
                0 <= k < split_on(srcset, ',').len() && #[trigger] http_candidate(
                    split_on(srcset, ',')[k],
                ) == Some(u) && forall|j: int|
                    0 <= j < split_on(srcset, ',').len() && http_candidate(
                        split_on(srcset, ',')[j],
                    ) is Some ==> entry_size(split_on(srcset, ',')[j]) <= entry_size(
                        split_on(srcset, ',')[k],
                    )
        },
        srcset_best(srcset) is None ==> forall|k: int|
            0 <= k < split_on(srcset, ',').len() ==> (#[trigger] http_candidate(
                split_on(srcset, ',')[k],
            )) is None,
{
    let es = split_on(srcset, ',');
    lemma_largest_candidate(es);
    if let Some((u, n)) = largest_candidate(es) {
        let k = choose|k: int|
            0 <= k < es.len() && http_candidate(#[trigger] es[k]) == Some(u) && entry_size(es[k])
                == n;
        assert(http_candidate(es[k]) == Some(u));
    }
}

/// The size an entry of a `srcset` declares.
pub fn entry_size_of(entry: &Vec<char>) -> (r: u64)
    ensures
        r == entry_size(entry@),
{
    match first_word_of(&rest_after_first_word(entry)) {
        Some(d) => leading_number(&d),
        None => 1,
    }
}

/// The URL of an entry, when it is an absolute `http` address.
pub fn http_candidate_of(entry: &Vec<char>) -> (r: Option<Vec<char>>)
    ensures
        r.deep_view() == http_candidate(entry@),
{
    match first_word_of(entry) {
        Some(u) => if starts_with(&u, &http_prefix()) {
            Some(u)
        } else {
            None
        },
        None => None,
    }
}

/// Pick the largest candidate from a `srcset` attribute, as characters.
pub fn best_in_srcset(srcset: &Vec<char>) -> (r: Option<Vec<char>>)
    ensures
        r.deep_view() == srcset_best(srcset@),
{
    let pieces = split_by(srcset, ',');
    let ghost ps = pieces.deep_view();
    let mut best: Option<(Vec<char>, u64)> = None;
    let mut i: usize = 0;
    assert(ps.take(0) =~= Seq::<Seq<char>>::empty());
    while i < pieces.len()
        invariant
            i <= pieces.len(),
            ps == pieces.deep_view(),
            ps == split_on(srcset@, ','),
            match largest_candidate(ps.take(i as int)) {
                None => best is None,
                Some((u, n)) => best matches Some((bu, bn)) && bu@ == u && bn == n,
            },
        decreases pieces.len() - i,
    {
        assert(ps.take(i + 1).drop_last() =~= ps.take(i as int));
        assert(ps.take(i + 1).last() == ps[i as int]);
        assert(ps[i as int] == pieces@[i as int]@);
        match http_candidate_of(&pieces[i]) {
            Some(u) => {
                let size = entry_size_of(&pieces[i]);
                let take = match &best {
                    Some((_, n)) => size >= *n,
                    None => true,
                };
                if take {
                    best = Some((u, size));
                }
            },
            None => {},
        }
        i = i + 1;
    }
    assert(ps.take(pieces.len() as int) =~= ps);
    match best {
        Some((u, _)) => Some(u),
        None => None,
    }
}

/// Pick the largest candidate from a `srcset` attribute.
pub fn best_from_srcset(srcset: &str) -> (r: Option<String>)
    ensures
        r.deep_view() == srcset_best(srcset@),
{
    match best_in_srcset(&chars_of(srcset)) {
        Some(w) => Some(string_of(&w)),
        None => None,
    }
}

/// The best `srcset` candidate of an attribute that may be missing.
pub open spec fn srcset_of(attr: Option<Seq<char>>) -> Option<Seq<char>> {
    match attr {
        Some(s) => srcset_best(s),
        None => None,
    }
}

/// The best `srcset` candidate of an attribute that may be missing.
pub fn best_of_attr(attr: &Option<String>) -> (r: Option<Vec<char>>)
    ensures
        r.deep_view() == srcset_of(attr.deep_view()),
{
    match attr {
        Some(s) => best_in_srcset(&chars_of(s.as_str())),
        None => None,
    }
}

/// `a` when it holds a value, else `b`.
pub fn first_some(a: Option<Vec<char>>, b: Option<Vec<char>>) -> (r: Option<Vec<char>>)
    ensures
        r.deep_view() == or_else(a.deep_view(), b.deep_view()),
{
    match a {
        Some(x) => Some(x),
        None => b,
    }
}

/// The attributes read from every scraped element, in order.
pub open spec fn card_attrs() -> Seq<Seq<char>> {
    seq!["data-src"@, "srcset"@, "src"@, "alt"@, "href"@, "title"@]
}

/// [`card_attrs`] as string slices.
pub fn card_attr_names() -> (r: Vec<&'static str>)
    ensures
        crate::html::strs(r@) == card_attrs(),
{
    let r = vec!["data-src", "srcset", "src", "alt", "href", "title"];
    assert(crate::html::strs(r@) =~= card_attrs());
    r
}

/// The link and the id of a card: from its link's `href` when there is one,
/// else the page that was searched and the thumbnail.
pub open spec fn link_and_id(
    href: Option<Seq<char>>,
    base: Seq<char>,
    page_url: Seq<char>,
    thumbnail: Seq<char>,
) -> (Seq<char>, Seq<char>) {
    match href {
        Some(h) => (absolute(h, base), last_segment(h)),
        None => (page_url, thumbnail),
    }
}

/// Builds [`link_and_id`].
pub fn card_link_and_id(
    href: &Option<String>,
    base: &str,
    page_url: &Vec<char>,
    thumbnail: &Vec<char>,
) -> (r: (Vec<char>, Vec<char>))
    ensures
        (r.0@, r.1@) == link_and_id(href.deep_view(), base@, page_url@, thumbnail@),
{
    match href {
        Some(h) => {
            let h = chars_of(h.as_str());
            (absolute_link(&h, base), last_segment_of(&h))
        },
        None => (copy(page_url), copy(thumbnail)),
    }
}

// ----------------------------------------------------------------------------
// The catalogue
// ----------------------------------------------------------------------------

/// Every source, in display order: id, label, referer.
pub open spec fn catalog() -> Seq<(Seq<char>, Seq<char>, Seq<char>)> {
    seq![
        ("pinterest"@, "Pinterest"@, "https://www.pinterest.com/"@),
        ("dribbble"@, "Dribbble"@, "https://dribbble.com/"@),
        ("behance"@, "Behance"@, "https://www.behance.net/"@),
        ("awwwards"@, "Awwwards"@, "https://www.awwwards.com/"@),
        ("unsplash"@, "Unsplash"@, "https://unsplash.com/"@),
        ("arena"@, "Are.na"@, "https://www.are.na/"@),
        ("lexica"@, "Lexica"@, "https://lexica.art/"@),
    ]
}

/// The referer of the first entry of `cat` whose id is `id`, or empty text.
pub open spec fn referer_in(cat: Seq<(Seq<char>, Seq<char>, Seq<char>)>, id: Seq<char>) -> Seq<
    char,
>
    decreases cat.len(),
{
    if cat.len() == 0 {
        Seq::empty()
    } else if cat[0].0 == id {
        cat[0].2
    } else {
        referer_in(cat.drop_first(), id)
    }
}

proof fn lemma_referer_in_at(cat: Seq<(Seq<char>, Seq<char>, Seq<char>)>, id: Seq<char>, k: int)
    requires
        0 <= k < cat.len(),
        cat[k].0 == id,
        forall|j: int| 0 <= j < k ==> cat[j].0 != id,
    ensures
        referer_in(cat, id) == cat[k].2,
    decreases k,
{
    if k > 0 {
        assert forall|j: int| 0 <= j < k - 1 implies cat.drop_first()[j].0 != id by {
            assert(cat.drop_first()[j] == cat[j + 1]);
        }
        lemma_referer_in_at(cat.drop_first(), id, k - 1);
    }
}

proof fn lemma_referer_in_none(cat: Seq<(Seq<char>, Seq<char>, Seq<char>)>, id: Seq<char>)
    requires
        forall|j: int| 0 <= j < cat.len() ==> cat[j].0 != id,
    ensures
        referer_in(cat, id) == Seq::<char>::empty(),
    decreases cat.len(),
{
    if cat.len() > 0 {
        assert forall|j: int| 0 <= j < cat.len() - 1 implies cat.drop_first()[j].0 != id by {
            assert(cat.drop_first()[j] == cat[j + 1]);
        }
        lemma_referer_in_none(cat.drop_first(), id);
    }
}

/// No two sources share an id.
pub proof fn law_source_ids_distinct()
    ensures
        forall|i: int, j: int|
            0 <= i < j < catalog().len() ==> catalog()[i].0 != catalog()[j].0,
{
    reveal_strlit("pinterest");
    reveal_strlit("dribbble");
    reveal_strlit("behance");
    reveal_strlit("awwwards");
    reveal_strlit("unsplash");
    reveal_strlit("arena");
    reveal_strlit("lexica");
    let c = catalog();
    assert(c[0].0.len() == 9 && c[0].0[0] == 'p');
    assert(c[1].0.len() == 8 && c[1].0[0] == 'd');
    assert(c[2].0.len() == 7 && c[2].0[0] == 'b');
    assert(c[3].0.len() == 8 && c[3].0[0] == 'a');
    assert(c[4].0.len() == 8 && c[4].0[0] == 'u');
    assert(c[5].0.len() == 5 && c[5].0[0] == 'a');
    assert(c[6].0.len() == 6 && c[6].0[0] == 'l');
    assert forall|i: int, j: int| 0 <= i < j < c.len() implies c[i].0 != c[j].0 by {
        assert(i == 0 || i == 1 || i == 2 || i == 3 || i == 4 || i == 5);
        assert(j == 1 || j == 2 || j == 3 || j == 4 || j == 5 || j == 6);
        if c[i].0.len() == c[j].0.len() {
            assert(c[i].0[0] != c[j].0[0]);
        }
    }
}

/// The referer looked up for a source's id is that source's referer, and an
/// id no source has gets empty text.
pub proof fn law_referer_lookup(id: Seq<char>)
    ensures
        forall|k: int|
            0 <= k < catalog().len() && catalog()[k].0 == id ==> referer_in(catalog(), id)
                == catalog()[k].2,
        (forall|k: int| 0 <= k < catalog().len() ==> catalog()[k].0 != id) ==> referer_in(
            catalog(),
            id,
        ) == Seq::<char>::empty(),
{
    law_source_ids_distinct();
    assert forall|k: int|
        0 <= k < catalog().len() && catalog()[k].0 == id implies referer_in(catalog(), id)
        == catalog()[k].2 by {
        lemma_referer_in_at(catalog(), id, k);
    }
    if forall|k: int| 0 <= k < catalog().len() ==> catalog()[k].0 != id {
        lemma_referer_in_none(catalog(), id);
    }
}

/// Lightweight descriptor sent to the UI so it can render source toggles.
#[derive(Debug)]
pub struct SourceInfo {
    pub id: String,
    pub label: String,
}

impl DeepView for SourceInfo {
    type V = (Seq<char>, Seq<char>);

    open spec fn deep_view(&self) -> (Seq<char>, Seq<char>) {
        (self.id@, self.label@)
    }
}

/// The id and label of every catalogue entry, in order.
pub open spec fn listing() -> Seq<(Seq<char>, Seq<char>)> {
    catalog().map_values(|e: (Seq<char>, Seq<char>, Seq<char>)| (e.0, e.1))
}

fn entries() -> (r: Vec<(&'static str, &'static str, &'static str)>)
    ensures
        r@.map_values(|e: (&str, &str, &str)| (e.0@, e.1@, e.2@)) == catalog(),
{
    let r = vec![
        (pinterest::Pinterest.id(), pinterest::Pinterest.label(), pinterest::Pinterest.referer()),
        (dribbble::Dribbble.id(), dribbble::Dribbble.label(), dribbble::Dribbble.referer()),
        (behance::Behance.id(), behance::Behance.label(), behance::Behance.referer()),
        (awwwards::Awwwards.id(), awwwards::Awwwards.label(), awwwards::Awwwards.referer()),
        (unsplash::Unsplash.id(), unsplash::Unsplash.label(), unsplash::Unsplash.referer()),
        (arena::Arena.id(), arena::Arena.label(), arena::Arena.referer()),
        (lexica::Lexica.id(), lexica::Lexica.label(), lexica::Lexica.referer()),
    ];
    assert(r@.map_values(|e: (&str, &str, &str)| (e.0@, e.1@, e.2@)) =~= catalog());
    r
}

/// The id and label of every source, in display order.
pub fn list() -> (r: Vec<SourceInfo>)
    ensures
        r.deep_view() == listing(),
{
    let es = entries();
    let ghost cat = catalog();
    let mut r: Vec<SourceInfo> = Vec::new();
    let mut i: usize = 0;
    while i < es.len()
        invariant
            i <= es.len(),
            es@.map_values(|e: (&str, &str, &str)| (e.0@, e.1@, e.2@)) == cat,
            cat == catalog(),
            r.len() == i,
            forall|k: int| 0 <= k < i ==> #[trigger] r@[k].deep_view() == listing()[k],
        decreases es.len() - i,
    {
        assert(cat[i as int] == (es@[i as int].0@, es@[i as int].1@, es@[i as int].2@));
        r.push(SourceInfo { id: owned(es[i].0), label: owned(es[i].1) });
        i = i + 1;
    }
    assert(r.deep_view() =~= listing());
    r
}

/// Look up the referer for a source id (used by the downloader); empty text
/// for an unknown id.
pub fn referer_for(source_id: &str) -> (r: String)
    ensures
        r@ == referer_in(catalog(), source_id@),
{
    let es = entries();
    let id = chars_of(source_id);
    let ghost cat = catalog();
    let mut i: usize = 0;
    assert(cat.skip(0) =~= cat);
    while i < es.len()
        invariant
            i <= es.len(),
            id@ == source_id@,
            es@.map_values(|e: (&str, &str, &str)| (e.0@, e.1@, e.2@)) == cat,
            cat == catalog(),
            referer_in(cat, id@) == referer_in(cat.skip(i as int), id@),
        decreases es.len() - i,
    {
        assert(cat.skip(i as int)[0] == (es@[i as int].0@, es@[i as int].1@, es@[i as int].2@));
        if chars_eq(&chars_of(es[i].0), &id) {
            return owned(es[i].2);
        }
        assert(cat.skip(i as int).drop_first() =~= cat.skip(i + 1));
        i = i + 1;
    }
    assert(cat.skip(i as int) =~= Seq::<(Seq<char>, Seq<char>, Seq<char>)>::empty());
    String::new()
}

} // verus!
