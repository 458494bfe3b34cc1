use inspo_crawler::sources::arena::Arena;
use inspo_crawler::sources::awwwards::Awwwards;
use inspo_crawler::sources::behance::{gallery_id, Behance};
use inspo_crawler::sources::dribbble::Dribbble;
use inspo_crawler::sources::lexica::Lexica;
use inspo_crawler::sources::pinterest::Pinterest;
use inspo_crawler::sources::unsplash::Unsplash;
use inspo_crawler::sources::{best_from_srcset, list, referer_for};

#[test]
fn list_is_in_display_order() {
    let l = list();
    let ids: Vec<&str> = l.iter().map(|s| s.id.as_str()).collect();
    assert_eq!(ids, vec!["pinterest", "dribbble", "behance", "awwwards", "unsplash", "arena", "lexica"]);
    let labels: Vec<&str> = l.iter().map(|s| s.label.as_str()).collect();
    assert_eq!(
        labels,
        vec!["Pinterest", "Dribbble", "Behance", "Awwwards", "Unsplash", "Are.na", "Lexica"]
    );
}

#[test]
fn referer_lookup() {
    assert_eq!(referer_for("pinterest"), "https://www.pinterest.com/");
    assert_eq!(referer_for("behance"), "https://www.behance.net/");
    assert_eq!(referer_for("lexica"), "https://lexica.art/");
    assert_eq!(referer_for("nope"), "");
    assert_eq!(referer_for(""), "");
    for s in list() {
        assert!(!referer_for(&s.id).is_empty());
    }
}

#[test]
fn source_names() {
    assert_eq!(Arena.id(), "arena");
    assert_eq!(Arena.label(), "Are.na");
    assert_eq!(Dribbble.referer(), "https://dribbble.com/");
    assert_eq!(Unsplash.label(), "Unsplash");
}

#[test]
fn srcset_picks_largest_candidate() {
    assert_eq!(
        best_from_srcset("https://a/big.jpg 1600w, https://a/small.jpg 400w").as_deref(),
        Some("https://a/big.jpg")
    );
    assert_eq!(
        best_from_srcset("https://a/s.jpg 400w, https://a/l.jpg 1600w, https://a/m.jpg 800w").as_deref(),
        Some("https://a/l.jpg")
    );
    assert_eq!(
        best_from_srcset("https://a/one.jpg 2x, https://a/two.jpg 2x").as_deref(),
        Some("https://a/two.jpg")
    );
    assert_eq!(
        best_from_srcset("https://a/plain.jpg, https://a/double.jpg 2x").as_deref(),
        Some("https://a/double.jpg")
    );
    assert_eq!(
        best_from_srcset("https://a/x.jpg 3x, /rel.jpg 9x").as_deref(),
        Some("https://a/x.jpg")
    );
    assert_eq!(
        best_from_srcset("a.jpg 1x, https://x/b.jpg 2x, https://x/c.jpg 3x").as_deref(),
        Some("https://x/c.jpg")
    );
    assert_eq!(best_from_srcset("https://x/b.jpg 400w,  /rel.jpg 800w").as_deref(), Some("https://x/b.jpg"));
    assert_eq!(best_from_srcset("  https://only.png  ").as_deref(), Some("https://only.png"));
    assert_eq!(best_from_srcset("foo 1x, bar 2x"), None);
    assert_eq!(best_from_srcset(""), None);
    assert_eq!(best_from_srcset(" , ,"), None);
}

#[test]
fn gallery_ids() {
    assert_eq!(gallery_id("/gallery/12345/slug").as_deref(), Some("12345"));
    assert_eq!(gallery_id("https://www.behance.net/gallery/987").as_deref(), Some("987"));
    assert_eq!(gallery_id("/gallery/abc/x"), None);
    assert_eq!(gallery_id("/gallery//x"), None);
    assert_eq!(gallery_id("/other/1"), None);
    assert_eq!(gallery_id("/gallery/1/gallery/2").as_deref(), Some("1"));
}

#[test]
fn paged_search_urls() {
    assert_eq!(
        Unsplash.search_url("dark ui", 0),
        "https://unsplash.com/napi/search/photos?query=dark%20ui&per_page=30&page=1"
    );
    assert_eq!(Arena.search_url("a&b", 3), "https://api.are.na/v2/search/blocks?q=a%26b&per=32&page=3");
    assert_eq!(Dribbble.search_url("logo", 12), "https://dribbble.com/search/shots?q=logo&page=12");
    assert_eq!(
        Behance.search_url("café & ~tea_1.0", 1),
        "https://www.behance.net/search/projects?search=caf%C3%A9%20%26%20~tea_1.0&page=1"
    );
    assert_eq!(
        Awwwards.search_url("landing page", 4294967295),
        "https://www.awwwards.com/websites/?text=landing%20page&page=4294967295"
    );
}

#[test]
fn lexica_ignores_the_page() {
    assert_eq!(Lexica.search_url("cat art", 1), "https://lexica.art/api/v1/search?q=cat%20art");
    assert_eq!(Lexica.search_url("cat art", 0), "https://lexica.art/api/v1/search?q=cat%20art");
    assert_eq!(Lexica.search_url("cat art", 2), "https://lexica.art/api/v1/search?q=cat%20art");
    assert_eq!(Lexica.search_url("cat art", 7), Lexica.search_url("cat art", 1));
}

#[test]
fn pinterest_request_data() {
    assert_eq!(
        Pinterest.request_data("a\"b\\c\n", &None),
        "{\"context\":{},\"options\":{\"page_size\":25,\"query\":\"a\\\"b\\\\c\\n\",\"scope\":\"pins\"}}"
    );
    assert_eq!(
        Pinterest.request_data("x\u{1}", &Some("bm".to_string())),
        "{\"context\":{},\"options\":{\"bookmarks\":[\"bm\"],\"page_size\":25,\"query\":\"x\\u0001\",\"scope\":\"pins\"}}"
    );
}

#[test]
fn pinterest_page_urls() {
    assert_eq!(
        Pinterest.page_url("red poster", &None),
        "https://www.pinterest.com/resource/BaseSearchResource/get/?source_url=%2Fsearch%2Fpins%2F%3Fq%3Dred%2520poster&data=%7B%22context%22%3A%7B%7D%2C%22options%22%3A%7B%22page_size%22%3A25%2C%22query%22%3A%22red%20poster%22%2C%22scope%22%3A%22pins%22%7D%7D"
    );
    assert_eq!(
        Pinterest.page_url("red poster", &Some("Y2JVSG".to_string())),
        "https://www.pinterest.com/resource/BaseSearchResource/get/?source_url=%2Fsearch%2Fpins%2F%3Fq%3Dred%2520poster&data=%7B%22context%22%3A%7B%7D%2C%22options%22%3A%7B%22bookmarks%22%3A%5B%22Y2JVSG%22%5D%2C%22page_size%22%3A25%2C%22query%22%3A%22red%20poster%22%2C%22scope%22%3A%22pins%22%7D%7D"
    );
}
