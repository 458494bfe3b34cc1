use inspo_crawler::sources::arena::Arena;
use inspo_crawler::sources::awwwards::Awwwards;
use inspo_crawler::sources::behance::Behance;
use inspo_crawler::sources::dribbble::Dribbble;
use inspo_crawler::sources::lexica::Lexica;
use inspo_crawler::sources::pinterest::Pinterest;
use inspo_crawler::sources::unsplash::Unsplash;

#[test]
fn unsplash_results() {
    let body = r#"{"results":[
        {"id":"u1","urls":{"small":"https://s/1","full":"https://f/1"},"alt_description":"alt one","description":"d","user":{"name":"Ann"},"links":{"html":"https://unsplash.com/photos/u1"}},
        {"id":"u2","urls":{"small":"https://s/2","full":null,"raw":"https://r/2"},"alt_description":null,"description":"desc two"},
        {"id":"","urls":{"small":"https://s/3"}},
        {"id":"u4","urls":{"full":"https://f/4"}},
        {"id":"u5","urls":{"small":"https://s/5","raw":"https://r/5"}}
    ]}"#;
    let items = Unsplash.parse(body).unwrap();
    assert_eq!(items.len(), 3);
    assert_eq!(items[0].id, "u1");
    assert_eq!(items[0].source, "unsplash");
    assert_eq!(items[0].source_label, "Unsplash");
    assert_eq!(items[0].title, "alt one");
    assert_eq!(items[0].author, "Ann");
    assert_eq!(items[0].thumbnail, "https://s/1");
    assert_eq!(items[0].full, "https://f/1");
    assert_eq!(items[0].link, "https://unsplash.com/photos/u1");
    // `full` is present but null: the small image is used, not `raw`
    assert_eq!(items[1].full, "https://s/2");
    // `alt_description` is present but null: the title is empty
    assert_eq!(items[1].title, "");
    assert_eq!(items[1].author, "");
    assert_eq!(items[1].link, "https://unsplash.com/");
    assert_eq!(items[2].id, "u5");
    assert_eq!(items[2].full, "https://r/5");
}

#[test]
fn unsplash_bad_json_and_missing_results() {
    assert!(Unsplash.parse("<html>").is_none());
    assert_eq!(Unsplash.parse("{}").unwrap().len(), 0);
    assert_eq!(Unsplash.parse("{\"results\":5}").unwrap().len(), 0);
}

#[test]
fn arena_blocks() {
    let body = r#"{"blocks":[
        {"class":"Image","id":123,"title":"T","user":{"full_name":"Bo"},"image":{"display":{"url":"https://d/1"},"original":{"url":"https://o/1"}}},
        {"class":"Text","id":5,"image":{"display":{"url":"https://d/2"}}},
        {"class":"Image","id":"abc","image":{"thumb":{"url":"https://t/3"},"large":{"url":"https://l/3"}}},
        {"class":"Image","image":{"display":{"url":"https://d/4"}}},
        {"class":"Image","id":9}
    ]}"#;
    let items = Arena.parse(body).unwrap();
    assert_eq!(items.len(), 2);
    assert_eq!(items[0].id, "123");
    assert_eq!(items[0].link, "https://www.are.na/block/123");
    assert_eq!(items[0].thumbnail, "https://d/1");
    assert_eq!(items[0].full, "https://o/1");
    assert_eq!(items[0].title, "T");
    assert_eq!(items[0].author, "Bo");
    assert_eq!(items[0].source_label, "Are.na");
    // a string id keeps its JSON quotes, as `Value::to_string` writes it
    assert_eq!(items[1].id, "\"abc\"");
    assert_eq!(items[1].thumbnail, "https://t/3");
    assert_eq!(items[1].full, "https://l/3");
}

#[test]
fn lexica_images() {
    let long = "p".repeat(100);
    let body = format!(
        r#"{{"images":[
            {{"id":"l1","src":"https://src/1","srcSmall":"https://small/1","prompt":"{long}","promptid":"pid1"}},
            {{"id":"l2","src":"https://src/2","promptid":""}},
            {{"id":"l3","src":""}},
            {{"src":"https://src/4"}}
        ]}}"#
    );
    let items = Lexica.parse(&body).unwrap();
    assert_eq!(items.len(), 2);
    assert_eq!(items[0].title, "p".repeat(80));
    assert_eq!(items[0].thumbnail, "https://small/1");
    assert_eq!(items[0].link, "https://lexica.art/prompt/pid1");
    assert_eq!(items[0].author, "");
    assert_eq!(items[1].thumbnail, "https://src/2");
    assert_eq!(items[1].link, "https://src/2");
    assert_eq!(items[1].title, "");
}

fn pin_page(ids: &[&str], bookmark: Option<&str>) -> String {
    let pins: Vec<String> = ids
        .iter()
        .map(|id| format!(r#"{{"id":"{id}","images":{{"236x":{{"url":"https://t/{id}"}},"orig":{{"url":"https://o/{id}"}}}},"title":"t{id}","pinner":{{"username":"u{id}"}}}}"#))
        .collect();
    let bm = match bookmark {
        Some(b) => format!(r#","bookmark":"{b}""#),
        None => String::new(),
    };
    format!(r#"{{"resource_response":{{"data":{{"results":[{}]}}{bm}}}}}"#, pins.join(","))
}

#[test]
fn pinterest_items_from_pins() {
    let body = r#"{"resource_response":{"data":{"results":[
        {"id":"1","images":{"474x":{"url":"https://t/474"},"236x":{"url":"https://t/236"},"736x":{"url":"https://t/736"}},"grid_title":"Grid","title":"Title","pinner":{"full_name":"Full","username":"user"}},
        {"id":"2","images":{"736x":{"url":"https://t/736b"}}},
        {"id":"3","images":{}},
        {"images":{"orig":{"url":"https://o"}}}
    ]}}}"#;
    let mut pager = Pinterest.pager(1);
    assert!(pager.advance(body).is_some());
    assert!(pager.done());
    let items = pager.items();
    assert_eq!(items.len(), 2);
    assert_eq!(items[0].thumbnail, "https://t/474");
    assert_eq!(items[0].full, "https://t/736");
    assert_eq!(items[0].title, "Grid");
    assert_eq!(items[0].author, "Full");
    assert_eq!(items[0].link, "https://www.pinterest.com/pin/1/");
    assert_eq!(items[1].thumbnail, "https://t/736b");
    assert_eq!(items[1].full, "https://t/736b");
}

#[test]
fn pinterest_pager_follows_bookmarks() {
    let mut pager = Pinterest.pager(3);
    let first = pager.next_url("cats").unwrap();
    assert_eq!(first, Pinterest.page_url("cats", &None));
    pager.advance(&pin_page(&["a"], Some("B1"))).unwrap();
    assert!(!pager.done());
    assert_eq!(pager.next_url("cats").unwrap(), Pinterest.page_url("cats", &Some("B1".to_string())));
    pager.advance(&pin_page(&["b"], Some("B2"))).unwrap();
    assert!(!pager.done());
    pager.advance(&pin_page(&["c", "d"], Some("B3"))).unwrap();
    // three requests for page 3, however many bookmarks remain
    assert!(pager.done());
    assert_eq!(pager.next_url("cats"), None);
    let items = pager.items();
    let ids: Vec<&str> = items.iter().map(|i| i.id.as_str()).collect();
    assert_eq!(ids, vec!["c", "d"]);
    assert_eq!(items[0].author, "uc");
}

#[test]
fn pinterest_pager_stops_at_end_marker() {
    let mut pager = Pinterest.pager(5);
    pager.advance(&pin_page(&["a"], Some("-end-"))).unwrap();
    assert!(pager.done());
    assert_eq!(pager.items()[0].id, "a");
    let mut pager = Pinterest.pager(0);
    pager.advance(&pin_page(&["z"], Some("B"))).unwrap();
    assert!(pager.done());
    let mut pager = Pinterest.pager(2);
    pager.advance(&pin_page(&["z"], None)).unwrap();
    assert!(pager.done());
}

#[test]
fn pinterest_pager_refuses_non_json() {
    let mut pager = Pinterest.pager(2);
    assert!(pager.advance("not json").is_none());
    assert!(!pager.done());
    assert_eq!(pager.items().len(), 0);
}

#[test]
fn dribbble_cards() {
    let html = r#"<html><body><ul>
      <li class="shot-thumbnail"><img data-src="https://cdn/a_1x1.png" alt="  Shot A "><a class="shot-thumbnail-link" href="/shots/123-a/"></a></li>
      <li id="screenshot-2"><img srcset="https://cdn/b_small.png 1x, https://cdn/b_big.png 2x" src="https://cdn/b.png"></li>
      <li class="shot-thumbnail"><img src="/relative.png"><a href="/shots/9"></a></li>
      <li class="shot-thumbnail"><span>no image</span></li>
      <li class="shot-thumbnail"><img src="https://cdn/c.png"><a class="shot-thumbnail-link" href="https://dribbble.com/shots/77"></a></li>
    </ul></body></html>"#;
    let page = Dribbble.search_url("x", 1);
    let items = Dribbble.parse(html, &page).unwrap();
    assert_eq!(items.len(), 3);
    assert_eq!(items[0].id, "123-a");
    assert_eq!(items[0].title, "Shot A");
    assert_eq!(items[0].thumbnail, "https://cdn/a_1x1.png");
    assert_eq!(items[0].full, "https://cdn/a.png");
    assert_eq!(items[0].link, "https://dribbble.com/shots/123-a/");
    assert_eq!(items[1].thumbnail, "https://cdn/b_big.png");
    assert_eq!(items[1].id, "https://cdn/b_big.png");
    assert_eq!(items[1].link, page);
    assert_eq!(items[2].link, "https://dribbble.com/shots/77");
    assert_eq!(items[2].id, "77");
    assert_eq!(items[2].source, "dribbble");
}

#[test]
fn behance_one_item_per_gallery() {
    let html = r#"<html><body>
      <a href="/gallery/111/first" title="First"><img srcset="https://b/1s.jpg 1x, https://b/1l.jpg 2x" src="https://b/1.jpg"></a>
      <a href="/gallery/111/first-again"><img src="https://b/1b.jpg" alt="dup"></a>
      <a href="/gallery/222/no-image">text</a>
      <a href="/gallery/222/second"><img src="https://b/2.jpg" alt="Second"></a>
      <a href="https://www.behance.net/gallery/333/third"><img src="https://b/3.jpg" alt=" Third "></a>
      <a href="/gallery/abc/bad"><img src="https://b/x.jpg"></a>
      <a href="/gallery/444/rel"><img src="/rel.jpg"></a>
    </body></html>"#;
    let items = Behance.parse(html).unwrap();
    let ids: Vec<&str> = items.iter().map(|i| i.id.as_str()).collect();
    // 111 is taken once; 222 was met on a card without image first
    assert_eq!(ids, vec!["111", "333"]);
    assert_eq!(items[0].title, "First");
    assert_eq!(items[0].thumbnail, "https://b/1l.jpg");
    assert_eq!(items[0].full, "https://b/1l.jpg");
    assert_eq!(items[0].link, "https://www.behance.net/gallery/111/first");
    assert_eq!(items[1].title, "Third");
    assert_eq!(items[1].link, "https://www.behance.net/gallery/333/third");
}

#[test]
fn awwwards_one_item_per_preview() {
    let html = r#"<html><body>
      <div class="card-site"><img data-src="https://a/1.jpg" alt="One"><a href="/sites/one/"></a></div>
      <div class="card-site"><img src="https://a/1.jpg"><a href="/sites/dup"></a></div>
      <div class="card-site"><img data-src="/rel.jpg" src="https://a/ignored.jpg"></div>
      <div class="card-site"><img src="https://a/2.jpg"></div>
    </body></html>"#;
    let page = Awwwards.search_url("y", 2);
    let items = Awwwards.parse(html, &page).unwrap();
    assert_eq!(items.len(), 2);
    assert_eq!(items[0].id, "one");
    assert_eq!(items[0].link, "https://www.awwwards.com/sites/one/");
    assert_eq!(items[0].title, "One");
    assert_eq!(items[1].id, "https://a/2.jpg");
    assert_eq!(items[1].link, page);
    assert_eq!(items[1].full, "https://a/2.jpg");
}

#[test]
fn json_sources_without_a_result_array() {
    assert_eq!(Arena.parse("{\"blocks\":null}").unwrap().len(), 0);
    assert_eq!(Arena.parse("[]").unwrap().len(), 0);
    assert_eq!(Lexica.parse("{\"images\":{\"id\":\"x\"}}").unwrap().len(), 0);
    assert!(Lexica.parse("not json").is_none());
}
