use inspo_crawler::commands::{
    blank_search, check_folder, count_fresh, normalize_query, selected_sources, source_answer,
    source_error,
};
use inspo_crawler::model::{InspoItem, SearchResponse, SourceError};

fn item(id: &str) -> InspoItem {
    InspoItem {
        id: id.to_string(),
        source: "s".to_string(),
        source_label: "S".to_string(),
        title: String::new(),
        author: String::new(),
        thumbnail: format!("https://t/{id}"),
        full: format!("https://f/{id}"),
        link: format!("https://l/{id}"),
    }
}

#[test]
fn query_is_trimmed() {
    assert_eq!(normalize_query("  dashboard ui \n"), "dashboard ui");
    assert_eq!(normalize_query("\u{3000}x\u{a0}"), "x");
    assert_eq!(normalize_query("   "), "");
    assert!(normalize_query(" \t ").is_empty());
}

#[test]
fn selection_follows_display_order() {
    let req = vec!["lexica".to_string(), "pinterest".to_string(), "nope".to_string(), "behance".to_string()];
    assert_eq!(selected_sources(&req), vec![0, 2, 6]);
    assert_eq!(selected_sources(&Vec::new()), Vec::<usize>::new());
    let all: Vec<String> = ["pinterest", "dribbble", "behance", "awwwards", "unsplash", "arena", "lexica"]
        .iter()
        .map(|s| s.to_string())
        .collect();
    assert_eq!(selected_sources(&all), vec![0, 1, 2, 3, 4, 5, 6]);
}

#[test]
fn merge_keeps_order_and_errors() {
    let results: Vec<(Vec<InspoItem>, Option<SourceError>)> = vec![
        (vec![item("a"), item("b")], None),
        (Vec::new(), Some(source_error("dribbble", "Dribbble", "403 Forbidden"))),
        (vec![item("c")], None),
    ];
    let r = SearchResponse::merge(&results);
    let ids: Vec<&str> = r.items.iter().map(|i| i.id.as_str()).collect();
    assert_eq!(ids, vec!["a", "b", "c"]);
    assert_eq!(r.errors.len(), 1);
    assert_eq!(r.errors[0].source, "dribbble");
    assert_eq!(r.errors[0].source_label, "Dribbble");
    assert_eq!(r.errors[0].message, "403 Forbidden");
    let e = SearchResponse::empty();
    assert!(e.items.is_empty() && e.errors.is_empty());
}

#[test]
fn blank_folder_is_refused() {
    assert_eq!(check_folder("  ").unwrap_err(), "No destination folder selected");
    assert_eq!(check_folder("").unwrap_err(), "No destination folder selected");
    assert!(check_folder("/home/me/inspo").is_ok());
}

#[test]
fn fresh_items_on_second_page() {
    let p1 = vec![item("a"), item("b")];
    let p2 = vec![item("b"), item("c"), item("d"), item("a")];
    assert_eq!(count_fresh(&p1, &p2), 2);
    assert_eq!(count_fresh(&p1, &Vec::new()), 0);
    assert_eq!(count_fresh(&Vec::new(), &p2), 4);
}

#[test]
fn blank_query_asks_no_source() {
    let r = blank_search("  \t ").unwrap();
    assert!(r.items.is_empty() && r.errors.is_empty());
    assert!(blank_search("").is_some());
    assert!(blank_search(" dashboard ").is_none());
}

#[test]
fn source_answers_are_items_or_one_error() {
    let (items, err) = source_answer("arena", "Are.na", Ok(vec![item("a"), item("b")]));
    assert_eq!(items.len(), 2);
    assert_eq!(items[1].id, "b");
    assert!(err.is_none());
    let (items, err) = source_answer("behance", "Behance", Err("timed out".to_string()));
    assert!(items.is_empty());
    let e = err.unwrap();
    assert_eq!(e.source, "behance");
    assert_eq!(e.source_label, "Behance");
    assert_eq!(e.message, "timed out");
}

#[test]
fn failing_sources_cost_one_error_each() {
    let answers = vec![
        source_answer("pinterest", "Pinterest", Ok(vec![item("a")])),
        source_answer("dribbble", "Dribbble", Err("403".to_string())),
        source_answer("behance", "Behance", Ok(vec![item("b"), item("c")])),
        source_answer("awwwards", "Awwwards", Err("timeout".to_string())),
    ];
    let answered = answers.iter().filter(|a| a.1.is_none()).count();
    let r = SearchResponse::merge(&answers);
    assert_eq!(r.errors.len() + answered, answers.len());
    let ids: Vec<&str> = r.items.iter().map(|i| i.id.as_str()).collect();
    assert_eq!(ids, vec!["a", "b", "c"]);
    let others_fine = vec![
        source_answer("pinterest", "Pinterest", Ok(vec![item("x")])),
        source_answer("dribbble", "Dribbble", Ok(vec![item("y")])),
        source_answer("behance", "Behance", Ok(vec![item("b"), item("c")])),
        source_answer("awwwards", "Awwwards", Ok(Vec::new())),
    ];
    let r2 = SearchResponse::merge(&others_fine);
    assert!(r2.errors.is_empty());
    let ids2: Vec<&str> = r2.items.iter().map(|i| i.id.as_str()).collect();
    assert_eq!(&ids2[2..4], &["b", "c"]);
}
