use inspo_crawler::downloader::{
    ext_static, file_name_for, guess_ext, sanitize, SaveStage,
};
use inspo_crawler::model::{DownloadReq, SaveOutcome, SaveReport};

fn req(title: &str, id: &str, source: &str) -> DownloadReq {
    DownloadReq {
        url: "https://img.example/a.png".to_string(),
        source: source.to_string(),
        title: title.to_string(),
        id: id.to_string(),
    }
}

#[test]
fn sanitize_replaces_and_collapses() {
    assert_eq!(sanitize("Hello World!"), "Hello-World");
    assert_eq!(sanitize("  --a//b..c--  "), "a-b-c");
    assert_eq!(sanitize("snake_case-ok"), "snake_case-ok");
    assert_eq!(sanitize(""), "");
    assert_eq!(sanitize("!!!"), "");
}

#[test]
fn sanitize_non_ascii_becomes_dashes() {
    assert_eq!(sanitize("Café déjà"), "Caf-d-j");
}

#[test]
fn sanitize_keeps_at_most_sixty_chars() {
    let long = "a".repeat(100);
    assert_eq!(sanitize(&long), "a".repeat(60));
    // the cut may leave a trailing dash, which a second pass removes
    let s = format!("{}-bc", "a".repeat(59));
    let once = sanitize(&s);
    assert_eq!(once, format!("{}-", "a".repeat(59)));
    assert_eq!(sanitize(&once), "a".repeat(59));
}

#[test]
fn sanitize_is_idempotent_on_clean_output() {
    let once = sanitize("Blue / Green: Dashboard v2.0");
    assert_eq!(once, "Blue-Green-Dashboard-v2-0");
    assert_eq!(sanitize(&once), once);
}

#[test]
fn guess_ext_prefers_content_type() {
    assert_eq!(guess_ext(Some("image/PNG"), "https://x/y.gif"), "png");
    assert_eq!(guess_ext(Some("image/webp"), "x"), "webp");
    assert_eq!(guess_ext(Some("image/gif"), "x"), "gif");
    assert_eq!(guess_ext(Some("image/svg+xml"), "x"), "svg");
    assert_eq!(guess_ext(Some("image/jpeg"), "x.png"), "jpg");
    assert_eq!(guess_ext(Some("image/JPG"), "x.png"), "jpg");
}

#[test]
fn guess_ext_falls_back_to_url() {
    assert_eq!(guess_ext(Some("application/octet-stream"), "https://x/a.WEBP?w=10"), "webp");
    assert_eq!(guess_ext(None, "https://x/y.JPEG"), "jpg");
    assert_eq!(guess_ext(None, "https://x/y.gif"), "gif");
    assert_eq!(guess_ext(None, "https://x/y.svg?x.png"), "svg");
    assert_eq!(guess_ext(None, "https://x/y.png"), "png");
    assert_eq!(guess_ext(None, "https://x/y"), "jpg");
}

#[test]
fn ext_static_maps_known_and_defaults() {
    assert_eq!(ext_static("png"), "png");
    assert_eq!(ext_static("webp"), "webp");
    assert_eq!(ext_static("gif"), "gif");
    assert_eq!(ext_static("svg"), "svg");
    assert_eq!(ext_static("jpeg"), "jpg");
    assert_eq!(ext_static("bmp"), "jpg");
}

#[test]
fn file_name_with_title_and_id() {
    assert_eq!(file_name_for(&req("My Pin!", "123", "pinterest"), "png"), "My-Pin-pinterest-123.png");
}

#[test]
fn file_name_without_title_or_id() {
    assert_eq!(file_name_for(&req("", "", "unsplash"), "jpg"), "unsplash-unsplash.jpg");
    assert_eq!(file_name_for(&req("???", "a/b", "arena"), "gif"), "arena-arena-a-b.gif");
}

#[test]
fn outcome_messages() {
    let ok = SaveOutcome::saved("7", "/tmp/x.png");
    assert!(ok.ok);
    assert_eq!(ok.detail, "/tmp/x.png");
    assert_eq!(ok.id, "7");
    let d = SaveOutcome::failed("7", SaveStage::Download, "404 Not Found");
    assert!(!d.ok);
    assert_eq!(d.detail, "download failed: 404 Not Found");
    assert_eq!(SaveOutcome::failed("7", SaveStage::Read, "eof").detail, "read failed: eof");
    assert_eq!(SaveOutcome::failed("7", SaveStage::Write, "denied").detail, "write failed: denied");
}

#[test]
fn report_counts_outcomes() {
    let outcomes = vec![
        SaveOutcome::saved("1", "/a"),
        SaveOutcome::failed("2", SaveStage::Write, "x"),
        SaveOutcome::saved("3", "/c"),
    ];
    let r = SaveReport::from_outcomes(outcomes, "/tmp/out".to_string());
    assert_eq!(r.saved, 2);
    assert_eq!(r.failed, 1);
    assert_eq!(r.folder, "/tmp/out");
    assert_eq!(r.outcomes.len(), 3);
    assert_eq!(r.outcomes[1].id, "2");
}

#[test]
fn report_of_empty_batch() {
    let r = SaveReport::from_outcomes(Vec::new(), "f".to_string());
    assert_eq!(r.saved, 0);
    assert_eq!(r.failed, 0);
}

#[test]
fn report_when_folder_cannot_be_created() {
    let r = SaveReport::folder_failed(4, "/root/x".to_string(), "permission denied");
    assert_eq!(r.saved, 0);
    assert_eq!(r.failed, 4);
    assert_eq!(r.folder, "/root/x");
    assert_eq!(r.outcomes.len(), 1);
    assert_eq!(r.outcomes[0].id, "");
    assert!(!r.outcomes[0].ok);
    assert_eq!(r.outcomes[0].detail, "cannot create folder: permission denied");
}
