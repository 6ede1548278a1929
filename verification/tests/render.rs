use clutterlog::media::GenerationResult;
use clutterlog::render::{
    assemble_json, join_rss_items, render_feed, render_page, BuildReport, WebsiteInfo,
};

fn info() -> WebsiteInfo {
    WebsiteInfo {
        title: "My <Site>".to_string(),
        description: "All & sundry".to_string(),
        author: "Someone \"Quoted\"".to_string(),
        url: "https://site.example/".to_string(),
    }
}

#[test]
fn new_site_info_carries_the_stock_values() {
    let info = WebsiteInfo::new("holiday");
    assert_eq!(info.title, "holiday");
    assert_eq!(info.description, "An uncurated timeline of unfinished projects");
    assert_eq!(info.author, "author-name");
    assert_eq!(info.url, "https://localhost:8088/");
}

#[test]
fn page_substitutes_all_four_placeholders() {
    let template = "<title>{{title}}</title>{{description}}|{{author}}|data={{clutterlog_data}}";
    let page = render_page(template, &info(), "[1, 2]");
    assert_eq!(
        page,
        "<title>My &lt;Site&gt;</title>All &amp; sundry|Someone &quot;Quoted&quot;|data=[1, 2]"
    );
}

#[test]
fn feed_substitutes_and_normalizes_the_url() {
    let template = "{{title}}|{{url}}|{{description}}|{{items}}";
    let feed = render_feed(template, &info(), "ITEMS");
    assert_eq!(feed, "My &lt;Site&gt;|https://site.example/|All &amp; sundry|ITEMS");

    let mut no_slash = info();
    no_slash.url = "https://site.example".to_string();
    let feed = render_feed(template, &no_slash, "");
    assert_eq!(feed, "My &lt;Site&gt;|https://site.example/|All &amp; sundry|");
}

#[test]
fn empty_entry_list_renders_an_empty_array() {
    assert_eq!(assemble_json(&Vec::new()), "[]");
}

#[test]
fn entries_render_as_an_indented_array() {
    let entries = vec!["  {A}".to_string(), "  {B}".to_string()];
    assert_eq!(assemble_json(&entries), "[\n  {A},\n  {B}\n        ]");
}

#[test]
fn rss_items_join_with_a_trailing_break() {
    assert_eq!(join_rss_items(&Vec::new()), "");
    let items = vec!["<item>1</item>".to_string(), "<item>2</item>".to_string()];
    assert_eq!(join_rss_items(&items), "<item>1</item>\n<item>2</item>\n");
}

#[test]
fn report_aggregates_counts_and_sizes() {
    let results = vec![
        GenerationResult { media_size: 100, thumb_size: 10, image_url: String::new() },
        GenerationResult { media_size: 250, thumb_size: 25, image_url: String::new() },
    ];
    let report = BuildReport::from_results(&results, 3, 1234).unwrap();
    assert_eq!(report.items_processed, 2);
    assert_eq!(report.items_skipped, 3);
    assert_eq!(report.total_media_size, 350);
    assert_eq!(report.total_thumbs_size, 35);
    assert_eq!(report.processing_time_ms, 1234);
}

#[test]
fn empty_results_give_an_all_zero_report() {
    let report = BuildReport::from_results(&Vec::new(), 0, 0).unwrap();
    assert_eq!(report.items_processed, 0);
    assert_eq!(report.items_skipped, 0);
    assert_eq!(report.total_media_size, 0);
    assert_eq!(report.total_thumbs_size, 0);
}

#[test]
fn overflowing_byte_totals_are_reported_as_none() {
    let results = vec![
        GenerationResult { media_size: u64::MAX, thumb_size: 0, image_url: String::new() },
        GenerationResult { media_size: 1, thumb_size: 0, image_url: String::new() },
    ];
    assert!(BuildReport::from_results(&results, 0, 0).is_none());
}

/// The build on a site with no media directory: nothing listed, nothing
/// processed, an empty array, and no error anywhere on the way.
#[test]
fn missing_media_directory_builds_an_empty_site() {
    let mut lib = clutterlog::catalog::MediaLibrary::empty();
    let listing: Vec<String> = Vec::new();
    let resolved: Vec<clutterlog::catalog::MetaMedia> = Vec::new();
    let report = lib.update_metadata(&listing, resolved);
    assert_eq!(report.added, 0);
    assert_eq!(report.removed, 0);

    let build = BuildReport::from_results(&Vec::new(), 0, 0).unwrap();
    assert_eq!(build.items_processed, 0);
    assert_eq!(build.items_skipped, 0);
    assert_eq!(assemble_json(&Vec::new()), "[]");

    let page = render_page("{{clutterlog_data}}", &info(), &assemble_json(&Vec::new()));
    assert_eq!(page, "[]");
}
