use clutterlog::escape::{escape_html, escape_html_attr, escape_js, escape_xml, unescape_js};
use clutterlog::media::{is_supported_media, mime_type, parse_caption, WebsiteMedia};

fn classify_simple(filename: &str) -> Option<WebsiteMedia> {
    WebsiteMedia::classify(filename, true, None, Some("2020-01-01T00:00:00"), None)
}

#[test]
fn classify_accepts_supported_extensions_case_insensitively() {
    for name in ["a.png", "b.jpg", "c.JPEG", "d.WebP", "e.gif", "f.webm", "g.MP4"] {
        assert!(classify_simple(name).is_some(), "{name} should classify");
    }
}

#[test]
fn classify_rejects_non_files_and_unsupported_extensions() {
    assert!(WebsiteMedia::classify("a.jpg", false, None, None, None).is_none());
    assert!(classify_simple("notes.txt").is_none());
    assert!(classify_simple("archive.tar.gz").is_none());
    assert!(classify_simple("noextension").is_none());
    assert!(classify_simple(".hidden").is_none());
}

#[test]
fn classify_lowercases_the_extension() {
    let m = classify_simple("photo.JPG").unwrap();
    assert_eq!(m.extension, "jpg");
    assert_eq!(m.filename, "photo.JPG");
}

#[test]
fn two_line_sidecar_gives_title_and_description() {
    let m = WebsiteMedia::classify(
        "lake.jpg",
        true,
        Some("My Trip\nA day at the lake"),
        Some("2020-01-01T00:00:00"),
        None,
    )
    .unwrap();
    assert_eq!(m.title, "My Trip");
    assert_eq!(m.description, "A day at the lake");
}

#[test]
fn one_line_sidecar_gives_stem_and_caption() {
    let (title, description) = parse_caption("lake", Some("Just a caption"));
    assert_eq!(title, "lake");
    assert_eq!(description, "Just a caption");
}

#[test]
fn missing_sidecar_gives_stem_and_empty_description() {
    let (title, description) = parse_caption("lake", None);
    assert_eq!(title, "lake");
    assert_eq!(description, "");
}

#[test]
fn longer_sidecar_joins_and_trims_the_rest() {
    let (title, description) = parse_caption("x", Some("  Title  \nfirst\nsecond\n"));
    assert_eq!(title, "Title");
    assert_eq!(description, "first\nsecond");
}

#[test]
fn classify_datetime_prefers_the_catalog() {
    let m = WebsiteMedia::classify("a.jpg", true, None, Some("2019-05-05T05:05:05"), Some(0))
        .unwrap();
    assert_eq!(m.datetime, "2019-05-05T05:05:05");
}

#[test]
fn classify_datetime_falls_back_to_modification_time() {
    // 2020-01-01T00:00:00 UTC.
    let m = WebsiteMedia::classify("a.jpg", true, None, None, Some(1577836800)).unwrap();
    assert_eq!(m.datetime, "2020-01-01T00:00:00");
}

#[test]
fn classify_datetime_falls_back_to_the_epoch_sentinel() {
    let m = WebsiteMedia::classify("a.jpg", true, None, None, None).unwrap();
    assert_eq!(m.datetime, "1970-01-01T00:00:00");
}

#[test]
fn animated_classification_follows_the_extension() {
    assert!(classify_simple("a.gif").unwrap().is_animated());
    assert!(classify_simple("a.webm").unwrap().is_animated());
    assert!(classify_simple("a.mp4").unwrap().is_animated());
    assert!(!classify_simple("a.jpg").unwrap().is_animated());
    assert!(!classify_simple("a.png").unwrap().is_animated());
}

#[test]
fn thumb_filename_keeps_still_extensions_and_switches_animated_ones() {
    assert_eq!(classify_simple("photo.jpg").unwrap().thumb_filename(), "photo_thumb.jpg");
    assert_eq!(classify_simple("pic.PNG").unwrap().thumb_filename(), "pic_thumb.png");
    assert_eq!(classify_simple("clip.mp4").unwrap().thumb_filename(), "clip_thumb.webp");
    assert_eq!(classify_simple("anim.gif").unwrap().thumb_filename(), "anim_thumb.webp");
}

#[test]
fn mime_type_maps_every_supported_extension() {
    assert_eq!(mime_type("jpg"), "image/jpeg");
    assert_eq!(mime_type("jpeg"), "image/jpeg");
    assert_eq!(mime_type("png"), "image/png");
    assert_eq!(mime_type("webp"), "image/webp");
    assert_eq!(mime_type("gif"), "image/gif");
    assert_eq!(mime_type("webm"), "video/webm");
    assert_eq!(mime_type("mp4"), "video/mp4");
    assert_eq!(mime_type("bin"), "application/octet-stream");
}

#[test]
fn is_supported_media_checks_the_lowercased_extension() {
    assert!(is_supported_media("a.JPG"));
    assert!(is_supported_media("b.webm"));
    assert!(!is_supported_media("c.txt"));
    assert!(!is_supported_media("d"));
}

#[test]
fn staleness_rule_covers_every_signal() {
    let m = classify_simple("a.jpg").unwrap();
    // Fresh: destination exists with the source's size, no older, thumb there.
    assert!(m.is_up_to_date(100, 42, Some((100, 42)), true));
    assert!(m.is_up_to_date(100, 42, Some((150, 42)), true));
    // Missing destination media file.
    assert!(!m.is_up_to_date(100, 42, None, true));
    // Missing thumbnail.
    assert!(!m.is_up_to_date(100, 42, Some((100, 42)), false));
    // Source modified after the destination was written.
    assert!(!m.is_up_to_date(200, 42, Some((100, 42)), true));
    // Source size changed.
    assert!(!m.is_up_to_date(100, 43, Some((100, 42)), true));
}

#[test]
fn image_url_joins_base_directory_and_name() {
    let m = classify_simple("a.jpg").unwrap();
    assert_eq!(m.image_url("https://site", "media"), "https://site/media/a.jpg");
}

#[test]
fn json_entry_has_the_fixed_shape() {
    let m = WebsiteMedia::classify(
        "a.jpg",
        true,
        Some("Title\nWords"),
        Some("2020-01-01T10:00:00"),
        None,
    )
    .unwrap();
    let entry = m.to_json_entry("https://site", "media");
    assert_eq!(
        entry,
        "            { \"image_url\": \"https://site/media/a.jpg\", \
         \"thumb_url\": \"https://site/media/a_thumb.jpg\", \"title\": \"Title\", \
         \"description\": \"Words\", \"datetime\": \"2020-01-01T10:00:00\" }"
    );
}

#[test]
fn escaped_title_reparses_from_the_json_entry() {
    let title = "He said \"hi\" <&> back\\slash";
    let sidecar = format!("{title}\ndesc");
    let m = WebsiteMedia::classify(
        "a.jpg",
        true,
        Some(sidecar.as_str()),
        Some("2020-01-01T10:00:00"),
        None,
    )
    .unwrap();
    let entry = m.to_json_entry("https://site", "media");
    let start = entry.find("\"title\": \"").unwrap() + "\"title\": \"".len();
    let rest = &entry[start..];
    let end = rest.find("\", \"description\"").unwrap();
    let reparsed = unescape_js(&rest[..end]);
    assert_eq!(reparsed, title);
}

#[test]
fn escape_js_covers_the_four_escaped_characters() {
    assert_eq!(escape_js("a\\b\"c\nd\re"), "a\\\\b\\\"c\\nd\\re");
    assert_eq!(unescape_js("a\\\\b\\\"c\\nd\\re"), "a\\b\"c\nd\re");
}

#[test]
fn markup_escapes_cover_their_character_sets() {
    assert_eq!(escape_xml("a&b<c>d\"e'f"), "a&amp;b&lt;c&gt;d&quot;e&apos;f");
    assert_eq!(escape_html("a&b<c>d\"e"), "a&amp;b&lt;c&gt;d\"e");
    assert_eq!(escape_html_attr("a&b<c>d\"e"), "a&amp;b&lt;c&gt;d&quot;e");
}

#[test]
fn rss_item_for_a_still_image() {
    let m = WebsiteMedia::classify(
        "a.jpg",
        true,
        Some("T<i>tle\nWords & more"),
        Some("2020-01-01T10:00:00"),
        None,
    )
    .unwrap();
    let item = m.to_rss_item("https://site/", "media");
    assert!(item.starts_with("        <item>\n            <title>T&lt;i&gt;tle</title>"));
    assert!(item.contains("<link>https://site/#media=a.jpg</link>"));
    assert!(item.contains("<guid>https://site/media/a.jpg</guid>"));
    assert!(item.contains("<pubDate>Wed, 01 Jan 2020 10:00:00 +0000</pubDate>"));
    assert!(item.contains(
        "<enclosure url=\"https://site/media/a.jpg\" type=\"image/jpeg\" length=\"0\"/>"
    ));
    assert!(item.contains(
        "<description><![CDATA[<h2>T&lt;i&gt;tle</h2><img src=\"https://site/media/a.jpg\" \
         alt=\"T&lt;i&gt;tle\"/><p>Words &amp; more</p>]]></description>"
    ));
    assert!(item.ends_with("        </item>"));
}

#[test]
fn rss_item_for_a_video_uses_a_video_element() {
    let m = classify_simple("clip.mp4").unwrap();
    let item = m.to_rss_item("https://site", "media");
    assert!(item.contains("<video src=\"https://site/media/clip.mp4\" controls></video>"));
    assert!(item.contains("type=\"video/mp4\""));
}
