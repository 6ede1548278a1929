//! One media asset: classification from a directory entry's facts, caption
//! resolution from a sidecar text file, the staleness rule that governs
//! skip-versus-regenerate, and the asset's JSON and feed renderings.

use vstd::prelude::*;
use vstd::string::StrSliceExecFns;
use vstd::string::StringExecFns;

use crate::datetime::{
    civil_of_epoch, datetime_to_rfc2822, format_iso, format_iso_exec, lemma_civil_of_epoch_unique,
    rfc2822_of_catalog, utc_parts_of_epoch, DateTimeParts, MAX_UTC_EPOCH, MIN_UTC_EPOCH,
};
use crate::escape::{
    escape_html, escape_html_attr, escape_html_attr_seq, escape_html_seq, escape_js,
    escape_js_seq, escape_xml, escape_xml_seq,
};
use crate::text::{
    ascii_lower, extension_of, extension_seq, join_from, join_seq, lower_seq, split_lines,
    split_lines_seq, stem_of, stem_seq, str_eq, trim, trim_end_char, trim_end_matching, trim_seq,
};

verus! {

/// The file extensions (lowercased) the gallery accepts.
pub open spec fn is_supported_ext(e: Seq<char>) -> bool {
    e == "png"@ || e == "jpg"@ || e == "jpeg"@ || e == "webp"@ || e == "gif"@ || e == "webm"@
        || e == "mp4"@
}

/// The extensions rendered as animations rather than still images.
pub open spec fn is_animated_ext(e: Seq<char>) -> bool {
    e == "gif"@ || e == "webm"@ || e == "mp4"@
}

pub fn is_supported_extension(e: &str) -> (r: bool)
    ensures
        r == is_supported_ext(e@),
{
    str_eq(e, "png") || str_eq(e, "jpg") || str_eq(e, "jpeg") || str_eq(e, "webp") || str_eq(
        e,
        "gif",
    ) || str_eq(e, "webm") || str_eq(e, "mp4")
}

/// Whether a directory entry with this name belongs to the gallery: its
/// lowercased extension is in the supported set.
pub open spec fn is_supported_media_spec(filename: Seq<char>) -> bool {
    match extension_seq(filename) {
        Some(e) => is_supported_ext(lower_seq(e)),
        None => false,
    }
}

pub fn is_supported_media(filename: &str) -> (r: bool)
    ensures
        r == is_supported_media_spec(filename@),
{
    match extension_of(filename) {
        Some(e) => is_supported_extension(ascii_lower(e.as_str()).as_str()),
        None => false,
    }
}

pub open spec fn opt_str_view(o: Option<&str>) -> Option<Seq<char>> {
    match o {
        Some(s) => Some(s@),
        None => None,
    }
}

/// Title and description from a sidecar's text: two or more lines give
/// title and joined rest, one line gives the stem and that line, nothing
/// gives the stem alone.
pub open spec fn caption_spec(stem: Seq<char>, sidecar: Option<Seq<char>>) -> (Seq<char>, Seq<
    char,
>) {
    match sidecar {
        None => (stem, Seq::empty()),
        Some(content) => {
            let lines = split_lines_seq(content);
            if lines.len() >= 2 {
                (trim_seq(lines[0]), trim_seq(join_seq(lines.skip(1), seq!['\n'])))
            } else if lines.len() == 1 {
                (stem, trim_seq(lines[0]))
            } else {
                (stem, Seq::empty())
            }
        },
    }
}

/// Resolve an asset's title and description from its file-name stem and the
/// content of a sidecar text file beside it, if one exists.
pub fn parse_caption(stem: &str, sidecar: Option<&str>) -> (r: (String, String))
    ensures
        r.0@ == caption_spec(stem@, opt_str_view(sidecar)).0,
        r.1@ == caption_spec(stem@, opt_str_view(sidecar)).1,
{
    match sidecar {
        None => (stem.to_owned(), String::new()),
        Some(content) => {
            let lines = split_lines(content);
            if lines.len() >= 2 {
                let title = trim(lines[0].as_str());
                let joined = join_from(&lines, 1, "\n");
                let description = trim(joined.as_str());
                proof {
                    reveal_strlit("\n");
                    assert(lines.deep_view().skip(1) =~= split_lines_seq(content@).skip(1));
                    assert("\n"@ =~= seq!['\n']);
                }
                (title, description)
            } else if lines.len() == 1 {
                (stem.to_owned(), trim(lines[0].as_str()))
            } else {
                (stem.to_owned(), String::new())
            }
        },
    }
}

/// One classified media asset, rebuilt from a directory entry every build.
#[derive(Debug)]
pub struct WebsiteMedia {
    pub filename: String,
    pub title: String,
    pub description: String,
    pub datetime: String,
    pub extension: String,
}

/// Byte sizes recorded for one processed (or reused) asset, and its public
/// URL once known.
#[derive(Debug)]
pub struct GenerationResult {
    pub media_size: u64,
    pub thumb_size: u64,
    pub image_url: String,
}

/// `base/dir/name`.
pub open spec fn url_spec(base: Seq<char>, dir: Seq<char>, name: Seq<char>) -> Seq<char> {
    base + seq!['/'] + dir + seq!['/'] + name
}

/// The thumbnail's file name: the asset's stem with a `_thumb` mark, keeping
/// the extension for still images and switching to the animated still-image
/// format otherwise.
pub open spec fn thumb_filename_spec(filename: Seq<char>, extension: Seq<char>) -> Seq<char> {
    if is_animated_ext(extension) {
        stem_seq(filename) + "_thumb.webp"@
    } else {
        stem_seq(filename) + "_thumb."@ + extension
    }
}

/// The stat-only staleness rule this library uses: a previously produced
/// output is reusable exactly when the destination media file exists with the
/// source's byte size and a modification time no older than the source's, and
/// the thumbnail file exists. A missing destination or thumbnail is stale; a
/// source written after the destination, or whose size changed, is stale.
pub open spec fn up_to_date_spec(
    source_mtime: i64,
    source_size: u64,
    dest_media: Option<(i64, u64)>,
    thumb_exists: bool,
) -> bool {
    match dest_media {
        Some(d) => thumb_exists && d.1 == source_size && d.0 >= source_mtime,
        None => false,
    }
}

impl WebsiteMedia {
    /// Classify a directory entry: `None` unless it is a regular file whose
    /// lowercased extension is supported. `sidecar` is the text of the
    /// caption file beside it, `catalog_datetime` the catalog's record for
    /// it, and `modified` its filesystem modification time in epoch seconds,
    /// each when obtainable.
    pub fn classify(
        filename: &str,
        is_file: bool,
        sidecar: Option<&str>,
        catalog_datetime: Option<&str>,
        modified: Option<i64>,
    ) -> (r: Option<WebsiteMedia>)
        requires
            modified matches Some(t) ==> MIN_UTC_EPOCH <= t <= MAX_UTC_EPOCH,
        ensures
            ({
                let ok = is_file && match extension_seq(filename@) {
                    Some(e) => is_supported_ext(lower_seq(e)),
                    None => false,
                };
                r is Some <==> ok
            }),
            r matches Some(m) ==> {
                &&& m.filename@ == filename@
                &&& extension_seq(filename@) matches Some(e) && m.extension@ == lower_seq(e)
                &&& m.title@ == caption_spec(stem_seq(filename@), opt_str_view(sidecar)).0
                &&& m.description@ == caption_spec(stem_seq(filename@), opt_str_view(sidecar)).1
                &&& match catalog_datetime {
                    Some(d) => m.datetime@ == d@,
                    None => match modified {
                        Some(t) => m.datetime@ == format_iso(civil_of_epoch(t as int)),
                        None => m.datetime@ == format_iso(DateTimeParts::epoch_spec()),
                    },
                }
            },
    {
        if !is_file {
            return None;
        }
        let ext = match extension_of(filename) {
            Some(e) => e,
            None => {
                return None;
            },
        };
        let ext = ascii_lower(ext.as_str());
        if !is_supported_extension(ext.as_str()) {
            return None;
        }
        let stem = stem_of(filename);
        let caption = parse_caption(stem.as_str(), sidecar);
        let datetime = match catalog_datetime {
            Some(d) => d.to_owned(),
            None => match modified {
                Some(t) => {
                    let p = utc_parts_of_epoch(t);
                    proof {
                        lemma_civil_of_epoch_unique(p);
                    }
                    format_iso_exec(&p)
                },
                None => format_iso_exec(&DateTimeParts::epoch()),
            },
        };
        Some(
            WebsiteMedia {
                filename: filename.to_owned(),
                title: caption.0,
                description: caption.1,
                datetime,
                extension: ext,
            },
        )
    }

    /// Whether the asset is rendered as an animation.
    pub fn is_animated(&self) -> (r: bool)
        ensures
            r == is_animated_ext(self.extension@),
    {
        let e = self.extension.as_str();
        str_eq(e, "gif") || str_eq(e, "webm") || str_eq(e, "mp4")
    }

    /// The thumbnail's file name beside the copied media file.
    pub fn thumb_filename(&self) -> (r: String)
        ensures
            r@ == thumb_filename_spec(self.filename@, self.extension@),
    {
        let mut r = stem_of(self.filename.as_str());
        if self.is_animated() {
            r.append("_thumb.webp");
        } else {
            r.append("_thumb.");
            r.append(self.extension.as_str());
        }
        proof {
            assert(r@ =~= thumb_filename_spec(self.filename@, self.extension@));
        }
        r
    }

    /// The asset's public URL under the site's media directory.
    pub fn image_url(&self, base_url: &str, media_dir: &str) -> (r: String)
        ensures
            r@ == url_spec(base_url@, media_dir@, self.filename@),
    {
        let mut r = base_url.to_owned();
        r.push('/');
        r.append(media_dir);
        r.push('/');
        r.append(self.filename.as_str());
        proof {
            assert(r@ =~= url_spec(base_url@, media_dir@, self.filename@));
        }
        r
    }

    /// Apply the staleness rule [`up_to_date_spec`] to the asset's stat
    /// facts: the source's modification time and size, the destination media
    /// file's modification time and size when it exists, and whether the
    /// thumbnail file exists.
    pub fn is_up_to_date(
        &self,
        source_mtime: i64,
        source_size: u64,
        dest_media: Option<(i64, u64)>,
        thumb_exists: bool,
    ) -> (r: bool)
        ensures
            r == up_to_date_spec(source_mtime, source_size, dest_media, thumb_exists),
    {
        match dest_media {
            Some(d) => thumb_exists && d.1 == source_size && d.0 >= source_mtime,
            None => false,
        }
    }
}

/// The asset's object in the page's embedded JSON array, indented for the
/// template and with every string escaped for the script literal.
pub open spec fn json_entry_spec(m: WebsiteMedia, base: Seq<char>, dir: Seq<char>) -> Seq<char> {
    "            { \"image_url\": \""@ + escape_js_seq(url_spec(base, dir, m.filename@))
        + "\", \"thumb_url\": \""@ + escape_js_seq(
        url_spec(base, dir, thumb_filename_spec(m.filename@, m.extension@)),
    ) + "\", \"title\": \""@ + escape_js_seq(m.title@) + "\", \"description\": \""@
        + escape_js_seq(m.description@) + "\", \"datetime\": \""@ + escape_js_seq(m.datetime@)
        + "\" }"@
}

/// The MIME type served for an extension.
pub open spec fn mime_spec(e: Seq<char>) -> Seq<char> {
    if e == "jpg"@ || e == "jpeg"@ {
        "image/jpeg"@
    } else if e == "png"@ {
        "image/png"@
    } else if e == "webp"@ {
        "image/webp"@
    } else if e == "gif"@ {
        "image/gif"@
    } else if e == "webm"@ {
        "video/webm"@
    } else if e == "mp4"@ {
        "video/mp4"@
    } else {
        "application/octet-stream"@
    }
}

pub fn mime_type(extension: &str) -> (r: &'static str)
    ensures
        r@ == mime_spec(extension@),
{
    if str_eq(extension, "jpg") || str_eq(extension, "jpeg") {
        "image/jpeg"
    } else if str_eq(extension, "png") {
        "image/png"
    } else if str_eq(extension, "webp") {
        "image/webp"
    } else if str_eq(extension, "gif") {
        "image/gif"
    } else if str_eq(extension, "webm") {
        "video/webm"
    } else if str_eq(extension, "mp4") {
        "video/mp4"
    } else {
        "application/octet-stream"
    }
}

/// The media element inside the feed item's HTML body: a video element for
/// the video formats, an image element otherwise.
pub open spec fn media_html_spec(m: WebsiteMedia, image_url: Seq<char>) -> Seq<char> {
    if m.extension@ == "webm"@ || m.extension@ == "mp4"@ {
        "<video src=\""@ + image_url + "\" controls></video>"@
    } else {
        "<img src=\""@ + image_url + "\" alt=\""@ + escape_html_attr_seq(m.title@) + "\"/>"@
    }
}

/// The asset's feed item, over the slash-trimmed base URL.
pub open spec fn rss_item_spec(m: WebsiteMedia, base_in: Seq<char>, dir: Seq<char>) -> Seq<char> {
    let base = trim_end_matching(base_in, '/');
    let image_url = url_spec(base, dir, m.filename@);
    let item_link = base + "/#media="@ + m.filename@;
    let html_content = "<![CDATA[<h2>"@ + escape_html_seq(m.title@) + "</h2>"@ + media_html_spec(
        m,
        image_url,
    ) + "<p>"@ + escape_html_seq(m.description@) + "</p>]]>"@;
    "        <item>\n            <title>"@ + escape_xml_seq(m.title@)
        + "</title>\n            <link>"@ + escape_xml_seq(item_link)
        + "</link>\n            <guid>"@ + escape_xml_seq(image_url)
        + "</guid>\n            <pubDate>"@ + rfc2822_of_catalog(m.datetime@)
        + "</pubDate>\n            <enclosure url=\""@ + escape_xml_seq(image_url) + "\" type=\""@
        + mime_spec(m.extension@) + "\" length=\"0\"/>\n            <description>"@ + html_content
        + "</description>\n        </item>"@
}

impl WebsiteMedia {
    /// Render the asset's JSON object for the page's embedded array.
    pub fn to_json_entry(&self, base_url: &str, media_dir: &str) -> (r: String)
        ensures
            r@ == json_entry_spec(*self, base_url@, media_dir@),
    {
        let image_url = self.image_url(base_url, media_dir);
        let thumb_name = self.thumb_filename();
        let mut thumb_url = base_url.to_owned();
        thumb_url.push('/');
        thumb_url.append(media_dir);
        thumb_url.push('/');
        thumb_url.append(thumb_name.as_str());
        proof {
            assert(thumb_url@ =~= url_spec(
                base_url@,
                media_dir@,
                thumb_filename_spec(self.filename@, self.extension@),
            ));
        }
        let mut r = String::new();
        r.append("            { \"image_url\": \"");
        r.append(escape_js(image_url.as_str()).as_str());
        r.append("\", \"thumb_url\": \"");
        r.append(escape_js(thumb_url.as_str()).as_str());
        r.append("\", \"title\": \"");
        r.append(escape_js(self.title.as_str()).as_str());
        r.append("\", \"description\": \"");
        r.append(escape_js(self.description.as_str()).as_str());
        r.append("\", \"datetime\": \"");
        r.append(escape_js(self.datetime.as_str()).as_str());
        r.append("\" }");
        proof {
            assert(r@ =~= json_entry_spec(*self, base_url@, media_dir@));
        }
        r
    }

    /// Render the asset's feed item.
    pub fn to_rss_item(&self, base_url: &str, media_dir: &str) -> (r: String)
        ensures
            r@ == rss_item_spec(*self, base_url@, media_dir@),
    {
        let base = trim_end_char(base_url, '/');
        let image_url = self.image_url(base.as_str(), media_dir);
        let mut item_link = base.clone();
        item_link.append("/#media=");
        item_link.append(self.filename.as_str());
        let pub_date = datetime_to_rfc2822(self.datetime.as_str());
        let mime = mime_type(self.extension.as_str());

        let mut media_html = String::new();
        if str_eq(self.extension.as_str(), "webm") || str_eq(self.extension.as_str(), "mp4") {
            media_html.append("<video src=\"");
            media_html.append(image_url.as_str());
            media_html.append("\" controls></video>");
        } else {
            media_html.append("<img src=\"");
            media_html.append(image_url.as_str());
            media_html.append("\" alt=\"");
            media_html.append(escape_html_attr(self.title.as_str()).as_str());
            media_html.append("\"/>");
        }
        proof {
            assert(media_html@ =~= media_html_spec(*self, image_url@));
        }

        let mut html_content = String::new();
        html_content.append("<![CDATA[<h2>");
        html_content.append(escape_html(self.title.as_str()).as_str());
        html_content.append("</h2>");
        html_content.append(media_html.as_str());
        html_content.append("<p>");
        html_content.append(escape_html(self.description.as_str()).as_str());
        html_content.append("</p>]]>");

        let mut r = String::new();
        r.append("        <item>\n            <title>");
        r.append(escape_xml(self.title.as_str()).as_str());
        r.append("</title>\n            <link>");
        r.append(escape_xml(item_link.as_str()).as_str());
        r.append("</link>\n            <guid>");
        r.append(escape_xml(image_url.as_str()).as_str());
        r.append("</guid>\n            <pubDate>");
        r.append(pub_date.as_str());
        r.append("</pubDate>\n            <enclosure url=\"");
        r.append(escape_xml(image_url.as_str()).as_str());
        r.append("\" type=\"");
        r.append(mime);
        r.append("\" length=\"0\"/>\n            <description>");
        r.append(html_content.as_str());
        r.append("</description>\n        </item>");
        proof {
            assert(r@ =~= rss_item_spec(*self, base_url@, media_dir@));
        }
        r
    }
}

} // verus!
