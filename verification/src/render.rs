//! Site configuration defaults, build-report aggregation, and the page and
//! feed rendering: fixed placeholder substitution over caller-supplied
//! templates, and the assembly of the embedded JSON array and the feed items.

use vstd::prelude::*;
use vstd::string::StringExecFns;

use crate::escape::{escape_html_attr, escape_html_attr_seq};
use crate::media::GenerationResult;
use crate::text::{
    join_from, join_seq, replace_all, replace_seq, trim_end_char, trim_end_matching,
};

verus! {

/// The site's identity, as the configuration file carries it.
#[derive(Debug)]
pub struct WebsiteInfo {
    pub title: String,
    pub description: String,
    pub author: String,
    pub url: String,
}

impl WebsiteInfo {
    /// A fresh site's configuration: the given title and the stock
    /// description, author and URL.
    pub fn new(site_title: &str) -> (r: WebsiteInfo)
        ensures
            r.title@ == site_title@,
            r.description@ == "An uncurated timeline of unfinished projects"@,
            r.author@ == "author-name"@,
            r.url@ == "https://localhost:8088/"@,
    {
        WebsiteInfo {
            title: site_title.to_owned(),
            description: "An uncurated timeline of unfinished projects".to_owned(),
            author: "author-name".to_owned(),
            url: "https://localhost:8088/".to_owned(),
        }
    }
}

/// What one build did, aggregated over every asset.
#[derive(Debug, PartialEq, Eq, Structural)]
pub struct BuildReport {
    pub items_processed: usize,
    pub items_skipped: usize,
    pub total_media_size: u64,
    pub total_thumbs_size: u64,
    /// Elapsed wall time, in milliseconds.
    pub processing_time_ms: u64,
}

pub open spec fn sum_media(results: Seq<GenerationResult>) -> int
    decreases results.len(),
{
    if results.len() == 0 {
        0
    } else {
        sum_media(results.drop_last()) + results.last().media_size
    }
}

pub open spec fn sum_thumbs(results: Seq<GenerationResult>) -> int
    decreases results.len(),
{
    if results.len() == 0 {
        0
    } else {
        sum_thumbs(results.drop_last()) + results.last().thumb_size
    }
}

impl BuildReport {
    /// Aggregate the per-asset results: processed count, skipped count and
    /// the two byte totals. `None` exactly when a byte total does not fit.
    pub fn from_results(
        results: &Vec<GenerationResult>,
        items_skipped: usize,
        processing_time_ms: u64,
    ) -> (r: Option<BuildReport>)
        ensures
            r is Some <==> sum_media(results@) <= u64::MAX && sum_thumbs(results@) <= u64::MAX,
            r matches Some(b) ==> {
                &&& b.items_processed == results@.len()
                &&& b.items_skipped == items_skipped
                &&& b.total_media_size == sum_media(results@)
                &&& b.total_thumbs_size == sum_thumbs(results@)
                &&& b.processing_time_ms == processing_time_ms
            },
    {
        let mut total_media: u64 = 0;
        let mut total_thumbs: u64 = 0;
        let mut media_fits = true;
        let mut thumbs_fits = true;
        let mut i: usize = 0;
        while i < results.len()
            invariant
                0 <= i <= results@.len(),
                media_fits ==> total_media == sum_media(results@.take(i as int)),
                !media_fits ==> sum_media(results@.take(i as int)) > u64::MAX,
                thumbs_fits ==> total_thumbs == sum_thumbs(results@.take(i as int)),
                !thumbs_fits ==> sum_thumbs(results@.take(i as int)) > u64::MAX,
            decreases results@.len() - i,
        {
            proof {
                assert(results@.take(i + 1).drop_last() =~= results@.take(i as int));
                assert(results@.take(i + 1).last() == results@[i as int]);
            }
            if media_fits {
                if results[i].media_size <= u64::MAX - total_media {
                    total_media = total_media + results[i].media_size;
                } else {
                    media_fits = false;
                }
            }
            if thumbs_fits {
                if results[i].thumb_size <= u64::MAX - total_thumbs {
                    total_thumbs = total_thumbs + results[i].thumb_size;
                } else {
                    thumbs_fits = false;
                }
            }
            i += 1;
        }
        proof {
            assert(results@.take(results@.len() as int) =~= results@);
        }
        if media_fits && thumbs_fits {
            Some(
                BuildReport {
                    items_processed: results.len(),
                    items_skipped,
                    total_media_size: total_media,
                    total_thumbs_size: total_thumbs,
                    processing_time_ms,
                },
            )
        } else {
            None
        }
    }
}

/// Escape a string for the page template's text placeholders: HTML text
/// escaping with the double quote covered as well.
pub fn escape_html(s: &str) -> (r: String)
    ensures
        r@ == escape_html_attr_seq(s@),
{
    escape_html_attr(s)
}

/// The page's embedded JSON array: the entries joined with a comma break,
/// bracketed and indented to sit inside the template's script block.
pub open spec fn json_array_spec(entries: Seq<Seq<char>>) -> Seq<char> {
    if entries.len() == 0 {
        "[]"@
    } else {
        "[\n"@ + join_seq(entries, ",\n"@) + "\n        ]"@
    }
}

pub fn assemble_json(entries: &Vec<String>) -> (r: String)
    ensures
        r@ == json_array_spec(entries.deep_view()),
{
    if entries.len() == 0 {
        "[]".to_owned()
    } else {
        let mut r = String::new();
        r.append("[\n");
        r.append(join_from(entries, 0, ",\n").as_str());
        r.append("\n        ]");
        proof {
            assert(entries.deep_view().skip(0) =~= entries.deep_view());
            assert(r@ =~= json_array_spec(entries.deep_view()));
        }
        r
    }
}

/// The feed's item block: the items joined by line breaks, with a trailing
/// break when there is any item.
pub open spec fn rss_items_spec(items: Seq<Seq<char>>) -> Seq<char> {
    if items.len() == 0 {
        Seq::empty()
    } else {
        join_seq(items, "\n"@) + "\n"@
    }
}

pub fn join_rss_items(items: &Vec<String>) -> (r: String)
    ensures
        r@ == rss_items_spec(items.deep_view()),
{
    if items.len() == 0 {
        String::new()
    } else {
        let mut r = join_from(items, 0, "\n");
        r.append("\n");
        proof {
            assert(items.deep_view().skip(0) =~= items.deep_view());
            assert(r@ =~= rss_items_spec(items.deep_view()));
        }
        r
    }
}

/// The rendered page: the template with its four placeholders substituted in
/// order — title, description and author escaped for markup, the JSON array
/// inserted verbatim.
pub open spec fn render_page_spec(
    template: Seq<char>,
    title: Seq<char>,
    description: Seq<char>,
    author: Seq<char>,
    data: Seq<char>,
) -> Seq<char> {
    replace_seq(
        replace_seq(
            replace_seq(
                replace_seq(template, "{{title}}"@, escape_html_attr_seq(title)),
                "{{description}}"@,
                escape_html_attr_seq(description),
            ),
            "{{author}}"@,
            escape_html_attr_seq(author),
        ),
        "{{clutterlog_data}}"@,
        data,
    )
}

pub fn render_page(template: &str, info: &WebsiteInfo, data: &str) -> (r: String)
    ensures
        r@ == render_page_spec(template@, info.title@, info.description@, info.author@, data@),
{
    proof {
        reveal_strlit("{{title}}");
        reveal_strlit("{{description}}");
        reveal_strlit("{{author}}");
        reveal_strlit("{{clutterlog_data}}");
    }
    let s = replace_all(template, "{{title}}", escape_html(info.title.as_str()).as_str());
    let s = replace_all(
        s.as_str(),
        "{{description}}",
        escape_html(info.description.as_str()).as_str(),
    );
    let s = replace_all(s.as_str(), "{{author}}", escape_html(info.author.as_str()).as_str());
    replace_all(s.as_str(), "{{clutterlog_data}}", data)
}

/// The feed URL the rendered feed advertises: the configured URL without
/// trailing slashes, with exactly one slash put back.
pub open spec fn feed_url_spec(url: Seq<char>) -> Seq<char> {
    trim_end_matching(url, '/') + seq!['/']
}

/// The rendered feed: the template with title, feed URL and description
/// escaped for markup, and the item block inserted verbatim.
pub open spec fn render_feed_spec(
    template: Seq<char>,
    title: Seq<char>,
    url: Seq<char>,
    description: Seq<char>,
    items: Seq<char>,
) -> Seq<char> {
    replace_seq(
        replace_seq(
            replace_seq(
                replace_seq(template, "{{title}}"@, escape_html_attr_seq(title)),
                "{{url}}"@,
                escape_html_attr_seq(feed_url_spec(url)),
            ),
            "{{description}}"@,
            escape_html_attr_seq(description),
        ),
        "{{items}}"@,
        items,
    )
}

pub fn render_feed(template: &str, info: &WebsiteInfo, items: &str) -> (r: String)
    ensures
        r@ == render_feed_spec(template@, info.title@, info.url@, info.description@, items@),
{
    proof {
        reveal_strlit("{{title}}");
        reveal_strlit("{{url}}");
        reveal_strlit("{{description}}");
        reveal_strlit("{{items}}");
    }
    let mut feed_url = trim_end_char(info.url.as_str(), '/');
    feed_url.push('/');
    proof {
        assert(feed_url@ =~= feed_url_spec(info.url@));
    }
    let s = replace_all(template, "{{title}}", escape_html(info.title.as_str()).as_str());
    let s = replace_all(s.as_str(), "{{url}}", escape_html(feed_url.as_str()).as_str());
    let s = replace_all(
        s.as_str(),
        "{{description}}",
        escape_html(info.description.as_str()).as_str(),
    );
    replace_all(s.as_str(), "{{items}}", items)
}

} // verus!
