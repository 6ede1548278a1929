//! Capture-date resolution for a media file.
//!
//! Candidates are an embedded capture tag (checked in strict priority order,
//! first tag that parses wins), the filesystem creation time and the
//! filesystem modification time; the earliest obtainable candidate decides,
//! and with no candidate at all the epoch sentinel is used.

use vstd::prelude::*;

use crate::datetime::{
    civil_of_epoch, epoch_of, epoch_of_parts, format_iso, format_iso_exec,
    lemma_civil_of_epoch_unique, parse_datetime, parse_datetime_spec, utc_parts_of_epoch,
    DateTimeParts, MAX_UTC_EPOCH, MIN_UTC_EPOCH,
};
use crate::text::{ascii_lower, extension_of, extension_seq, lower_seq, str_eq};

verus! {

/// What the embedded-metadata reader shows for one of the three capture tags
/// of a byte buffer: a pure function of the bytes and the tag selector.
pub uninterp spec fn exif_tag_text(b: Seq<u8>, which: u8) -> Option<Seq<char>>;

pub open spec fn opt_string_view(r: Option<String>) -> Option<Seq<char>> {
    match r {
        Some(s) => Some(s@),
        None => None,
    }
}

/// Relies on `exif::Reader::read_from_container` (over an in-memory cursor),
/// `Exif::get_field` with `In::PRIMARY`, and `Field::display_value`: shows the
/// chosen capture tag of the Exif block in `bytes` as text (0 stands for the
/// original-capture tag, 1 for the digitized tag, anything else for the
/// generic datetime tag). The whole call is a pure computation on the bytes,
/// named by [`exif_tag_text`].
#[verifier::external_body]
fn exif_tag_value(bytes: &Vec<u8>, which: u8) -> (r: Option<String>)
    ensures
        opt_string_view(r) == exif_tag_text(bytes@, which),
{
    let tag = match which {
        0 => exif::Tag::DateTimeOriginal,
        1 => exif::Tag::DateTimeDigitized,
        _ => exif::Tag::DateTime,
    };
    let mut cur = std::io::Cursor::new(bytes.as_slice());
    let data = exif::Reader::new().read_from_container(&mut cur).ok()?;
    let field = data.get_field(tag, exif::In::PRIMARY)?;
    Some(field.display_value().to_string())
}

/// The capture tag with index `which`, parsed as `YYYY-MM-DD HH:MM:SS`.
pub open spec fn parsed_tag(b: Seq<u8>, which: u8) -> Option<DateTimeParts> {
    match exif_tag_text(b, which) {
        Some(t) => parse_datetime_spec(t, ' '),
        None => None,
    }
}

/// The first capture tag, in priority order original-capture, digitized,
/// generic, whose text parses as a datetime.
pub open spec fn exif_capture_spec(b: Seq<u8>) -> Option<DateTimeParts> {
    if parsed_tag(b, 0) is Some {
        parsed_tag(b, 0)
    } else if parsed_tag(b, 1) is Some {
        parsed_tag(b, 1)
    } else {
        parsed_tag(b, 2)
    }
}

/// Read the embedded capture datetime of a media file's bytes, checking the
/// tags in strict priority order and accepting the first that parses.
pub fn extract_exif_date(bytes: &Vec<u8>) -> (r: Option<DateTimeParts>)
    ensures
        r == exif_capture_spec(bytes@),
        r matches Some(p) ==> p.wf(),
{
    if let Some(t) = exif_tag_value(bytes, 0) {
        if let Some(p) = parse_datetime(t.as_str(), ' ') {
            return Some(p);
        }
    }
    if let Some(t) = exif_tag_value(bytes, 1) {
        if let Some(p) = parse_datetime(t.as_str(), ' ') {
            return Some(p);
        }
    }
    if let Some(t) = exif_tag_value(bytes, 2) {
        if let Some(p) = parse_datetime(t.as_str(), ' ') {
            return Some(p);
        }
    }
    None
}

/// The file-name extensions whose embedded metadata is worth probing.
pub open spec fn exif_eligible_ext(e: Seq<char>) -> bool {
    e == "jpg"@ || e == "jpeg"@ || e == "webp"@ || e == "tiff"@ || e == "tif"@
}

/// Whether the embedded capture tag of a file with this name should be
/// probed: its lowercased extension names a format that can carry one.
pub open spec fn wants_exif_probe_spec(filename: Seq<char>) -> bool {
    match extension_seq(filename) {
        Some(e) => exif_eligible_ext(lower_seq(e)),
        None => false,
    }
}

pub fn wants_exif_probe(filename: &str) -> (r: bool)
    ensures
        r == wants_exif_probe_spec(filename@),
{
    match extension_of(filename) {
        Some(e) => {
            let low = ascii_lower(e.as_str());
            let l = low.as_str();
            str_eq(l, "jpg") || str_eq(l, "jpeg") || str_eq(l, "webp") || str_eq(l, "tiff")
                || str_eq(l, "tif")
        },
        None => false,
    }
}

pub open spec fn min_opt(a: Option<int>, b: Option<int>) -> Option<int> {
    match (a, b) {
        (Some(x), Some(y)) => if x <= y {
            Some(x)
        } else {
            Some(y)
        },
        (Some(x), None) => Some(x),
        (None, Some(y)) => Some(y),
        (None, None) => None,
    }
}

pub open spec fn opt_int(o: Option<i64>) -> Option<int> {
    match o {
        Some(v) => Some(v as int),
        None => None,
    }
}

/// The earliest of the obtainable candidates: the embedded capture time of
/// `b` (when bytes were probed and a tag parsed), the creation time and the
/// modification time.
pub open spec fn resolved_epoch_spec(
    exif: Option<DateTimeParts>,
    created: Option<int>,
    modified: Option<int>,
) -> Option<int> {
    let e = match exif {
        Some(p) => Some(epoch_of_parts(p)),
        None => None,
    };
    min_opt(e, min_opt(created, modified))
}

pub open spec fn exif_of_bytes(bytes: Option<&Vec<u8>>) -> Option<DateTimeParts> {
    match bytes {
        Some(b) => exif_capture_spec(b@),
        None => None,
    }
}

fn min_opt_exec(a: Option<i64>, b: Option<i64>) -> (r: Option<i64>)
    ensures
        opt_int(r) == min_opt(opt_int(a), opt_int(b)),
{
    match (a, b) {
        (Some(x), Some(y)) => if x <= y {
            Some(x)
        } else {
            Some(y)
        },
        (Some(x), None) => Some(x),
        (None, Some(y)) => Some(y),
        (None, None) => None,
    }
}

fn format_of_epoch(secs: i64) -> (r: String)
    requires
        MIN_UTC_EPOCH <= secs <= MAX_UTC_EPOCH,
    ensures
        r@ == format_iso(civil_of_epoch(secs as int)),
{
    let p = utc_parts_of_epoch(secs);
    proof {
        lemma_civil_of_epoch_unique(p);
    }
    format_iso_exec(&p)
}

/// Resolve the capture date of a newly catalogued file, from the bytes to
/// probe for an embedded tag (when its format carries one) and the
/// filesystem timestamps, each in epoch seconds when obtainable.
///
/// The result renders the earliest obtainable candidate as a calendar
/// datetime; in particular an embedded capture tag that parses and is no
/// later than every filesystem candidate decides the result, whatever the
/// filesystem says. With no candidate at all the result is the epoch
/// sentinel `1970-01-01T00:00:00`.
pub fn resolve_capture_date(
    exif_bytes: Option<&Vec<u8>>,
    created: Option<i64>,
    modified: Option<i64>,
) -> (r: String)
    requires
        created matches Some(c) ==> MIN_UTC_EPOCH <= c <= MAX_UTC_EPOCH,
        modified matches Some(m) ==> MIN_UTC_EPOCH <= m <= MAX_UTC_EPOCH,
    ensures
        ({
            let exif = exif_of_bytes(exif_bytes);
            let best = resolved_epoch_spec(exif, opt_int(created), opt_int(modified));
            &&& (best is None ==> r@ == format_iso(DateTimeParts::epoch_spec()))
            &&& (best matches Some(v) ==> r@ == format_iso(civil_of_epoch(v)))
            &&& (match exif {
                Some(p) => epoch_of_parts(p) == best.unwrap() ==> r@ == format_iso(p),
                None => true,
            })
        }),
{
    let exif_parts = match exif_bytes {
        Some(b) => extract_exif_date(b),
        None => None,
    };
    let fs_min = min_opt_exec(created, modified);
    match exif_parts {
        Some(p) => {
            let e = epoch_of(&p);
            proof {
                lemma_civil_of_epoch_unique(p);
            }
            match fs_min {
                Some(f) => {
                    if f < e {
                        format_of_epoch(f)
                    } else {
                        format_iso_exec(&p)
                    }
                },
                None => format_iso_exec(&p),
            }
        },
        None => {
            match fs_min {
                Some(f) => format_of_epoch(f),
                None => format_iso_exec(&DateTimeParts::epoch()),
            }
        },
    }
}

} // verus!
