//! The build's error taxonomy. Underlying causes arrive already rendered as
//! text (the I/O layer turns its error values into their display strings);
//! every variant carries plain values, and `describe` produces the exact
//! user-visible message.

use vstd::prelude::*;
use vstd::string::StringExecFns;

verus! {

/// A catalog store failure: reading or writing the backing file, parsing it,
/// or serializing the entries.
#[derive(Debug)]
pub enum MediaLibraryError {
    /// Path and rendered cause.
    Io(String, String),
    /// Path and rendered cause.
    Parse(String, String),
    /// Rendered cause.
    Serialize(String),
}

pub open spec fn media_library_error_text(e: MediaLibraryError) -> Seq<char> {
    match e {
        MediaLibraryError::Io(path, err) => "media library I/O error '"@ + path@ + "': "@ + err@,
        MediaLibraryError::Parse(path, err) => "failed to parse '"@ + path@ + "': "@ + err@,
        MediaLibraryError::Serialize(err) => "failed to serialize media metadata: "@ + err@,
    }
}

impl MediaLibraryError {
    /// The user-visible message.
    pub fn describe(&self) -> (r: String)
        ensures
            r@ == media_library_error_text(*self),
    {
        let mut r = String::new();
        match self {
            MediaLibraryError::Io(path, err) => {
                r.append("media library I/O error '");
                r.append(path.as_str());
                r.append("': ");
                r.append(err.as_str());
            },
            MediaLibraryError::Parse(path, err) => {
                r.append("failed to parse '");
                r.append(path.as_str());
                r.append("': ");
                r.append(err.as_str());
            },
            MediaLibraryError::Serialize(err) => {
                r.append("failed to serialize media metadata: ");
                r.append(err.as_str());
            },
        }
        proof {
            assert(r@ =~= media_library_error_text(*self));
        }
        r
    }
}

/// A site-configuration failure: reading or parsing the config file.
#[derive(Debug)]
pub enum WebsiteInfoError {
    /// Path and rendered cause.
    Io(String, String),
    /// Path and rendered cause.
    Parse(String, String),
}

pub open spec fn website_info_error_text(e: WebsiteInfoError) -> Seq<char> {
    match e {
        WebsiteInfoError::Io(path, err) => "failed to read '"@ + path@ + "': "@ + err@,
        WebsiteInfoError::Parse(path, err) => "failed to parse '"@ + path@ + "': "@ + err@,
    }
}

impl WebsiteInfoError {
    /// The user-visible message.
    pub fn describe(&self) -> (r: String)
        ensures
            r@ == website_info_error_text(*self),
    {
        let mut r = String::new();
        match self {
            WebsiteInfoError::Io(path, err) => {
                r.append("failed to read '");
                r.append(path.as_str());
                r.append("': ");
                r.append(err.as_str());
            },
            WebsiteInfoError::Parse(path, err) => {
                r.append("failed to parse '");
                r.append(path.as_str());
                r.append("': ");
                r.append(err.as_str());
            },
        }
        proof {
            assert(r@ =~= website_info_error_text(*self));
        }
        r
    }
}

/// Anything that aborts a build: an invalid or non-site path, a
/// configuration or catalog failure, an I/O failure at a known path, an
/// image decode/encode failure, or the external conversion tool failing in
/// one of its three ways.
#[derive(Debug)]
pub enum WebsiteError {
    /// The absolute form of a path that holds no site configuration.
    NotASite(String),
    /// The absolute form of a path that could not be resolved.
    NotAPath(String),
    Info(WebsiteInfoError),
    MediaLibrary(MediaLibraryError),
    /// Path and rendered cause.
    Io(String, String),
    /// Rendered cause.
    Serialize(String),
    /// Path and rendered cause.
    Image(String, String),
    /// Source path and the tool's rendered diagnostics.
    Ffmpeg(String, String),
    /// Rendered cause of the failed lookup on the system path.
    FfmpegNotFound(String),
}

pub open spec fn website_error_text(e: WebsiteError) -> Seq<char> {
    match e {
        WebsiteError::NotASite(path) => "'"@ + path@
            + "' is not a clutterlog site (missing site.toml)"@,
        WebsiteError::NotAPath(path) => "'"@ + path@ + "' is not a valid path"@,
        WebsiteError::Info(err) => website_info_error_text(err),
        WebsiteError::MediaLibrary(err) => media_library_error_text(err),
        WebsiteError::Io(path, err) => "failed to write '"@ + path@ + "': "@ + err@,
        WebsiteError::Serialize(err) => "failed to serialize site info: "@ + err@,
        WebsiteError::Image(path, err) => "failed to process image '"@ + path@ + "': "@ + err@,
        WebsiteError::Ffmpeg(path, err) => "failed to extract video frame from '"@ + path@ + "': "@
            + err@,
        WebsiteError::FfmpegNotFound(err) => "looks like `ffmpeg` is not installed: "@ + err@,
    }
}

impl WebsiteError {
    /// The user-visible message.
    pub fn describe(&self) -> (r: String)
        ensures
            r@ == website_error_text(*self),
    {
        match self {
            WebsiteError::Info(err) => err.describe(),
            WebsiteError::MediaLibrary(err) => err.describe(),
            WebsiteError::NotASite(path) => {
                let mut r = String::new();
                r.append("'");
                r.append(path.as_str());
                r.append("' is not a clutterlog site (missing site.toml)");
                proof {
                    assert(r@ =~= website_error_text(*self));
                }
                r
            },
            WebsiteError::NotAPath(path) => {
                let mut r = String::new();
                r.append("'");
                r.append(path.as_str());
                r.append("' is not a valid path");
                proof {
                    assert(r@ =~= website_error_text(*self));
                }
                r
            },
            WebsiteError::Io(path, err) => {
                let mut r = String::new();
                r.append("failed to write '");
                r.append(path.as_str());
                r.append("': ");
                r.append(err.as_str());
                proof {
                    assert(r@ =~= website_error_text(*self));
                }
                r
            },
            WebsiteError::Serialize(err) => {
                let mut r = String::new();
                r.append("failed to serialize site info: ");
                r.append(err.as_str());
                proof {
                    assert(r@ =~= website_error_text(*self));
                }
                r
            },
            WebsiteError::Image(path, err) => {
                let mut r = String::new();
                r.append("failed to process image '");
                r.append(path.as_str());
                r.append("': ");
                r.append(err.as_str());
                proof {
                    assert(r@ =~= website_error_text(*self));
                }
                r
            },
            WebsiteError::Ffmpeg(path, err) => {
                let mut r = String::new();
                r.append("failed to extract video frame from '");
                r.append(path.as_str());
                r.append("': ");
                r.append(err.as_str());
                proof {
                    assert(r@ =~= website_error_text(*self));
                }
                r
            },
            WebsiteError::FfmpegNotFound(err) => {
                let mut r = String::new();
                r.append("looks like `ffmpeg` is not installed: ");
                r.append(err.as_str());
                proof {
                    assert(r@ =~= website_error_text(*self));
                }
                r
            },
        }
    }
}

impl From<WebsiteInfoError> for WebsiteError {
    fn from(err: WebsiteInfoError) -> (r: Self) {
        WebsiteError::Info(err)
    }
}

impl vstd::std_specs::convert::FromSpecImpl<WebsiteInfoError> for WebsiteError {
    open spec fn obeys_from_spec() -> bool {
        true
    }

    open spec fn from_spec(err: WebsiteInfoError) -> Self {
        WebsiteError::Info(err)
    }
}

impl From<MediaLibraryError> for WebsiteError {
    fn from(err: MediaLibraryError) -> (r: Self) {
        WebsiteError::MediaLibrary(err)
    }
}

impl vstd::std_specs::convert::FromSpecImpl<MediaLibraryError> for WebsiteError {
    open spec fn obeys_from_spec() -> bool {
        true
    }

    open spec fn from_spec(err: MediaLibraryError) -> Self {
        WebsiteError::MediaLibrary(err)
    }
}

} // verus!
