use clutterlog::errors::{MediaLibraryError, WebsiteError, WebsiteInfoError};
use clutterlog::thumb::{
    center_square_geometry, classify_ffmpeg_outcome, ffmpeg_args, static_thumb_bytes,
    thumb_format, ThumbFormat, ToolOutcome, THUMB_SIZE,
};

fn png_bytes(width: u32, height: u32) -> Vec<u8> {
    let img = image::DynamicImage::new_rgb8(width, height);
    let mut cursor = std::io::Cursor::new(Vec::new());
    img.write_to(&mut cursor, image::ImageFormat::Png).unwrap();
    cursor.into_inner()
}

#[test]
fn any_input_image_yields_a_fixed_square_thumbnail() {
    for (w, h) in [(700, 500), (500, 700), (350, 350), (1, 1), (1024, 3)] {
        let bytes = png_bytes(w, h);
        let thumb = static_thumb_bytes(&bytes, "png", "src.png", "dst.png").unwrap();
        let decoded = image::load_from_memory(&thumb).unwrap();
        assert_eq!(decoded.width(), THUMB_SIZE, "{w}x{h}");
        assert_eq!(decoded.height(), THUMB_SIZE, "{w}x{h}");
    }
}

#[test]
fn crop_geometry_centers_the_square() {
    assert_eq!(center_square_geometry(700, 500), (100, 0, 500));
    assert_eq!(center_square_geometry(500, 700), (0, 100, 500));
    assert_eq!(center_square_geometry(350, 350), (0, 0, 350));
    assert_eq!(center_square_geometry(7, 4), (1, 0, 4));
}

#[test]
fn thumb_format_keeps_webp_and_falls_back_to_jpeg() {
    assert_eq!(thumb_format("webp"), ThumbFormat::WebP);
    assert_eq!(thumb_format("jpg"), ThumbFormat::Jpeg);
    assert_eq!(thumb_format("jpeg"), ThumbFormat::Jpeg);
    assert_eq!(thumb_format("png"), ThumbFormat::Jpeg);
}

#[test]
fn undecodable_bytes_give_an_image_error_with_the_source_path() {
    let garbage = vec![0u8, 1, 2, 3, 4, 5];
    match static_thumb_bytes(&garbage, "png", "media/a.png", "build/a_thumb.png") {
        Err(WebsiteError::Image(path, _)) => assert_eq!(path, "media/a.png"),
        other => panic!("expected an image error, got {other:?}"),
    }
}

#[test]
fn ffmpeg_argument_list_is_fixed() {
    let args = ffmpeg_args("media/clip.mp4", "build/media/clip_thumb.webp");
    assert_eq!(
        args,
        vec![
            "-i",
            "media/clip.mp4",
            "-t",
            "2",
            "-vf",
            "crop=min(iw\\,ih):min(iw\\,ih):(iw-min(iw\\,ih))/2:(ih-min(iw\\,ih))/2,scale=350:350",
            "-c:v",
            "libwebp_anim",
            "-loop",
            "0",
            "-an",
            "-y",
            "build/media/clip_thumb.webp",
        ]
    );
}

#[test]
fn tool_outcomes_map_to_the_three_failure_modes() {
    let ok = classify_ffmpeg_outcome(
        "a.mp4",
        &ToolOutcome::Exited(true, "exit status: 0".to_string(), String::new()),
    );
    assert!(ok.is_ok());

    match classify_ffmpeg_outcome("a.mp4", &ToolOutcome::NotFound("no such file".to_string())) {
        Err(WebsiteError::FfmpegNotFound(msg)) => assert_eq!(msg, "no such file"),
        other => panic!("expected the not-found error, got {other:?}"),
    }

    match classify_ffmpeg_outcome("a.mp4", &ToolOutcome::SpawnFailed("denied".to_string())) {
        Err(WebsiteError::Ffmpeg(path, msg)) => {
            assert_eq!(path, "a.mp4");
            assert_eq!(msg, "denied");
        }
        other => panic!("expected a spawn error, got {other:?}"),
    }

    match classify_ffmpeg_outcome(
        "a.mp4",
        &ToolOutcome::Exited(false, "exit status: 1".to_string(), "bad input".to_string()),
    ) {
        Err(WebsiteError::Ffmpeg(path, msg)) => {
            assert_eq!(path, "a.mp4");
            assert_eq!(msg, "ffmpeg exited with exit status: 1: bad input");
        }
        other => panic!("expected a tool failure, got {other:?}"),
    }
}

#[test]
fn error_descriptions_match_their_variants() {
    let e = WebsiteError::NotASite("/tmp/x".to_string());
    assert_eq!(e.describe(), "'/tmp/x' is not a clutterlog site (missing site.toml)");
    let e = WebsiteError::NotAPath("/tmp/gone".to_string());
    assert_eq!(e.describe(), "'/tmp/gone' is not a valid path");
    let e = WebsiteError::Io("out/index.html".to_string(), "disk full".to_string());
    assert_eq!(e.describe(), "failed to write 'out/index.html': disk full");
    let e = WebsiteError::Serialize("bad value".to_string());
    assert_eq!(e.describe(), "failed to serialize site info: bad value");
    let e = WebsiteError::Image("media/a.png".to_string(), "truncated".to_string());
    assert_eq!(e.describe(), "failed to process image 'media/a.png': truncated");
    let e = WebsiteError::Ffmpeg("media/a.mp4".to_string(), "boom".to_string());
    assert_eq!(e.describe(), "failed to extract video frame from 'media/a.mp4': boom");
    let e = WebsiteError::FfmpegNotFound("not on PATH".to_string());
    assert_eq!(e.describe(), "looks like `ffmpeg` is not installed: not on PATH");

    let e = MediaLibraryError::Io("x.toml".to_string(), "denied".to_string());
    assert_eq!(e.describe(), "media library I/O error 'x.toml': denied");
    let e = MediaLibraryError::Parse(".clutterlog/metamedia.toml".to_string(), "bad toml".to_string());
    assert_eq!(e.describe(), "failed to parse '.clutterlog/metamedia.toml': bad toml");
    let e = MediaLibraryError::Serialize("cycle".to_string());
    assert_eq!(e.describe(), "failed to serialize media metadata: cycle");
    let e = WebsiteError::MediaLibrary(MediaLibraryError::Serialize("cycle".to_string()));
    assert_eq!(e.describe(), "failed to serialize media metadata: cycle");

    let e = WebsiteInfoError::Io("site.toml".to_string(), "denied".to_string());
    assert_eq!(e.describe(), "failed to read 'site.toml': denied");
    let e = WebsiteInfoError::Parse("site.toml".to_string(), "bad key".to_string());
    assert_eq!(e.describe(), "failed to parse 'site.toml': bad key");
    let e = WebsiteError::Info(WebsiteInfoError::Parse("site.toml".to_string(), "bad key".to_string()));
    assert_eq!(e.describe(), "failed to parse 'site.toml': bad key");

    let from_info: WebsiteError =
        WebsiteInfoError::Io("site.toml".to_string(), "denied".to_string()).into();
    assert_eq!(from_info.describe(), "failed to read 'site.toml': denied");
    let from_library: WebsiteError = MediaLibraryError::Serialize("cycle".to_string()).into();
    assert_eq!(from_library.describe(), "failed to serialize media metadata: cycle");
}
