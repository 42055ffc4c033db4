use logsday::filestuff::{
    compress_mp4_command_line, compress_plan, media_types_match, compress_tmp_path, filename_valid, get_extension, is_upload_file,
    media_mime_type, media_type, mime_media_type, normalize_extension, verify_magic_bytes_match_extension, CompressPlan, MediaType,
};

const PNG_MAGIC: [u8; 16] = [0x89, b'P', b'N', b'G', 0x0D, 0x0A, 0x1A, 0x0A, 0, 0, 0, 0x0D, b'I', b'H', b'D', b'R'];

#[test]
fn extensions() {
    assert_eq!(get_extension("a.png"), Some("png"));
    assert_eq!(get_extension("a.tar.gz"), Some("gz"));
    assert_eq!(get_extension("a."), Some(""));
    assert_eq!(get_extension(".bashrc"), None);
    assert_eq!(get_extension("noext"), None);
    assert_eq!(get_extension(""), None);
}

#[test]
fn media_types_by_extension() {
    assert!(media_type("x.JPG") == MediaType::Image);
    assert!(media_type("x.jpeg") == MediaType::Image);
    assert!(media_type("icon.ico") == MediaType::Image);
    assert!(media_type("v.mp4") == MediaType::Video);
    assert!(media_type("v.WebM") == MediaType::Video);
    assert!(media_type("s.weba") == MediaType::Audio);
    assert!(media_type("s.oga") == MediaType::Audio);
    assert!(media_type("a.svg") == MediaType::Unsupported);
    assert!(media_type("a.mov") == MediaType::Unsupported);
    assert!(media_type("png") == MediaType::Unsupported);
    assert!(media_type(".png") == MediaType::Unsupported);
}

#[test]
fn media_types_by_mime() {
    assert!(mime_media_type("image/PNG; charset=x") == MediaType::Image);
    assert!(mime_media_type("image/x-icon") == MediaType::Image);
    assert!(mime_media_type("video/mp4") == MediaType::Video);
    assert!(mime_media_type("audio/ogg") == MediaType::Audio);
    assert!(mime_media_type("video/quicktime") == MediaType::Unsupported);
    assert!(mime_media_type("image/svg+xml") == MediaType::Unsupported);
    assert!(mime_media_type("") == MediaType::Unsupported);
}

#[test]
fn file_names() {
    assert!(!filename_valid(""));
    assert!(!filename_valid("."));
    assert!(!filename_valid(".."));
    assert!(filename_valid("..."));
    assert!(!filename_valid("a/b"));
    assert!(!filename_valid("a?b"));
    assert!(!filename_valid("a\0b"));
    assert!(!filename_valid("a\"b"));
    assert!(filename_valid(&"a".repeat(255)));
    assert!(!filename_valid(&"a".repeat(256)));
    assert!(!filename_valid(&"é".repeat(128)));
    assert!(filename_valid("photo 1.png"));
}

#[test]
fn normalized_extensions() {
    assert_eq!(normalize_extension("Photo.JPEG"), "Photo.jpg");
    assert_eq!(normalize_extension("a.b.PNG"), "a.b.png");
    assert_eq!(normalize_extension("x.Jpg"), "x.jpg");
    assert_eq!(normalize_extension(".JPEG"), ".jpg");
    assert_eq!(normalize_extension("a."), "a.");
}

#[test]
fn law_normalizing_twice_and_media_type() {
    for name in ["Photo.JPEG", "a.b.PNG", "clip.MP4", "x.jpeg", "y.WAV", "z.txt"] {
        let once = normalize_extension(name);
        assert_eq!(normalize_extension(&once), once);
        assert!(media_type(&once) == media_type(name));
        let ext = get_extension(&once).unwrap();
        assert_eq!(ext, ext.to_ascii_lowercase());
        assert_ne!(ext, "jpeg");
    }
}

#[test]
fn upload_files() {
    assert!(!is_upload_file("index.html"));
    assert!(!is_upload_file("index.md"));
    assert!(!is_upload_file("clip.mp4.tmp"));
    assert!(is_upload_file("clip.mp4"));
    assert!(is_upload_file("index.htm"));
    assert!(is_upload_file(".tmp"));
}

#[test]
fn magic_bytes_match() {
    assert!(verify_magic_bytes_match_extension("a.png", &PNG_MAGIC));
    assert!(verify_magic_bytes_match_extension("a.JPG", &PNG_MAGIC));
    assert!(!verify_magic_bytes_match_extension("a.mp4", &PNG_MAGIC));
    assert!(!verify_magic_bytes_match_extension("a.png", b"plain text here"));
    assert!(!verify_magic_bytes_match_extension("a.txt", b"plain text here"));
}

#[test]
fn compression_plans() {
    assert!(compress_plan("uploads/a/b/1/clip.mp4") == CompressPlan::Mp4);
    assert!(compress_plan("clip.MP4") == CompressPlan::Unrecognized);
    assert!(compress_plan("clip.webm") == CompressPlan::Unrecognized);
    assert!(compress_plan("clip") == CompressPlan::NoExtension);
    assert_eq!(compress_tmp_path("d/clip.mp4"), "d/clip.mp4.tmp");
}

#[test]
fn compression_command_line() {
    let args = compress_mp4_command_line("d/c.mp4");
    let expected = [
        "nice", "-n", "19", "ffmpeg", "-threads", "1", "-i", "d/c.mp4", "-vf", "scale='min(1920,iw)':-2", "-c:v",
        "libx264", "-preset", "veryfast", "-crf", "24", "-x264opts", "rc-lookahead=15", "-c:a", "aac", "-b:a",
        "128k", "-f", "mp4", "-y", "d/c.mp4.tmp",
    ];
    assert_eq!(args, expected);
}

#[test]
fn media_types_of_inferred_mime() {
    assert!(media_types_match(Some("image/png"), "a.gif"));
    assert!(media_types_match(Some("video/webm"), "a.mp4"));
    assert!(!media_types_match(Some("audio/mpeg"), "a.mp4"));
    assert!(!media_types_match(None, "a.png"));
    assert!(media_types_match(Some("application/zip"), "a.zip"));
}

#[test]
fn player_mime_types_by_extension() {
    assert_eq!(media_mime_type("a.mp4"), "video/mp4");
    assert_eq!(media_mime_type("a.WEBM"), "video/webm");
    assert_eq!(media_mime_type("a.mp3"), "audio/mpeg");
    assert_eq!(media_mime_type("a.wav"), "audio/wav");
    assert_eq!(media_mime_type("a.oga"), "audio/ogg");
    assert_eq!(media_mime_type("a.weba"), "audio/webm");
    assert_eq!(media_mime_type("a.png"), "");
    assert_eq!(media_mime_type(".mp4"), "");
    for name in ["a.mp4", "a.webm", "a.mp3", "a.wav", "a.oga", "a.weba"] {
        assert_eq!(mime_media_type(media_mime_type(name)), media_type(name));
    }
}
