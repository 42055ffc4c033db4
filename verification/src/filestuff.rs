//! Uploaded files: names, extensions, media types, and which files of a log
//! directory are kept.
//!
//! The extension and MIME matching below lower-cases with ASCII rules. The
//! only character outside ASCII whose Unicode lower-case form is ASCII is the
//! KELVIN SIGN (it lowers to `k`), and no extension or MIME type listed here
//! holds a `k`, so a name matches under Unicode lower-casing exactly when it
//! matches under ASCII lower-casing.

use vstd::prelude::*;
use crate::text::{
    ascii_lower_seq, ascii_lowercase, find_first, is_ascii_upper, find_last, first_index_of, last_index_of,
    lemma_first_index_of, lemma_last_index_of, push_char, str_eq,
};

verus! {

/// The kind of media a file holds, as far as a log can embed it.
#[derive(PartialEq, Eq, Structural, Debug, Clone, Copy)]
pub enum MediaType {
    Unsupported,
    Image,
    Video,
    Audio,
}

/// The extension of a file name: what follows its last `.`; none where the
/// name has no `.` or where nothing stands before that `.` (as in `.ext`).
pub open spec fn extension_of(name: Seq<char>) -> Option<Seq<char>> {
    let k = last_index_of(name, '.');
    if k <= 0 {
        None
    } else {
        Some(name.subrange(k + 1, name.len() as int))
    }
}

/// Returns the extension of a file name.
pub fn get_extension(filename: &str) -> (r: Option<&str>)
    ensures
        r matches Some(e) ==> extension_of(filename@) == Some(e@),
        r is None ==> extension_of(filename@) is None,
{
    proof {
        lemma_last_index_of(filename@, '.');
    }
    match find_last(filename, '.') {
        None => None,
        Some(k) => {
            if k == 0 {
                None
            } else {
                let n = filename.unicode_len();
                Some(filename.substring_char(k + 1, n))
            }
        },
    }
}

/// The media type of a (lower-cased) extension.
pub open spec fn lower_ext_media_type(l: Seq<char>) -> MediaType {
    if l == "jpg"@ || l == "jpeg"@ || l == "png"@ || l == "gif"@ || l == "webp"@ || l == "avif"@
        || l == "ico"@ {
        MediaType::Image
    } else if l == "mp4"@ || l == "webm"@ {
        MediaType::Video
    } else if l == "mp3"@ || l == "wav"@ || l == "oga"@ || l == "weba"@ {
        MediaType::Audio
    } else {
        MediaType::Unsupported
    }
}

/// The media type of a file name, by its extension in any letter case.
pub open spec fn media_type_of(name: Seq<char>) -> MediaType {
    match extension_of(name) {
        None => MediaType::Unsupported,
        Some(e) => lower_ext_media_type(ascii_lower_seq(e)),
    }
}

fn classify_extension(l: &str) -> (r: MediaType)
    ensures
        r == lower_ext_media_type(l@),
{
    if str_eq(l, "jpg") || str_eq(l, "jpeg") || str_eq(l, "png") || str_eq(l, "gif") || str_eq(
        l,
        "webp",
    ) || str_eq(l, "avif") || str_eq(l, "ico") {
        MediaType::Image
    } else if str_eq(l, "mp4") || str_eq(l, "webm") {
        MediaType::Video
    } else if str_eq(l, "mp3") || str_eq(l, "wav") || str_eq(l, "oga") || str_eq(l, "weba") {
        MediaType::Audio
    } else {
        MediaType::Unsupported
    }
}

/// The media type of a file, by its extension.
pub fn media_type(filename: &str) -> (r: MediaType)
    ensures
        r == media_type_of(filename@),
{
    match get_extension(filename) {
        None => MediaType::Unsupported,
        Some(ext) => {
            let l = ascii_lowercase(ext);
            classify_extension(l.as_str())
        },
    }
}

/// The MIME type a media player is told for a file with this (lower-cased)
/// extension: one of those `mime_media_type` reads as video or audio, empty
/// for an extension that is neither.
pub open spec fn lower_ext_mime(l: Seq<char>) -> Seq<char> {
    if l == "mp4"@ {
        "video/mp4"@
    } else if l == "webm"@ {
        "video/webm"@
    } else if l == "mp3"@ {
        "audio/mpeg"@
    } else if l == "wav"@ {
        "audio/wav"@
    } else if l == "oga"@ {
        "audio/ogg"@
    } else if l == "weba"@ {
        "audio/webm"@
    } else {
        ""@
    }
}

/// The MIME type a media player is told for a file, by its extension in any
/// letter case.
pub open spec fn media_mime_of(name: Seq<char>) -> Seq<char> {
    match extension_of(name) {
        None => ""@,
        Some(e) => lower_ext_mime(ascii_lower_seq(e)),
    }
}

/// The MIME type a media player is told for a video or audio file.
pub fn media_mime_type(filename: &str) -> (r: &'static str)
    ensures
        r@ == media_mime_of(filename@),
{
    match get_extension(filename) {
        None => "",
        Some(ext) => {
            let lower = ascii_lowercase(ext);
            let l = lower.as_str();
            if str_eq(l, "mp4") {
                "video/mp4"
            } else if str_eq(l, "webm") {
                "video/webm"
            } else if str_eq(l, "mp3") {
                "audio/mpeg"
            } else if str_eq(l, "wav") {
                "audio/wav"
            } else if str_eq(l, "oga") {
                "audio/ogg"
            } else if str_eq(l, "weba") {
                "audio/webm"
            } else {
                ""
            }
        },
    }
}

/// The MIME type a player is told names the media type of the file it plays:
/// read back by `mime_media_type`, it gives the file's video or audio type.
pub proof fn law_player_mime_names_media_type(l: Seq<char>)
    requires
        lower_ext_media_type(l) == MediaType::Video || lower_ext_media_type(l) == MediaType::Audio,
    ensures
        mime_media_type_of(lower_ext_mime(l)) == lower_ext_media_type(l),
{
    reveal_strlit("mp4");
    reveal_strlit("webm");
    reveal_strlit("mp3");
    reveal_strlit("wav");
    reveal_strlit("oga");
    reveal_strlit("weba");
    reveal_strlit("video/mp4");
    reveal_strlit("video/webm");
    reveal_strlit("audio/mpeg");
    reveal_strlit("audio/wav");
    reveal_strlit("audio/ogg");
    reveal_strlit("audio/webm");
    let m = lower_ext_mime(l);
    lemma_first_index_of(m, ';');
    assert(mime_essence(m) == m);
    assert(ascii_lower_seq(m) =~= m);
    assert(m[0] == 'v' || m[0] == 'a');
    assert(m.len() >= 9);
    assert("image/jpeg"@[0] == 'i' && "image/png"@[0] == 'i' && "image/gif"@[0] == 'i'
        && "image/webp"@[0] == 'i' && "image/avif"@[0] == 'i' && "image/x-icon"@[0] == 'i') by {
        reveal_strlit("image/jpeg");
        reveal_strlit("image/png");
        reveal_strlit("image/gif");
        reveal_strlit("image/webp");
        reveal_strlit("image/avif");
        reveal_strlit("image/x-icon");
    }
    assert("video/mp4"@[0] != "audio/mpeg"@[0]);
    if l == "mp4"@ {
        assert(m == "video/mp4"@);
    } else if l == "webm"@ {
        assert(m == "video/webm"@);
        assert(m != "video/mp4"@);
    } else if l == "mp3"@ {
        assert(m == "audio/mpeg"@);
    } else if l == "wav"@ {
        assert(m == "audio/wav"@);
        assert(m != "audio/mpeg"@);
    } else if l == "oga"@ {
        assert(m == "audio/ogg"@);
        assert(m[6] != "audio/mpeg"@[6]);
        assert(m[6] != "audio/wav"@[6]);
    } else {
        assert(m == "audio/webm"@);
        assert(m[6] != "audio/mpeg"@[6]);
        assert(m != "audio/wav"@);
        assert(m != "audio/ogg"@);
    }
}

/// The standard MIME type of a picture with this (lower-cased) extension
/// (empty for an extension that names no picture).
pub open spec fn lower_ext_image_mime(l: Seq<char>) -> Seq<char> {
    if l == "jpg"@ || l == "jpeg"@ {
        "image/jpeg"@
    } else if l == "png"@ {
        "image/png"@
    } else if l == "gif"@ {
        "image/gif"@
    } else if l == "webp"@ {
        "image/webp"@
    } else if l == "avif"@ {
        "image/avif"@
    } else if l == "ico"@ {
        "image/x-icon"@
    } else {
        ""@
    }
}

/// The MIME table agrees with the extension table on pictures: the standard
/// MIME type of every picture extension is read as a picture, with or without
/// parameters.
pub proof fn law_image_mime_names_image(l: Seq<char>, params: Seq<char>)
    requires
        lower_ext_media_type(l) == MediaType::Image,
        params.len() == 0 || params[0] == ';',
    ensures
        mime_media_type_of(lower_ext_image_mime(l) + params) == MediaType::Image,
{
    reveal_strlit("jpg");
    reveal_strlit("jpeg");
    reveal_strlit("png");
    reveal_strlit("gif");
    reveal_strlit("webp");
    reveal_strlit("avif");
    reveal_strlit("ico");
    reveal_strlit("image/jpeg");
    reveal_strlit("image/png");
    reveal_strlit("image/gif");
    reveal_strlit("image/webp");
    reveal_strlit("image/avif");
    reveal_strlit("image/x-icon");
    let m = lower_ext_image_mime(l);
    assert(m.len() > 0);
    assert(forall|j: int| 0 <= j < m.len() ==> m[j] != ';' && !is_ascii_upper(m[j]));
    let mp = m + params;
    lemma_first_index_of(mp, ';');
    assert(first_index_of(mp, ';') < 0 || first_index_of(mp, ';') >= m.len()) by {
        if 0 <= first_index_of(mp, ';') < m.len() {
            assert(mp[first_index_of(mp, ';')] == m[first_index_of(mp, ';')]);
        }
    }
    if params.len() > 0 {
        assert(mp[m.len() as int] == ';');
        assert(first_index_of(mp, ';') == m.len());
    }
    assert(mime_essence(mp) =~= m);
    assert(ascii_lower_seq(m) =~= m);
}

/// The media type that a (lower-cased, parameter-free) MIME type names.
pub open spec fn lower_mime_media_type(l: Seq<char>) -> MediaType {
    if l == "image/jpeg"@ || l == "image/png"@ || l == "image/gif"@ || l == "image/webp"@ || l
        == "image/avif"@ || l == "image/x-icon"@ {
        MediaType::Image
    } else if l == "video/mp4"@ || l == "video/webm"@ {
        MediaType::Video
    } else if l == "audio/mpeg"@ || l == "audio/wav"@ || l == "audio/ogg"@ || l == "audio/webm"@ {
        MediaType::Audio
    } else {
        MediaType::Unsupported
    }
}

/// A MIME type without its parameters: what stands before its first `;`.
pub open spec fn mime_essence(m: Seq<char>) -> Seq<char> {
    let k = first_index_of(m, ';');
    if k < 0 {
        m
    } else {
        m.subrange(0, k)
    }
}

/// The media type of a MIME type (`type/subtype;parameter=value`), in any
/// letter case.
pub open spec fn mime_media_type_of(m: Seq<char>) -> MediaType {
    lower_mime_media_type(ascii_lower_seq(mime_essence(m)))
}

fn classify_mime(l: &str) -> (r: MediaType)
    ensures
        r == lower_mime_media_type(l@),
{
    if str_eq(l, "image/jpeg") || str_eq(l, "image/png") || str_eq(l, "image/gif") || str_eq(
        l,
        "image/webp",
    ) || str_eq(l, "image/avif") || str_eq(l, "image/x-icon") {
        MediaType::Image
    } else if str_eq(l, "video/mp4") || str_eq(l, "video/webm") {
        MediaType::Video
    } else if str_eq(l, "audio/mpeg") || str_eq(l, "audio/wav") || str_eq(l, "audio/ogg")
        || str_eq(l, "audio/webm") {
        MediaType::Audio
    } else {
        MediaType::Unsupported
    }
}

/// The media type of a MIME type.
pub fn mime_media_type(mime_type: &str) -> (r: MediaType)
    ensures
        r == mime_media_type_of(mime_type@),
{
    proof {
        lemma_first_index_of(mime_type@, ';');
    }
    let essence = match find_first(mime_type, ';') {
        None => mime_type,
        Some(k) => mime_type.substring_char(0, k),
    };
    let l = ascii_lowercase(essence);
    classify_mime(l.as_str())
}

/// Characters that no file name may hold: those Windows refuses, and NUL.
pub open spec fn is_invalid_filename_char(c: char) -> bool {
    c == '*' || c == '"' || c == '/' || c == '\\' || c == '<' || c == '>' || c == ':' || c == '|'
        || c == '?' || c == '\0'
}

/// A file name is valid when it takes at most 255 bytes in UTF-8, is not
/// empty, `.` or `..`, and holds no invalid character. Windows' reserved names
/// are not checked.
pub open spec fn is_valid_filename(name: Seq<char>) -> bool {
    &&& vstd::utf8::encode_utf8(name).len() <= 255
    &&& name != "."@
    &&& name != ".."@
    &&& name.len() != 0
    &&& forall|i: int| 0 <= i < name.len() ==> !is_invalid_filename_char(#[trigger] name[i])
}

/// Whether a file name may be stored.
pub fn filename_valid(filename: &str) -> (r: bool)
    ensures
        r == is_valid_filename(filename@),
{
    if filename.as_bytes().len() > 255 {
        return false;
    }
    if str_eq(filename, ".") || str_eq(filename, "..") || filename.is_empty() {
        return false;
    }
    let n = filename.unicode_len();
    let mut i: usize = 0;
    while i < n
        invariant
            n == filename@.len(),
            i <= n,
            forall|j: int| 0 <= j < i ==> !is_invalid_filename_char(#[trigger] filename@[j]),
            vstd::utf8::encode_utf8(filename@).len() <= 255,
            filename@ != "."@,
            filename@ != ".."@,
            filename@.len() != 0,
        decreases n - i,
    {
        let c = filename.get_char(i);
        if c == '*' || c == '"' || c == '/' || c == '\\' || c == '<' || c == '>' || c == ':' || c
            == '|' || c == '?' || c == '\0' {
            assert(is_invalid_filename_char(filename@[i as int]));
            return false;
        }
        i = i + 1;
    }
    true
}

/// A file name with its extension lower-cased (ASCII) and `jpeg` spelled
/// `jpg`, so that each file type has one extension.
pub open spec fn normalized_name(name: Seq<char>) -> Seq<char> {
    let k = last_index_of(name, '.');
    let ext = ascii_lower_seq(name.subrange(k + 1, name.len() as int));
    let ext = if ext == "jpeg"@ {
        "jpg"@
    } else {
        ext
    };
    name.subrange(0, k) + seq!['.'] + ext
}

/// Normalizes the extension of a file name, which must hold a `.`.
pub fn normalize_extension(filename: &str) -> (r: String)
    requires
        last_index_of(filename@, '.') >= 0,
    ensures
        r@ == normalized_name(filename@),
{
    proof {
        lemma_last_index_of(filename@, '.');
    }
    let k = match find_last(filename, '.') {
        Some(k) => k,
        None => {
            assert(false);
            0
        },
    };
    let n = filename.unicode_len();
    let base = filename.substring_char(0, k);
    let ext_raw = filename.substring_char(k + 1, n);
    let ext = ascii_lowercase(ext_raw);
    let mut out = base.to_owned();
    push_char(&mut out, '.');
    if str_eq(ext.as_str(), "jpeg") {
        out.append("jpg");
    } else {
        out.append(ext.as_str());
    }
    out
}

/// A file of a log directory that is shown and kept as an upload: anything
/// but the log's own `index.html` and `index.md` and unfinished `.tmp` files.
pub open spec fn is_upload_name(name: Seq<char>) -> bool {
    &&& name != "index.html"@
    &&& name != "index.md"@
    &&& extension_of(name) != Some("tmp"@)
}

/// Whether a file of a log directory counts as an upload.
pub fn is_upload_file(filename: &str) -> (r: bool)
    ensures
        r == is_upload_name(filename@),
{
    if str_eq(filename, "index.html") || str_eq(filename, "index.md") {
        return false;
    }
    match get_extension(filename) {
        Some(e) => !str_eq(e, "tmp"),
        None => true,
    }
}


proof fn lemma_lower_idempotent(e: Seq<char>)
    ensures
        ascii_lower_seq(ascii_lower_seq(e)) == ascii_lower_seq(e),
{
    assert(ascii_lower_seq(ascii_lower_seq(e)) =~= ascii_lower_seq(e));
}

/// The normalized name splits at the same last `.` as the name, and what
/// follows that `.` is the normalized extension.
proof fn lemma_normalized_shape(name: Seq<char>)
    requires
        last_index_of(name, '.') >= 0,
    ensures
        ({
            let k = last_index_of(name, '.');
            let r = normalized_name(name);
            let ext = ascii_lower_seq(name.subrange(k + 1, name.len() as int));
            let e2 = if ext == "jpeg"@ {
                "jpg"@
            } else {
                ext
            };
            &&& last_index_of(r, '.') == k
            &&& r.subrange(0, k) == name.subrange(0, k)
            &&& r.subrange(k + 1, r.len() as int) == e2
            &&& ascii_lower_seq(e2) == e2
        }),
{
    lemma_last_index_of(name, '.');
    reveal_strlit("jpg");
    reveal_strlit("jpeg");
    let k = last_index_of(name, '.');
    let r = normalized_name(name);
    let raw = name.subrange(k + 1, name.len() as int);
    let ext = ascii_lower_seq(raw);
    let e2 = if ext == "jpeg"@ {
        "jpg"@
    } else {
        ext
    };
    assert(r == name.subrange(0, k) + seq!['.'] + e2);
    assert forall|j: int| 0 <= j < e2.len() implies e2[j] != '.' by {
        if ext == "jpeg"@ {
        } else {
            assert(raw[j] == name[k + 1 + j]);
        }
    }
    assert forall|j: int| k < j < r.len() implies r[j] != '.' by {
        assert(r[j] == e2[j - k - 1]);
    }
    assert(r[k] == '.');
    crate::text::lemma_last_index_of_unique(r, '.', k);
    assert(r.subrange(0, k) =~= name.subrange(0, k));
    assert(r.subrange(k + 1, r.len() as int) =~= e2);
    lemma_lower_idempotent(raw);
    if ext == "jpeg"@ {
        assert(ascii_lower_seq(e2) =~= e2);
    }
}

/// Normalizing the extension of a name twice gives what normalizing once
/// gives.
pub proof fn law_normalize_extension_idempotent(name: Seq<char>)
    requires
        last_index_of(name, '.') >= 0,
    ensures
        normalized_name(normalized_name(name)) == normalized_name(name),
{
    reveal_strlit("jpg");
    reveal_strlit("jpeg");
    lemma_normalized_shape(name);
    let k = last_index_of(name, '.');
    let r = normalized_name(name);
    let e2 = r.subrange(k + 1, r.len() as int);
    assert(e2 != "jpeg"@) by {
        if e2 == "jpeg"@ {
            let ext = ascii_lower_seq(name.subrange(k + 1, name.len() as int));
            assert(ext != "jpeg"@ ==> e2 == ext);
            assert(ext == "jpeg"@ ==> e2 == "jpg"@);
        }
    }
    assert(normalized_name(r) =~= r.subrange(0, k) + seq!['.'] + e2);
    assert(r =~= r.subrange(0, k) + seq!['.'] + e2);
}

/// Normalizing the extension of a name keeps its media type.
pub proof fn law_normalize_extension_keeps_media_type(name: Seq<char>)
    requires
        last_index_of(name, '.') >= 0,
    ensures
        media_type_of(normalized_name(name)) == media_type_of(name),
{
    reveal_strlit("jpg");
    reveal_strlit("jpeg");
    lemma_normalized_shape(name);
}

/// The MIME type that infer reads from the magic bytes of a file's contents,
/// or `None` where it recognizes none.
pub uninterp spec fn inferred_mime(bytes: Seq<u8>) -> Option<Seq<char>>;

/// `infer::get` and `Type::mime_type`: the MIME type of the contents by their
/// magic bytes.
#[verifier::external_body]
fn infer_mime_type(bytes: &[u8]) -> (r: Option<String>)
    ensures
        r is Some <==> inferred_mime(bytes@) is Some,
        r matches Some(m) ==> inferred_mime(bytes@) == Some(m@),
{
    infer::get(bytes).map(|kind| kind.mime_type().to_string())
}

/// Whether the contents are a file of the kind its name claims: the media
/// type of the MIME type infer reads from the contents equals the media type
/// of the extension. Unrecognized contents never match.
pub fn verify_magic_bytes_match_extension(filename: &str, bytes: &[u8]) -> (r: bool)
    ensures
        r == (inferred_mime(bytes@) matches Some(m) && mime_media_type_of(m) == media_type_of(
            filename@,
        )),
{
    let inferred = infer_mime_type(bytes);
    match inferred {
        None => false,
        Some(m) => media_types_match(Some(m.as_str()), filename),
    }
}

/// Whether a file whose contents have the MIME type `inferred_mime` (`None`
/// where it was not recognized) is of the kind its name claims.
pub fn media_types_match(inferred_mime: Option<&str>, filename: &str) -> (r: bool)
    ensures
        r == (inferred_mime matches Some(m) && mime_media_type_of(m@) == media_type_of(filename@)),
{
    match inferred_mime {
        None => false,
        Some(m) => mime_media_type(m) == media_type(filename),
    }
}

/// A queued compression of an uploaded video: its path, and when it was
/// queued (the file is not replaced if it changed after that).
pub struct CompressVideoJob {
    pub path: String,
    pub created_on: std::time::SystemTime,
}

/// How an uploaded video gets compressed, by the extension of its path.
#[derive(PartialEq, Eq, Structural, Debug, Clone, Copy)]
pub enum CompressPlan {
    /// The path has no extension: nothing is done.
    NoExtension,
    /// An MP4 video, re-encoded with FFmpeg.
    Mp4,
    /// Any other extension: not compressed.
    Unrecognized,
}

/// The compression plan for a path (the extension compared with letter case).
pub open spec fn compress_plan_of(path: Seq<char>) -> CompressPlan {
    match extension_of(path) {
        None => CompressPlan::NoExtension,
        Some(e) => if e == "mp4"@ {
            CompressPlan::Mp4
        } else {
            CompressPlan::Unrecognized
        },
    }
}

/// Decides how to compress the video at `path`.
pub fn compress_plan(path: &str) -> (r: CompressPlan)
    ensures
        r == compress_plan_of(path@),
{
    match get_extension(path) {
        None => CompressPlan::NoExtension,
        Some(e) => if str_eq(e, "mp4") {
            CompressPlan::Mp4
        } else {
            CompressPlan::Unrecognized
        },
    }
}

/// The file a compression writes before it replaces the video: the path
/// with `.tmp` appended.
pub fn compress_tmp_path(path: &str) -> (r: String)
    ensures
        r@ == path@ + ".tmp"@,
{
    let mut s = path.to_owned();
    s.append(".tmp");
    s
}

/// The command line that compresses an MP4 video at low priority: `nice`,
/// then FFmpeg with one thread, scaled to at most 1920 pixels wide, H.264 at
/// CRF 24 and AAC at 128k, written to the `.tmp` file.
pub open spec fn compress_mp4_command(input: Seq<char>) -> Seq<Seq<char>> {
    seq![
        "nice"@,
        "-n"@,
        "19"@,
        "ffmpeg"@,
        "-threads"@,
        "1"@,
        "-i"@,
        input,
        "-vf"@,
        "scale='min(1920,iw)':-2"@,
        "-c:v"@,
        "libx264"@,
        "-preset"@,
        "veryfast"@,
        "-crf"@,
        "24"@,
        "-x264opts"@,
        "rc-lookahead=15"@,
        "-c:a"@,
        "aac"@,
        "-b:a"@,
        "128k"@,
        "-f"@,
        "mp4"@,
        "-y"@,
        input + ".tmp"@
    ]
}

/// Builds the command line (program first) that compresses an MP4 video.
pub fn compress_mp4_command_line(input_path: &str) -> (r: Vec<String>)
    ensures
        r@.map_values(|s: String| s@) == compress_mp4_command(input_path@),
{
    let mut v: Vec<String> = Vec::new();
    v.push(String::from_str("nice"));
    v.push(String::from_str("-n"));
    v.push(String::from_str("19"));
    v.push(String::from_str("ffmpeg"));
    v.push(String::from_str("-threads"));
    v.push(String::from_str("1"));
    v.push(String::from_str("-i"));
    v.push(input_path.to_owned());
    v.push(String::from_str("-vf"));
    v.push(String::from_str("scale='min(1920,iw)':-2"));
    v.push(String::from_str("-c:v"));
    v.push(String::from_str("libx264"));
    v.push(String::from_str("-preset"));
    v.push(String::from_str("veryfast"));
    v.push(String::from_str("-crf"));
    v.push(String::from_str("24"));
    v.push(String::from_str("-x264opts"));
    v.push(String::from_str("rc-lookahead=15"));
    v.push(String::from_str("-c:a"));
    v.push(String::from_str("aac"));
    v.push(String::from_str("-b:a"));
    v.push(String::from_str("128k"));
    v.push(String::from_str("-f"));
    v.push(String::from_str("mp4"));
    v.push(String::from_str("-y"));
    v.push(compress_tmp_path(input_path));
    assert(v@.map_values(|s: String| s@) =~= compress_mp4_command(input_path@));
    v
}

/// After normalization the extension is in lower case and never `jpeg`.
pub proof fn law_normalized_extension_is_canonical(name: Seq<char>)
    requires
        last_index_of(name, '.') >= 0,
    ensures
        ({
            let r = normalized_name(name);
            let e = r.subrange(last_index_of(r, '.') + 1, r.len() as int);
            ascii_lower_seq(e) == e && e != "jpeg"@
        }),
{
    reveal_strlit("jpg");
    reveal_strlit("jpeg");
    lemma_normalized_shape(name);
    let k = last_index_of(name, '.');
    let r = normalized_name(name);
    let e2 = r.subrange(k + 1, r.len() as int);
    let ext = ascii_lower_seq(name.subrange(k + 1, name.len() as int));
    assert(ext != "jpeg"@ ==> e2 == ext);
    assert(ext == "jpeg"@ ==> e2 == "jpg"@);
}
} // verus!
