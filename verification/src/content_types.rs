//! The content type a file path or extension is served with.
use crate::http::{strip_all_prefix, trim_start_matches};
use crate::text::{lower_seq, str_eq, strip_prefix, to_ascii_lowercase, trim, trim_back, trim_front, trim_seq, has_prefix};
use vstd::prelude::*;
use vstd::string::*;

verus! {

/// What `std::path::Path::extension` gives for a path, where the extension is text: the
/// part of the file name after its last `.`.
pub uninterp spec fn path_extension(path: Seq<char>) -> Option<Seq<char>>;

/// Calls `std::path::Path::extension` and `OsStr::to_str`; the result is named
/// [`path_extension`].
#[verifier::external_body]
fn extension_of(path: &str) -> (r: Option<&str>)
    ensures
        match r {
            Some(e) => path_extension(path@) == Some(e@),
            None => path_extension(path@) is None,
        },
{
    match std::path::Path::new(path).extension() {
        Some(e) => e.to_str(),
        None => None,
    }
}

/// The extension a path or extension names: the path's extension where it has a non-empty
/// one; else the text without one leading `.`; then trimmed, without leading `.`s, in lower
/// case.
pub open spec fn extension_named(text: Seq<char>, path_ext: Option<Seq<char>>) -> Seq<char> {
    let ext = match path_ext {
        Some(e) => if e.len() > 0 {
            e
        } else if has_prefix(text, "."@) {
            text.subrange(1, text.len() as int)
        } else {
            text
        },
        None => if has_prefix(text, "."@) {
            text.subrange(1, text.len() as int)
        } else {
            text
        },
    };
    lower_seq(strip_all_prefix(trim_seq(ext), "."@))
}

/// The content type of an extension; `application/octet-stream` for one not known.
pub open spec fn content_type_for(e: Seq<char>) -> Seq<char> {
    if e == "html"@ || e == "htm"@ {
        "text/html; charset=utf-8"@
    } else if e == "css"@ {
        "text/css; charset=utf-8"@
    } else if e == "js"@ || e == "mjs"@ || e == "cjs"@ {
        "text/javascript; charset=utf-8"@
    } else if e == "json"@ || e == "map"@ || e == "jsonld"@ {
        "application/json; charset=utf-8"@
    } else if e == "xml"@ {
        "application/xml; charset=utf-8"@
    } else if e == "yaml"@ || e == "yml"@ {
        "application/yaml; charset=utf-8"@
    } else if e == "pdf"@ {
        "application/pdf"@
    } else if e == "wasm"@ {
        "application/wasm"@
    } else if e == "zip"@ {
        "application/zip"@
    } else if e == "gz"@ {
        "application/gzip"@
    } else if e == "tar"@ {
        "application/x-tar"@
    } else if e == "7z"@ {
        "application/x-7z-compressed"@
    } else if e == "rar"@ {
        "application/vnd.rar"@
    } else if e == "svg"@ {
        "image/svg+xml"@
    } else if e == "ico"@ {
        "image/x-icon"@
    } else if e == "png"@ {
        "image/png"@
    } else if e == "apng"@ {
        "image/apng"@
    } else if e == "jpg"@ || e == "jpeg"@ {
        "image/jpeg"@
    } else if e == "gif"@ {
        "image/gif"@
    } else if e == "webp"@ {
        "image/webp"@
    } else if e == "avif"@ {
        "image/avif"@
    } else if e == "bmp"@ {
        "image/bmp"@
    } else if e == "tif"@ || e == "tiff"@ {
        "image/tiff"@
    } else if e == "woff"@ {
        "font/woff"@
    } else if e == "woff2"@ {
        "font/woff2"@
    } else if e == "ttf"@ {
        "font/ttf"@
    } else if e == "otf"@ {
        "font/otf"@
    } else if e == "eot"@ {
        "application/vnd.ms-fontobject"@
    } else if e == "txt"@ || e == "text"@ {
        "text/plain; charset=utf-8"@
    } else if e == "md"@ {
        "text/markdown; charset=utf-8"@
    } else if e == "csv"@ {
        "text/csv; charset=utf-8"@
    } else if e == "tsv"@ {
        "text/tab-separated-values; charset=utf-8"@
    } else if e == "ics"@ {
        "text/calendar; charset=utf-8"@
    } else if e == "mp3"@ {
        "audio/mpeg"@
    } else if e == "wav"@ {
        "audio/wav"@
    } else if e == "ogg"@ || e == "oga"@ {
        "audio/ogg"@
    } else if e == "m4a"@ {
        "audio/mp4"@
    } else if e == "mp4"@ || e == "m4v"@ {
        "video/mp4"@
    } else if e == "webm"@ {
        "video/webm"@
    } else if e == "mov"@ {
        "video/quicktime"@
    } else if e == "avi"@ {
        "video/x-msvideo"@
    } else if e == "mpeg"@ || e == "mpg"@ {
        "video/mpeg"@
    } else if e == "ogv"@ {
        "video/ogg"@
    } else {
        "application/octet-stream"@
    }
}

fn content_type_of_extension(e: &str) -> (r: &'static str)
    ensures
        r@ == content_type_for(e@),
{
    proof {
        reveal_strlit("7z");
        reveal_strlit("apng");
        reveal_strlit("application/gzip");
        reveal_strlit("application/json; charset=utf-8");
        reveal_strlit("application/octet-stream");
        reveal_strlit("application/pdf");
        reveal_strlit("application/vnd.ms-fontobject");
        reveal_strlit("application/vnd.rar");
        reveal_strlit("application/wasm");
        reveal_strlit("application/x-7z-compressed");
        reveal_strlit("application/x-tar");
        reveal_strlit("application/xml; charset=utf-8");
        reveal_strlit("application/yaml; charset=utf-8");
        reveal_strlit("application/zip");
        reveal_strlit("audio/mp4");
        reveal_strlit("audio/mpeg");
        reveal_strlit("audio/ogg");
        reveal_strlit("audio/wav");
        reveal_strlit("avi");
        reveal_strlit("avif");
        reveal_strlit("bmp");
        reveal_strlit("cjs");
        reveal_strlit("css");
        reveal_strlit("csv");
        reveal_strlit("eot");
        reveal_strlit("font/otf");
        reveal_strlit("font/ttf");
        reveal_strlit("font/woff");
        reveal_strlit("font/woff2");
        reveal_strlit("gif");
        reveal_strlit("gz");
        reveal_strlit("htm");
        reveal_strlit("html");
        reveal_strlit("ico");
        reveal_strlit("ics");
        reveal_strlit("image/apng");
        reveal_strlit("image/avif");
        reveal_strlit("image/bmp");
        reveal_strlit("image/gif");
        reveal_strlit("image/jpeg");
        reveal_strlit("image/png");
        reveal_strlit("image/svg+xml");
        reveal_strlit("image/tiff");
        reveal_strlit("image/webp");
        reveal_strlit("image/x-icon");
        reveal_strlit("jpeg");
        reveal_strlit("jpg");
        reveal_strlit("js");
        reveal_strlit("json");
        reveal_strlit("jsonld");
        reveal_strlit("m4a");
        reveal_strlit("m4v");
        reveal_strlit("map");
        reveal_strlit("md");
        reveal_strlit("mjs");
        reveal_strlit("mov");
        reveal_strlit("mp3");
        reveal_strlit("mp4");
        reveal_strlit("mpeg");
        reveal_strlit("mpg");
        reveal_strlit("oga");
        reveal_strlit("ogg");
        reveal_strlit("ogv");
        reveal_strlit("otf");
        reveal_strlit("pdf");
        reveal_strlit("png");
        reveal_strlit("rar");
        reveal_strlit("svg");
        reveal_strlit("tar");
        reveal_strlit("text");
        reveal_strlit("text/calendar; charset=utf-8");
        reveal_strlit("text/css; charset=utf-8");
        reveal_strlit("text/csv; charset=utf-8");
        reveal_strlit("text/html; charset=utf-8");
        reveal_strlit("text/javascript; charset=utf-8");
        reveal_strlit("text/markdown; charset=utf-8");
        reveal_strlit("text/plain; charset=utf-8");
        reveal_strlit("text/tab-separated-values; charset=utf-8");
        reveal_strlit("tif");
        reveal_strlit("tiff");
        reveal_strlit("tsv");
        reveal_strlit("ttf");
        reveal_strlit("txt");
        reveal_strlit("video/mp4");
        reveal_strlit("video/mpeg");
        reveal_strlit("video/ogg");
        reveal_strlit("video/quicktime");
        reveal_strlit("video/webm");
        reveal_strlit("video/x-msvideo");
        reveal_strlit("wasm");
        reveal_strlit("wav");
        reveal_strlit("webm");
        reveal_strlit("webp");
        reveal_strlit("woff");
        reveal_strlit("woff2");
        reveal_strlit("xml");
        reveal_strlit("yaml");
        reveal_strlit("yml");
        reveal_strlit("zip");
    }
    if str_eq(e, "html") || str_eq(e, "htm") {
        "text/html; charset=utf-8"
    } else if str_eq(e, "css") {
        "text/css; charset=utf-8"
    } else if str_eq(e, "js") || str_eq(e, "mjs") || str_eq(e, "cjs") {
        "text/javascript; charset=utf-8"
    } else if str_eq(e, "json") || str_eq(e, "map") || str_eq(e, "jsonld") {
        "application/json; charset=utf-8"
    } else if str_eq(e, "xml") {
        "application/xml; charset=utf-8"
    } else if str_eq(e, "yaml") || str_eq(e, "yml") {
        "application/yaml; charset=utf-8"
    } else if str_eq(e, "pdf") {
        "application/pdf"
    } else if str_eq(e, "wasm") {
        "application/wasm"
    } else if str_eq(e, "zip") {
        "application/zip"
    } else if str_eq(e, "gz") {
        "application/gzip"
    } else if str_eq(e, "tar") {
        "application/x-tar"
    } else if str_eq(e, "7z") {
        "application/x-7z-compressed"
    } else if str_eq(e, "rar") {
        "application/vnd.rar"
    } else if str_eq(e, "svg") {
        "image/svg+xml"
    } else if str_eq(e, "ico") {
        "image/x-icon"
    } else if str_eq(e, "png") {
        "image/png"
    } else if str_eq(e, "apng") {
        "image/apng"
    } else if str_eq(e, "jpg") || str_eq(e, "jpeg") {
        "image/jpeg"
    } else if str_eq(e, "gif") {
        "image/gif"
    } else if str_eq(e, "webp") {
        "image/webp"
    } else if str_eq(e, "avif") {
        "image/avif"
    } else if str_eq(e, "bmp") {
        "image/bmp"
    } else if str_eq(e, "tif") || str_eq(e, "tiff") {
        "image/tiff"
    } else if str_eq(e, "woff") {
        "font/woff"
    } else if str_eq(e, "woff2") {
        "font/woff2"
    } else if str_eq(e, "ttf") {
        "font/ttf"
    } else if str_eq(e, "otf") {
        "font/otf"
    } else if str_eq(e, "eot") {
        "application/vnd.ms-fontobject"
    } else if str_eq(e, "txt") || str_eq(e, "text") {
        "text/plain; charset=utf-8"
    } else if str_eq(e, "md") {
        "text/markdown; charset=utf-8"
    } else if str_eq(e, "csv") {
        "text/csv; charset=utf-8"
    } else if str_eq(e, "tsv") {
        "text/tab-separated-values; charset=utf-8"
    } else if str_eq(e, "ics") {
        "text/calendar; charset=utf-8"
    } else if str_eq(e, "mp3") {
        "audio/mpeg"
    } else if str_eq(e, "wav") {
        "audio/wav"
    } else if str_eq(e, "ogg") || str_eq(e, "oga") {
        "audio/ogg"
    } else if str_eq(e, "m4a") {
        "audio/mp4"
    } else if str_eq(e, "mp4") || str_eq(e, "m4v") {
        "video/mp4"
    } else if str_eq(e, "webm") {
        "video/webm"
    } else if str_eq(e, "mov") {
        "video/quicktime"
    } else if str_eq(e, "avi") {
        "video/x-msvideo"
    } else if str_eq(e, "mpeg") || str_eq(e, "mpg") {
        "video/mpeg"
    } else if str_eq(e, "ogv") {
        "video/ogg"
    } else {
        "application/octet-stream"
    }
}

/// The content type a path or extension is served with: `"index.html"`, `"/assets/app.js"`,
/// `".svg"` and `"png"` are all understood; an unknown extension gives
/// `application/octet-stream`.
pub fn guess_content_type(path_or_extension: &str) -> (r: &'static str)
    ensures
        r@ == content_type_for(
            extension_named(trim_seq(path_or_extension@), path_extension(trim_seq(path_or_extension@))),
        ),
        path_extension(trim_seq(path_or_extension@)) == Some("css"@) ==> r@ == "text/css; charset=utf-8"@,
{
    proof {
        lemma_stylesheet_paths(trim_seq(path_or_extension@));
    }
    let input = trim(path_or_extension);
    proof {
        reveal_strlit(".");
    }
    let ext: &str = match extension_of(input) {
        Some(e) if e.unicode_len() > 0 => e,
        _ => match strip_prefix(input, ".") {
            Some(rest) => rest,
            None => input,
        },
    };
    let normalized = to_ascii_lowercase(trim_start_matches(trim(ext), "."));
    content_type_of_extension(normalized.as_str())
}

/// An extension of one or more ASCII lower-case letters and digits, found as a path's
/// extension, is the extension the path is served by, whatever the rest of the path.
pub proof fn lemma_plain_extension_is_served_as_is(text: Seq<char>, e: Seq<char>)
    requires
        e.len() > 0,
        forall|i: int| 0 <= i < e.len() ==> ('a' <= #[trigger] e[i] && e[i] <= 'z') || ('0' <= e[i] && e[i] <= '9'),
    ensures
        extension_named(text, Some(e)) == e,
{
    reveal_strlit(".");
    assert(e[0] == e[0]);
    assert(e.last() == e[e.len() - 1]);
    assert(trim_front(e) == e);
    assert(trim_back(e) == e);
    assert(!has_prefix(e, "."@)) by {
        if has_prefix(e, "."@) {
            assert(e.subrange(0, 1)[0] == "."@[0]);
        }
    }
    assert(strip_all_prefix(e, "."@) == e);
    assert(lower_seq(e) =~= e);
}

/// The content types of the known extensions, each as it is served: stylesheets as
/// `text/css`, scripts as `text/javascript`, and so on; any other extension gets
/// `application/octet-stream`.
#[verifier::rlimit(100)]
pub proof fn lemma_content_type_table()
    ensures
        content_type_for("html"@) == "text/html; charset=utf-8"@,
        content_type_for("htm"@) == "text/html; charset=utf-8"@,
        content_type_for("css"@) == "text/css; charset=utf-8"@,
        content_type_for("js"@) == "text/javascript; charset=utf-8"@,
        content_type_for("mjs"@) == "text/javascript; charset=utf-8"@,
        content_type_for("cjs"@) == "text/javascript; charset=utf-8"@,
        content_type_for("json"@) == "application/json; charset=utf-8"@,
        content_type_for("map"@) == "application/json; charset=utf-8"@,
        content_type_for("jsonld"@) == "application/json; charset=utf-8"@,
        content_type_for("xml"@) == "application/xml; charset=utf-8"@,
        content_type_for("yaml"@) == "application/yaml; charset=utf-8"@,
        content_type_for("yml"@) == "application/yaml; charset=utf-8"@,
        content_type_for("pdf"@) == "application/pdf"@,
        content_type_for("wasm"@) == "application/wasm"@,
        content_type_for("zip"@) == "application/zip"@,
        content_type_for("gz"@) == "application/gzip"@,
        content_type_for("tar"@) == "application/x-tar"@,
        content_type_for("7z"@) == "application/x-7z-compressed"@,
        content_type_for("rar"@) == "application/vnd.rar"@,
        content_type_for("svg"@) == "image/svg+xml"@,
        content_type_for("ico"@) == "image/x-icon"@,
        content_type_for("png"@) == "image/png"@,
        content_type_for("apng"@) == "image/apng"@,
        content_type_for("jpg"@) == "image/jpeg"@,
        content_type_for("jpeg"@) == "image/jpeg"@,
        content_type_for("gif"@) == "image/gif"@,
        content_type_for("webp"@) == "image/webp"@,
        content_type_for("avif"@) == "image/avif"@,
        content_type_for("bmp"@) == "image/bmp"@,
        content_type_for("tif"@) == "image/tiff"@,
        content_type_for("tiff"@) == "image/tiff"@,
        content_type_for("woff"@) == "font/woff"@,
        content_type_for("woff2"@) == "font/woff2"@,
        content_type_for("ttf"@) == "font/ttf"@,
        content_type_for("otf"@) == "font/otf"@,
        content_type_for("eot"@) == "application/vnd.ms-fontobject"@,
        content_type_for("txt"@) == "text/plain; charset=utf-8"@,
        content_type_for("text"@) == "text/plain; charset=utf-8"@,
        content_type_for("md"@) == "text/markdown; charset=utf-8"@,
        content_type_for("csv"@) == "text/csv; charset=utf-8"@,
        content_type_for("tsv"@) == "text/tab-separated-values; charset=utf-8"@,
        content_type_for("ics"@) == "text/calendar; charset=utf-8"@,
        content_type_for("mp3"@) == "audio/mpeg"@,
        content_type_for("wav"@) == "audio/wav"@,
        content_type_for("ogg"@) == "audio/ogg"@,
        content_type_for("oga"@) == "audio/ogg"@,
        content_type_for("m4a"@) == "audio/mp4"@,
        content_type_for("mp4"@) == "video/mp4"@,
        content_type_for("m4v"@) == "video/mp4"@,
        content_type_for("webm"@) == "video/webm"@,
        content_type_for("mov"@) == "video/quicktime"@,
        content_type_for("avi"@) == "video/x-msvideo"@,
        content_type_for("mpeg"@) == "video/mpeg"@,
        content_type_for("mpg"@) == "video/mpeg"@,
        content_type_for("ogv"@) == "video/ogg"@,
        content_type_for("exe"@) == "application/octet-stream"@,
        content_type_for(""@) == "application/octet-stream"@,
{
    reveal_strlit("7z");
    assert("7z"@.len() == 2 && "7z"@[0] == '7' && "7z"@[1] == 'z');
    reveal_strlit("apng");
    assert("apng"@.len() == 4 && "apng"@[0] == 'a' && "apng"@[1] == 'p' && "apng"@[2] == 'n' && "apng"@[3] == 'g');
    reveal_strlit("avi");
    assert("avi"@.len() == 3 && "avi"@[0] == 'a' && "avi"@[1] == 'v' && "avi"@[2] == 'i');
    reveal_strlit("avif");
    assert("avif"@.len() == 4 && "avif"@[0] == 'a' && "avif"@[1] == 'v' && "avif"@[2] == 'i' && "avif"@[3] == 'f');
    reveal_strlit("bmp");
    assert("bmp"@.len() == 3 && "bmp"@[0] == 'b' && "bmp"@[1] == 'm' && "bmp"@[2] == 'p');
    reveal_strlit("cjs");
    assert("cjs"@.len() == 3 && "cjs"@[0] == 'c' && "cjs"@[1] == 'j' && "cjs"@[2] == 's');
    reveal_strlit("css");
    assert("css"@.len() == 3 && "css"@[0] == 'c' && "css"@[1] == 's' && "css"@[2] == 's');
    reveal_strlit("csv");
    assert("csv"@.len() == 3 && "csv"@[0] == 'c' && "csv"@[1] == 's' && "csv"@[2] == 'v');
    reveal_strlit("eot");
    assert("eot"@.len() == 3 && "eot"@[0] == 'e' && "eot"@[1] == 'o' && "eot"@[2] == 't');
    reveal_strlit("exe");
    assert("exe"@.len() == 3 && "exe"@[0] == 'e' && "exe"@[1] == 'x' && "exe"@[2] == 'e');
    reveal_strlit("gif");
    assert("gif"@.len() == 3 && "gif"@[0] == 'g' && "gif"@[1] == 'i' && "gif"@[2] == 'f');
    reveal_strlit("gz");
    assert("gz"@.len() == 2 && "gz"@[0] == 'g' && "gz"@[1] == 'z');
    reveal_strlit("htm");
    assert("htm"@.len() == 3 && "htm"@[0] == 'h' && "htm"@[1] == 't' && "htm"@[2] == 'm');
    reveal_strlit("html");
    assert("html"@.len() == 4 && "html"@[0] == 'h' && "html"@[1] == 't' && "html"@[2] == 'm' && "html"@[3] == 'l');
    reveal_strlit("ico");
    assert("ico"@.len() == 3 && "ico"@[0] == 'i' && "ico"@[1] == 'c' && "ico"@[2] == 'o');
    reveal_strlit("ics");
    assert("ics"@.len() == 3 && "ics"@[0] == 'i' && "ics"@[1] == 'c' && "ics"@[2] == 's');
    reveal_strlit("jpeg");
    assert("jpeg"@.len() == 4 && "jpeg"@[0] == 'j' && "jpeg"@[1] == 'p' && "jpeg"@[2] == 'e' && "jpeg"@[3] == 'g');
    reveal_strlit("jpg");
    assert("jpg"@.len() == 3 && "jpg"@[0] == 'j' && "jpg"@[1] == 'p' && "jpg"@[2] == 'g');
    reveal_strlit("js");
    assert("js"@.len() == 2 && "js"@[0] == 'j' && "js"@[1] == 's');
    reveal_strlit("json");
    assert("json"@.len() == 4 && "json"@[0] == 'j' && "json"@[1] == 's' && "json"@[2] == 'o' && "json"@[3] == 'n');
    reveal_strlit("jsonld");
    assert("jsonld"@.len() == 6 && "jsonld"@[0] == 'j' && "jsonld"@[1] == 's' && "jsonld"@[2] == 'o' && "jsonld"@[3] == 'n' && "jsonld"@[4] == 'l' && "jsonld"@[5] == 'd');
    reveal_strlit("m4a");
    assert("m4a"@.len() == 3 && "m4a"@[0] == 'm' && "m4a"@[1] == '4' && "m4a"@[2] == 'a');
    reveal_strlit("m4v");
    assert("m4v"@.len() == 3 && "m4v"@[0] == 'm' && "m4v"@[1] == '4' && "m4v"@[2] == 'v');
    reveal_strlit("map");
    assert("map"@.len() == 3 && "map"@[0] == 'm' && "map"@[1] == 'a' && "map"@[2] == 'p');
    reveal_strlit("md");
    assert("md"@.len() == 2 && "md"@[0] == 'm' && "md"@[1] == 'd');
    reveal_strlit("mjs");
    assert("mjs"@.len() == 3 && "mjs"@[0] == 'm' && "mjs"@[1] == 'j' && "mjs"@[2] == 's');
    reveal_strlit("mov");
    assert("mov"@.len() == 3 && "mov"@[0] == 'm' && "mov"@[1] == 'o' && "mov"@[2] == 'v');
    reveal_strlit("mp3");
    assert("mp3"@.len() == 3 && "mp3"@[0] == 'm' && "mp3"@[1] == 'p' && "mp3"@[2] == '3');
    reveal_strlit("mp4");
    assert("mp4"@.len() == 3 && "mp4"@[0] == 'm' && "mp4"@[1] == 'p' && "mp4"@[2] == '4');
    reveal_strlit("mpeg");
    assert("mpeg"@.len() == 4 && "mpeg"@[0] == 'm' && "mpeg"@[1] == 'p' && "mpeg"@[2] == 'e' && "mpeg"@[3] == 'g');
    reveal_strlit("mpg");
    assert("mpg"@.len() == 3 && "mpg"@[0] == 'm' && "mpg"@[1] == 'p' && "mpg"@[2] == 'g');
    reveal_strlit("oga");
    assert("oga"@.len() == 3 && "oga"@[0] == 'o' && "oga"@[1] == 'g' && "oga"@[2] == 'a');
    reveal_strlit("ogg");
    assert("ogg"@.len() == 3 && "ogg"@[0] == 'o' && "ogg"@[1] == 'g' && "ogg"@[2] == 'g');
    reveal_strlit("ogv");
    assert("ogv"@.len() == 3 && "ogv"@[0] == 'o' && "ogv"@[1] == 'g' && "ogv"@[2] == 'v');
    reveal_strlit("otf");
    assert("otf"@.len() == 3 && "otf"@[0] == 'o' && "otf"@[1] == 't' && "otf"@[2] == 'f');
    reveal_strlit("pdf");
    assert("pdf"@.len() == 3 && "pdf"@[0] == 'p' && "pdf"@[1] == 'd' && "pdf"@[2] == 'f');
    reveal_strlit("png");
    assert("png"@.len() == 3 && "png"@[0] == 'p' && "png"@[1] == 'n' && "png"@[2] == 'g');
    reveal_strlit("rar");
    assert("rar"@.len() == 3 && "rar"@[0] == 'r' && "rar"@[1] == 'a' && "rar"@[2] == 'r');
    reveal_strlit("svg");
    assert("svg"@.len() == 3 && "svg"@[0] == 's' && "svg"@[1] == 'v' && "svg"@[2] == 'g');
    reveal_strlit("tar");
    assert("tar"@.len() == 3 && "tar"@[0] == 't' && "tar"@[1] == 'a' && "tar"@[2] == 'r');
    reveal_strlit("text");
    assert("text"@.len() == 4 && "text"@[0] == 't' && "text"@[1] == 'e' && "text"@[2] == 'x' && "text"@[3] == 't');
    reveal_strlit("tif");
    assert("tif"@.len() == 3 && "tif"@[0] == 't' && "tif"@[1] == 'i' && "tif"@[2] == 'f');
    reveal_strlit("tiff");
    assert("tiff"@.len() == 4 && "tiff"@[0] == 't' && "tiff"@[1] == 'i' && "tiff"@[2] == 'f' && "tiff"@[3] == 'f');
    reveal_strlit("tsv");
    assert("tsv"@.len() == 3 && "tsv"@[0] == 't' && "tsv"@[1] == 's' && "tsv"@[2] == 'v');
    reveal_strlit("ttf");
    assert("ttf"@.len() == 3 && "ttf"@[0] == 't' && "ttf"@[1] == 't' && "ttf"@[2] == 'f');
    reveal_strlit("txt");
    assert("txt"@.len() == 3 && "txt"@[0] == 't' && "txt"@[1] == 'x' && "txt"@[2] == 't');
    reveal_strlit("wasm");
    assert("wasm"@.len() == 4 && "wasm"@[0] == 'w' && "wasm"@[1] == 'a' && "wasm"@[2] == 's' && "wasm"@[3] == 'm');
    reveal_strlit("wav");
    assert("wav"@.len() == 3 && "wav"@[0] == 'w' && "wav"@[1] == 'a' && "wav"@[2] == 'v');
    reveal_strlit("webm");
    assert("webm"@.len() == 4 && "webm"@[0] == 'w' && "webm"@[1] == 'e' && "webm"@[2] == 'b' && "webm"@[3] == 'm');
    reveal_strlit("webp");
    assert("webp"@.len() == 4 && "webp"@[0] == 'w' && "webp"@[1] == 'e' && "webp"@[2] == 'b' && "webp"@[3] == 'p');
    reveal_strlit("woff");
    assert("woff"@.len() == 4 && "woff"@[0] == 'w' && "woff"@[1] == 'o' && "woff"@[2] == 'f' && "woff"@[3] == 'f');
    reveal_strlit("woff2");
    assert("woff2"@.len() == 5 && "woff2"@[0] == 'w' && "woff2"@[1] == 'o' && "woff2"@[2] == 'f' && "woff2"@[3] == 'f' && "woff2"@[4] == '2');
    reveal_strlit("xml");
    assert("xml"@.len() == 3 && "xml"@[0] == 'x' && "xml"@[1] == 'm' && "xml"@[2] == 'l');
    reveal_strlit("yaml");
    assert("yaml"@.len() == 4 && "yaml"@[0] == 'y' && "yaml"@[1] == 'a' && "yaml"@[2] == 'm' && "yaml"@[3] == 'l');
    reveal_strlit("yml");
    assert("yml"@.len() == 3 && "yml"@[0] == 'y' && "yml"@[1] == 'm' && "yml"@[2] == 'l');
    reveal_strlit("zip");
    assert("zip"@.len() == 3 && "zip"@[0] == 'z' && "zip"@[1] == 'i' && "zip"@[2] == 'p');
    reveal_strlit("");
}

/// A path whose extension is `css` is served as a stylesheet, whatever the rest of the path.
pub proof fn lemma_stylesheet_paths(text: Seq<char>)
    ensures
        content_type_for(extension_named(text, Some("css"@))) == "text/css; charset=utf-8"@,
{
    reveal_strlit("css");
    lemma_plain_extension_is_served_as_is(text, "css"@);
    lemma_content_type_table();
}

} // verus!
