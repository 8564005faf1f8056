//! Stable download URLs: `{downloadBase}/d{path}` with every path segment
//! percent-encoded, and the logical paths the crawler builds.

use vstd::prelude::*;
use vstd::utf8::{decode_utf8, encode_utf8, encode_utf8_decode_utf8};
use crate::models::{FileItem, SiteSettings};
use crate::text::{trim_trailing_slashes, trim_trailing_slashes_of, push_all, push_char, chars_of, string_from_chars};

verus! {

broadcast use vstd::string::group_string_axioms;

/// Bytes that percent-encoding leaves as they are: ASCII letters, digits and
/// `-`, `.`, `_`, `~`.
pub open spec fn is_unreserved(b: u8) -> bool {
    (48 <= b && b <= 57) || (65 <= b && b <= 90) || (97 <= b && b <= 122) || b == 45 || b == 46
        || b == 95 || b == 126
}

/// The uppercase hexadecimal digit of a value below sixteen.
pub open spec fn hex_upper(d: u8) -> char {
    if d < 10 {
        ((48 + d) as u8) as char
    } else {
        ((55 + d) as u8) as char
    }
}

/// Percent-encoding of a byte string: unreserved bytes stay, every other byte
/// becomes `%` and two uppercase hex digits.
pub open spec fn percent_encode_bytes(bytes: Seq<u8>) -> Seq<char>
    decreases bytes.len(),
{
    if bytes.len() == 0 {
        Seq::empty()
    } else {
        let b = bytes[0];
        let head = if is_unreserved(b) {
            seq![b as char]
        } else {
            seq!['%', hex_upper(b / 16), hex_upper(b % 16)]
        };
        head + percent_encode_bytes(bytes.drop_first())
    }
}

/// Percent-encoding of the UTF-8 bytes of a text.
pub open spec fn percent_encoded(s: Seq<char>) -> Seq<char> {
    percent_encode_bytes(encode_utf8(s))
}

/// `urlencoding::encode`: percent-encodes every byte of the UTF-8 text except
/// alphanumerics and `-`, `_`, `.`, `~`, with uppercase hex digits (as its
/// source shows).
#[verifier::external_body]
fn url_encode(segment: &str) -> (r: String)
    ensures
        r@ == percent_encoded(segment@),
{
    urlencoding::encode(segment).into_owned()
}

/// Splits `rest` at `'/'` and encodes each segment, `seg` being the part of the
/// current segment already read: the `split('/')`, encode, `join("/")` of a
/// path.
pub open spec fn encode_segments(seg: Seq<char>, rest: Seq<char>) -> Seq<char>
    decreases rest.len(),
{
    if rest.len() == 0 {
        percent_encoded(seg)
    } else if rest[0] == '/' {
        percent_encoded(seg) + seq!['/'] + encode_segments(Seq::empty(), rest.drop_first())
    } else {
        encode_segments(seg.push(rest[0]), rest.drop_first())
    }
}

/// A logical path with each `'/'`-separated segment percent-encoded and the
/// separators kept.
pub open spec fn encode_path(path: Seq<char>) -> Seq<char> {
    encode_segments(Seq::empty(), path)
}

/// Encodes each `'/'`-separated segment of a path, keeping the separators.
pub fn encode_path_segments(path: &str) -> (r: String)
    ensures
        r@ == encode_path(path@),
{
    let pv = chars_of(path);
    let n = pv.len();
    let mut out = String::new();
    let mut seg: Vec<char> = Vec::new();
    assert(pv@.skip(0) =~= pv@);
    assert(out@ + encode_segments(seg@, pv@.skip(0)) =~= encode_path(path@));
    for i in 0..n
        invariant
            n == pv@.len(),
            pv@ == path@,
            out@ + encode_segments(seg@, pv@.skip(i as int)) == encode_path(path@),
    {
        let c = pv[i];
        let ghost rest = pv@.skip(i as int);
        assert(rest[0] == c);
        assert(rest.drop_first() =~= pv@.skip(i + 1));
        if c == '/' {
            let seg_text = string_from_chars(&seg);
            let enc = url_encode(seg_text.as_str());
            push_all(&mut out, enc.as_str());
            push_char(&mut out, '/');
            seg = Vec::new();
            assert(out@ + encode_segments(seg@, pv@.skip(i + 1)) =~= encode_path(path@));
        } else {
            seg.push(c);
        }
    }
    let seg_text = string_from_chars(&seg);
    let enc = url_encode(seg_text.as_str());
    push_all(&mut out, enc.as_str());
    assert(pv@.skip(n as int) =~= Seq::<char>::empty());
    out
}

/// The path prefix that the user's base path adds (trailing slashes dropped).
pub open spec fn user_prefix(settings: SiteSettings) -> Seq<char> {
    match settings.user_base_path {
        Some(p) => trim_trailing_slashes(p@),
        None => Seq::empty(),
    }
}

/// The base of download URLs: the download base when one is set and not
/// empty, else the API base, without trailing slashes.
pub open spec fn download_base(settings: SiteSettings) -> Seq<char> {
    match settings.download_base_url {
        Some(b) => if b@.len() > 0 {
            trim_trailing_slashes(b@)
        } else {
            trim_trailing_slashes(settings.api_base_url@)
        },
        None => trim_trailing_slashes(settings.api_base_url@),
    }
}

/// The download URL of a file: `{base}/d{userBasePath}{path}`, each path segment
/// percent-encoded.
pub open spec fn download_url(file_path: Seq<char>, settings: SiteSettings) -> Seq<char> {
    download_base(settings) + "/d"@ + encode_path(user_prefix(settings) + file_path)
}

/// The stable URL that preheats `file`: the same file and settings always give
/// the same URL, with no query string.
pub fn resolve_download_url(file: &FileItem, settings: &SiteSettings) -> (r: String)
    ensures
        r@ == download_url(file.path@, *settings),
{
    proof {
        reveal_strlit("/d");
    }
    let base = match &settings.download_base_url {
        Some(b) => if !b.as_str().is_empty() {
            trim_trailing_slashes_of(b.as_str())
        } else {
            trim_trailing_slashes_of(settings.api_base_url.as_str())
        },
        None => trim_trailing_slashes_of(settings.api_base_url.as_str()),
    };
    let mut full_path = match &settings.user_base_path {
        Some(p) => trim_trailing_slashes_of(p.as_str()),
        None => String::new(),
    };
    push_all(&mut full_path, file.path.as_str());
    let encoded = encode_path_segments(full_path.as_str());
    let mut url = base;
    push_all(&mut url, "/d");
    push_all(&mut url, encoded.as_str());
    url
}

/// The download URL is the download base (the API base when none is set or it
/// is empty, trailing slashes dropped), `/d`, and the encoding of the user's
/// base path (trailing slashes dropped) followed by the file's path; the base
/// path is prepended whichever base is used.
pub proof fn lemma_download_url_parts(file_path: Seq<char>, settings: SiteSettings)
    ensures
        download_url(file_path, settings) == (match settings.download_base_url {
            Some(b) => if b@.len() > 0 {
                trim_trailing_slashes(b@)
            } else {
                trim_trailing_slashes(settings.api_base_url@)
            },
            None => trim_trailing_slashes(settings.api_base_url@),
        }) + "/d"@ + encode_path(
            (match settings.user_base_path {
                Some(p) => trim_trailing_slashes(p@),
                None => Seq::empty(),
            }) + file_path,
        ),
{
}

/// The download base only chooses the host part: two settings with the same
/// user base path give URLs whose parts after their bases are equal, whatever
/// their download and API bases.
pub proof fn lemma_download_base_only_changes_host(file_path: Seq<char>, a: SiteSettings, b: SiteSettings)
    requires
        a.user_base_path == b.user_base_path,
    ensures
        download_url(file_path, a).skip(download_base(a).len() as int) == download_url(
            file_path,
            b,
        ).skip(download_base(b).len() as int),
        download_url(file_path, a).take(download_base(a).len() as int) == download_base(a),
{
    let ta = "/d"@ + encode_path(user_prefix(a) + file_path);
    let tb = "/d"@ + encode_path(user_prefix(b) + file_path);
    assert(download_url(file_path, a) =~= download_base(a) + ta);
    assert(download_url(file_path, b) =~= download_base(b) + tb);
    assert((download_base(a) + ta).skip(download_base(a).len() as int) =~= ta);
    assert((download_base(b) + tb).skip(download_base(b).len() as int) =~= tb);
    assert((download_base(a) + ta).take(download_base(a).len() as int) =~= download_base(a));
}

/// The logical path of a directory entry: the parent path without trailing
/// slashes (nothing for the root `"/"`), a slash, and the entry's name.
pub open spec fn child_path(parent: Seq<char>, name: Seq<char>) -> Seq<char> {
    let clean_parent = if parent == "/"@ { Seq::empty() } else { trim_trailing_slashes(parent) };
    clean_parent + seq!['/'] + name
}

/// Joins a listed directory and an entry name into the entry's logical path.
pub fn join_child_path(parent: &str, name: &str) -> (r: String)
    ensures
        r@ == child_path(parent@, name@),
{
    proof {
        reveal_strlit("/");
    }
    let pv = chars_of(parent);
    let is_root = pv.len() == 1 && pv[0] == '/';
    let mut out = if is_root {
        assert(parent@ =~= "/"@);
        String::new()
    } else {
        assert(parent@ != "/"@);
        trim_trailing_slashes_of(parent)
    };
    push_char(&mut out, '/');
    push_all(&mut out, name);
    out
}

/// A base URL without its trailing slashes (`trim_end_matches('/')`).
pub fn normalize_base_url(base_url: &str) -> (r: String)
    ensures
        r@ == trim_trailing_slashes(base_url@),
{
    trim_trailing_slashes_of(base_url)
}

/// The number of `'/'` characters in a text.
pub open spec fn slash_count(s: Seq<char>) -> nat
    decreases s.len(),
{
    if s.len() == 0 {
        0
    } else {
        (if s[0] == '/' { 1nat } else { 0nat }) + slash_count(s.drop_first())
    }
}

proof fn lemma_slash_count_concat(a: Seq<char>, b: Seq<char>)
    ensures
        slash_count(a + b) == slash_count(a) + slash_count(b),
    decreases a.len(),
{
    if a.len() > 0 {
        assert((a + b).drop_first() =~= a.drop_first() + b);
        lemma_slash_count_concat(a.drop_first(), b);
    } else {
        assert(a + b =~= b);
    }
}

proof fn lemma_percent_encoding_has_no_slash(bytes: Seq<u8>)
    ensures
        slash_count(percent_encode_bytes(bytes)) == 0,
    decreases bytes.len(),
{
    reveal_with_fuel(slash_count, 4);
    if bytes.len() > 0 {
        let b = bytes[0];
        let head = if is_unreserved(b) {
            seq![b as char]
        } else {
            seq!['%', hex_upper(b / 16), hex_upper(b % 16)]
        };
        lemma_percent_encoding_has_no_slash(bytes.drop_first());
        lemma_slash_count_concat(head, percent_encode_bytes(bytes.drop_first()));
        if is_unreserved(b) {
            assert(b != 47);
            assert((b as char) != '/');
            assert(head.drop_first() =~= Seq::<char>::empty());
            assert(slash_count(head) == 0);
        } else {
            let h1 = hex_upper(b / 16);
            let h2 = hex_upper(b % 16);
            assert(h1 != '/');
            assert(h2 != '/');
            assert(head.drop_first() =~= seq![h1, h2]);
            assert(head.drop_first().drop_first() =~= seq![h2]);
            assert(head.drop_first().drop_first().drop_first() =~= Seq::<char>::empty());
            assert(slash_count(head) == 0);
        }
    }
}

proof fn lemma_encode_segments_slashes(seg: Seq<char>, rest: Seq<char>)
    ensures
        slash_count(encode_segments(seg, rest)) == slash_count(rest),
    decreases rest.len(),
{
    reveal_with_fuel(slash_count, 2);
    if rest.len() == 0 {
        lemma_percent_encoding_has_no_slash(encode_utf8(seg));
    } else if rest[0] == '/' {
        lemma_percent_encoding_has_no_slash(encode_utf8(seg));
        lemma_encode_segments_slashes(Seq::empty(), rest.drop_first());
        lemma_slash_count_concat(percent_encoded(seg), seq!['/']);
        lemma_slash_count_concat(
            percent_encoded(seg) + seq!['/'],
            encode_segments(Seq::empty(), rest.drop_first()),
        );
        assert(seq!['/'].drop_first() =~= Seq::<char>::empty());
    } else {
        lemma_encode_segments_slashes(seg.push(rest[0]), rest.drop_first());
    }
}

/// Encoding keeps the path's structure: the encoded path has exactly as many
/// `'/'` separators as the logical path, since no encoded segment contains one.
pub proof fn lemma_encoding_keeps_separators(path: Seq<char>)
    ensures
        slash_count(encode_path(path)) == slash_count(path),
{
    lemma_encode_segments_slashes(Seq::empty(), path);
}

/// Characters a percent-encoded path may hold: `'/'`, `'%'` and unreserved
/// ASCII characters (letters, digits, `-`, `.`, `_`, `~`).
pub open spec fn is_url_path_char(c: char) -> bool {
    c == '/' || c == '%' || (('0' <= c && c <= '9') || ('A' <= c && c <= 'Z') || ('a' <= c && c <= 'z')
        || c == '-' || c == '.' || c == '_' || c == '~')
}

/// Every character of a text satisfies `is_url_path_char`.
pub open spec fn all_url_path_chars(s: Seq<char>) -> bool {
    forall|i: int| 0 <= i < s.len() ==> is_url_path_char(#[trigger] s[i])
}

proof fn lemma_all_url_path_chars_concat(a: Seq<char>, b: Seq<char>)
    requires
        all_url_path_chars(a),
        all_url_path_chars(b),
    ensures
        all_url_path_chars(a + b),
{
    assert forall|i: int| 0 <= i < (a + b).len() implies is_url_path_char(#[trigger] (a + b)[i]) by {
        if i < a.len() {
            assert((a + b)[i] == a[i]);
        } else {
            assert((a + b)[i] == b[i - a.len()]);
        }
    }
}

proof fn lemma_percent_encoding_is_url_safe(bytes: Seq<u8>)
    ensures
        all_url_path_chars(percent_encode_bytes(bytes)),
    decreases bytes.len(),
{
    if bytes.len() > 0 {
        let b = bytes[0];
        let head = if is_unreserved(b) {
            seq![b as char]
        } else {
            seq!['%', hex_upper(b / 16), hex_upper(b % 16)]
        };
        lemma_percent_encoding_is_url_safe(bytes.drop_first());
        assert(all_url_path_chars(head)) by {
            if !is_unreserved(b) {
                assert(is_url_path_char(hex_upper(b / 16)));
                assert(is_url_path_char(hex_upper(b % 16)));
            }
        }
        lemma_all_url_path_chars_concat(head, percent_encode_bytes(bytes.drop_first()));
    }
}

proof fn lemma_encode_segments_url_safe(seg: Seq<char>, rest: Seq<char>)
    ensures
        all_url_path_chars(encode_segments(seg, rest)),
    decreases rest.len(),
{
    if rest.len() == 0 {
        lemma_percent_encoding_is_url_safe(encode_utf8(seg));
    } else if rest[0] == '/' {
        lemma_percent_encoding_is_url_safe(encode_utf8(seg));
        lemma_encode_segments_url_safe(Seq::empty(), rest.drop_first());
        assert(all_url_path_chars(seq!['/']));
        lemma_all_url_path_chars_concat(percent_encoded(seg), seq!['/']);
        lemma_all_url_path_chars_concat(
            percent_encoded(seg) + seq!['/'],
            encode_segments(Seq::empty(), rest.drop_first()),
        );
    } else {
        lemma_encode_segments_url_safe(seg.push(rest[0]), rest.drop_first());
    }
}

/// The encoded path is URL-safe: only `'/'`, `'%'` and unreserved ASCII
/// characters, so it never adds a query (`?`) or fragment (`#`) to the URL.
pub proof fn lemma_encoded_path_is_url_safe(path: Seq<char>)
    ensures
        all_url_path_chars(encode_path(path)),
        !encode_path(path).contains('?'),
        !encode_path(path).contains('#'),
{
    lemma_encode_segments_url_safe(Seq::empty(), path);
    let e = encode_path(path);
    if e.contains('?') {
        let i = choose|i: int| 0 <= i < e.len() && e[i] == '?';
        assert(is_url_path_char(e[i]));
    }
    if e.contains('#') {
        let i = choose|i: int| 0 <= i < e.len() && e[i] == '#';
        assert(is_url_path_char(e[i]));
    }
}

/// The download URL of a file depends only on its path, the download base and
/// the user's base path: changing other settings never changes it.
pub proof fn lemma_download_url_stable(path: Seq<char>, a: SiteSettings, b: SiteSettings)
    requires
        download_base(a) == download_base(b),
        user_prefix(a) == user_prefix(b),
    ensures
        download_url(path, a) == download_url(path, b),
{
}

/// The value of a hexadecimal digit (either case).
pub open spec fn hex_value(c: char) -> Option<nat> {
    if '0' <= c && c <= '9' {
        Some((c as nat - 48) as nat)
    } else if 'A' <= c && c <= 'F' {
        Some((c as nat - 55) as nat)
    } else if 'a' <= c && c <= 'f' {
        Some((c as nat - 87) as nat)
    } else {
        None
    }
}

/// Percent-decoding: `%` and two hex digits give the byte they name; any other
/// character gives its own (low) byte.
pub open spec fn percent_decode(s: Seq<char>) -> Seq<u8>
    decreases s.len(),
{
    if s.len() == 0 {
        Seq::empty()
    } else if s[0] == '%' && s.len() >= 3 && hex_value(s[1]) is Some && hex_value(s[2]) is Some {
        seq![(hex_value(s[1])->0 * 16 + hex_value(s[2])->0) as u8] + percent_decode(s.skip(3))
    } else {
        seq![s[0] as u8] + percent_decode(s.drop_first())
    }
}

proof fn lemma_hex_upper_value(d: u8)
    requires
        d < 16,
    ensures
        hex_value(hex_upper(d)) == Some(d as nat),
        hex_upper(d) != '%',
{
}

proof fn lemma_percent_decode_encode(bytes: Seq<u8>)
    ensures
        percent_decode(percent_encode_bytes(bytes)) == bytes,
    decreases bytes.len(),
{
    if bytes.len() > 0 {
        let b = bytes[0];
        let rest = percent_encode_bytes(bytes.drop_first());
        lemma_percent_decode_encode(bytes.drop_first());
        if is_unreserved(b) {
            let e = seq![b as char] + rest;
            assert(e[0] == b as char);
            assert((b as char) != '%');
            assert(e.drop_first() =~= rest);
            assert((b as char) as u8 == b);
            assert(percent_decode(e) =~= seq![b] + bytes.drop_first());
        } else {
            let h = hex_upper(b / 16);
            let l = hex_upper(b % 16);
            lemma_hex_upper_value(b / 16);
            lemma_hex_upper_value(b % 16);
            let e = seq!['%', h, l] + rest;
            assert(e[0] == '%' && e[1] == h && e[2] == l);
            assert(e.skip(3) =~= rest);
            assert(((b / 16) as nat * 16 + (b % 16) as nat) as u8 == b);
            assert(percent_decode(e) =~= seq![b] + bytes.drop_first());
        }
        assert(seq![b] + bytes.drop_first() =~= bytes);
    } else {
        assert(percent_decode(percent_encode_bytes(bytes)) =~= bytes);
    }
}

/// Every encoded path segment decodes back to the original segment: its
/// percent-decoded bytes are the segment's UTF-8 encoding, which decodes to
/// the segment.
pub proof fn lemma_segment_round_trip(seg: Seq<char>)
    ensures
        percent_decode(percent_encoded(seg)) == encode_utf8(seg),
        decode_utf8(percent_decode(percent_encoded(seg))) == seg,
{
    lemma_percent_decode_encode(encode_utf8(seg));
    encode_utf8_decode_utf8(seg);
}

/// Splits `rest` at `'/'`, `seg` being the part of the current segment
/// already read: the segments of `split('/')`.
pub open spec fn segments_from(seg: Seq<char>, rest: Seq<char>) -> Seq<Seq<char>>
    decreases rest.len(),
{
    if rest.len() == 0 {
        seq![seg]
    } else if rest[0] == '/' {
        seq![seg] + segments_from(Seq::empty(), rest.drop_first())
    } else {
        segments_from(seg.push(rest[0]), rest.drop_first())
    }
}

/// The `'/'`-separated segments of a path (`split('/')`).
pub open spec fn path_segments(path: Seq<char>) -> Seq<Seq<char>> {
    segments_from(Seq::empty(), path)
}

proof fn lemma_segments_skip_plain(acc: Seq<char>, s: Seq<char>, t: Seq<char>)
    requires
        slash_count(s) == 0,
    ensures
        segments_from(acc, s + t) == segments_from(acc + s, t),
    decreases s.len(),
{
    if s.len() == 0 {
        assert(s + t =~= t);
        assert(acc + s =~= acc);
    } else {
        assert(s[0] != '/');
        assert((s + t)[0] == s[0]);
        assert((s + t).drop_first() =~= s.drop_first() + t);
        assert(acc.push(s[0]) + s.drop_first() =~= acc + s);
        lemma_segments_skip_plain(acc.push(s[0]), s.drop_first(), t);
    }
}

proof fn lemma_segments_of_encoded(seg: Seq<char>, rest: Seq<char>)
    ensures
        path_segments(encode_segments(seg, rest)) == segments_from(seg, rest).map_values(
            |x: Seq<char>| percent_encoded(x),
        ),
    decreases rest.len(),
{
    let e = percent_encoded(seg);
    lemma_percent_encoding_has_no_slash(encode_utf8(seg));
    if rest.len() == 0 {
        lemma_segments_skip_plain(Seq::empty(), e, Seq::empty());
        assert(e + Seq::<char>::empty() =~= e);
        assert(Seq::<char>::empty() + e =~= e);
        assert(seq![seg].map_values(|x: Seq<char>| percent_encoded(x)) =~= seq![e]);
    } else if rest[0] == '/' {
        let tail = encode_segments(Seq::empty(), rest.drop_first());
        lemma_segments_of_encoded(Seq::empty(), rest.drop_first());
        assert(e + seq!['/'] + tail =~= e + (seq!['/'] + tail));
        lemma_segments_skip_plain(Seq::empty(), e, seq!['/'] + tail);
        assert(Seq::<char>::empty() + e =~= e);
        assert((seq!['/'] + tail)[0] == '/');
        assert((seq!['/'] + tail).drop_first() =~= tail);
        let rest_segs = segments_from(Seq::empty(), rest.drop_first());
        assert((seq![seg] + rest_segs).map_values(|x: Seq<char>| percent_encoded(x)) =~= seq![e]
            + rest_segs.map_values(|x: Seq<char>| percent_encoded(x)));
    } else {
        lemma_segments_of_encoded(seg.push(rest[0]), rest.drop_first());
    }
}

/// Encoding a path keeps its segments: the encoded path has one segment per
/// segment of the path, each the percent-encoding of the matching segment, and
/// each decodes back to it.
pub proof fn lemma_encoded_segments_decode(path: Seq<char>)
    ensures
        path_segments(encode_path(path)).len() == path_segments(path).len(),
        forall|i: int|
            0 <= i < path_segments(path).len() ==> #[trigger] path_segments(encode_path(path))[i]
                == percent_encoded(path_segments(path)[i]),
        forall|i: int|
            0 <= i < path_segments(path).len() ==> decode_utf8(
                percent_decode(#[trigger] path_segments(encode_path(path))[i]),
            ) == path_segments(path)[i],
{
    lemma_segments_of_encoded(Seq::empty(), path);
    assert forall|i: int| 0 <= i < path_segments(path).len() implies decode_utf8(
        percent_decode(#[trigger] path_segments(encode_path(path))[i]),
    ) == path_segments(path)[i] by {
        lemma_segment_round_trip(path_segments(path)[i]);
    }
}

/// The download URL keeps the file's path: after the base and `/d`, its
/// segments decode one by one to the segments of the user's base path followed
/// by the file's path, and only URL-safe characters appear.
pub proof fn lemma_download_url_decodes(file_path: Seq<char>, settings: SiteSettings)
    ensures
        download_url(file_path, settings) == download_base(settings) + "/d"@ + encode_path(
            user_prefix(settings) + file_path,
        ),
        all_url_path_chars(encode_path(user_prefix(settings) + file_path)),
        path_segments(encode_path(user_prefix(settings) + file_path)).len() == path_segments(
            user_prefix(settings) + file_path,
        ).len(),
        forall|i: int|
            0 <= i < path_segments(user_prefix(settings) + file_path).len() ==> decode_utf8(
                percent_decode(
                    #[trigger] path_segments(encode_path(user_prefix(settings) + file_path))[i],
                ),
            ) == path_segments(user_prefix(settings) + file_path)[i],
{
    lemma_encoded_segments_decode(user_prefix(settings) + file_path);
    lemma_encoded_path_is_url_safe(user_prefix(settings) + file_path);
}

/// The host of a URL as `url::Url` parses it, or `None` when it does not parse
/// or has no host.
pub uninterp spec fn url_host(url: Seq<char>) -> Option<Seq<char>>;

/// `reqwest::Url::parse` followed by `host_str`.
#[verifier::external_body]
pub(crate) fn host_of_url(url: &str) -> (r: Option<String>)
    ensures
        r matches Some(h) ==> url_host(url@) == Some(h@),
        r is None ==> url_host(url@) is None,
{
    match reqwest::Url::parse(url) {
        Ok(u) => match u.host_str() {
            Some(h) => Some(h.to_string()),
            None => None,
        },
        Err(_) => None,
    }
}

/// The message `url::Url::parse` fails with on a text, or `None` when the text
/// parses.
pub uninterp spec fn url_parse_error(url: Seq<char>) -> Option<Seq<char>>;

/// `reqwest::Url::parse`: `Ok` when the text parses, else the parser's
/// message.
#[verifier::external_body]
pub(crate) fn check_url(url: &str) -> (r: Result<(), String>)
    ensures
        r is Ok <==> url_parse_error(url@) is None,
        r matches Err(m) ==> url_parse_error(url@) == Some(m@),
{
    match reqwest::Url::parse(url) {
        Ok(_) => Ok(()),
        Err(e) => Err(e.to_string()),
    }
}

} // verus!
