//! The text the server sends: HTML pages around an image or a URL, headers, and the
//! URL that regenerates a rig's image.
use vstd::prelude::*;
use vstd::string::StringExecFns;
use vstd::utf8::encode_utf8;
use base64::Engine;

use crate::clock::{format_sas_time, spec_format_sas_time, utc_now, Instant, MAX_TIMESTAMP};
use crate::errors::ServeError;
use crate::repository::{image_format_name, RigResultFormat, RigResultImageFormat};
use crate::sas::{compute_signature_parts_at, sas_signature};
use crate::text::{decimal, decimal_text, has_prefix, has_suffix, strip_suffix};

verus! {

/// The header that tells a device when to call again.
pub const REFRESH_RATE_HEADER: &'static str = "refresh-rate";

/// The page header that makes a browser reload after `refresh` seconds; nothing for 0.
pub open spec fn meta_refresh(refresh: u32) -> Seq<char> {
    if refresh > 0 {
        "<meta http-equiv=\"refresh\" content=\""@ + decimal(refresh as nat) + "\">"@
    } else {
        Seq::empty()
    }
}

fn meta_refresh_text(refresh: u32) -> (s: String)
    ensures
        s@ == meta_refresh(refresh),
{
    if refresh > 0 {
        let mut s = String::from_str("<meta http-equiv=\"refresh\" content=\"");
        s.append(decimal_text(refresh as u64).as_str());
        s.append("\">");
        s
    } else {
        String::new()
    }
}

/// The HTML page that shows the image at a URL, reloading after `refresh` seconds.
pub open spec fn spec_url_page(url: Seq<char>, refresh: u32) -> Seq<char> {
    "<html><head>"@ + meta_refresh(refresh) + "</head><body style=\"margin:0px\"><img src=\""@ + url
        + "\"/></body></html>"@
}

/// The HTML page that shows the image at a URL, reloading after `refresh` seconds.
pub fn url_page(url: &str, refresh: u32) -> (s: String)
    ensures
        s@ == spec_url_page(url@, refresh),
{
    let mut s = String::from_str("<html><head>");
    s.append(meta_refresh_text(refresh).as_str());
    s.append("</head><body style=\"margin:0px\"><img src=\"");
    s.append(url);
    s.append("\"/></body></html>");
    s
}

/// The character of standard base64 for a six-bit value.
pub open spec fn base64_char(v: int) -> char {
    if v < 26 {
        (v + 65) as char
    } else if v < 52 {
        (v - 26 + 97) as char
    } else if v < 62 {
        (v - 52 + 48) as char
    } else if v == 62 {
        '+'
    } else {
        '/'
    }
}

/// Standard base64 with padding: each three bytes become four characters; a last
/// group of one or two bytes is padded with `=`.
pub open spec fn base64_standard(bytes: Seq<u8>) -> Seq<char>
    decreases bytes.len(),
{
    if bytes.len() == 0 {
        Seq::empty()
    } else {
        let b0 = bytes[0] as int;
        let b1 = if bytes.len() > 1 {
            bytes[1] as int
        } else {
            0
        };
        let b2 = if bytes.len() > 2 {
            bytes[2] as int
        } else {
            0
        };
        if bytes.len() == 1 {
            seq![base64_char(b0 / 4), base64_char((b0 % 4) * 16), '=', '=']
        } else if bytes.len() == 2 {
            seq![
                base64_char(b0 / 4),
                base64_char((b0 % 4) * 16 + b1 / 16),
                base64_char((b1 % 16) * 4),
                '=',
            ]
        } else {
            seq![
                base64_char(b0 / 4),
                base64_char((b0 % 4) * 16 + b1 / 16),
                base64_char((b1 % 16) * 4 + b2 / 64),
                base64_char(b2 % 64),
            ] + base64_standard(bytes.subrange(3, bytes.len() as int))
        }
    }
}

/// The bytes whose standard base64 is the text, or nothing where no bytes encode to
/// it (standard base64 is one to one: see `lemma_base64_standard_injective`).
pub open spec fn base64_decoding(text: Seq<char>) -> Option<Seq<u8>> {
    if exists|bytes: Seq<u8>| base64_standard(bytes) == text {
        Some(choose|bytes: Seq<u8>| base64_standard(bytes) == text)
    } else {
        None
    }
}

/// Distinct six-bit values have distinct characters, none of them the padding `=`.
proof fn lemma_base64_char_injective(v: int, w: int)
    requires
        0 <= v < 64,
        0 <= w < 64,
    ensures
        base64_char(v) != '=',
        base64_char(v) == base64_char(w) ==> v == w,
{
}

/// The first four characters of standard base64 determine the first three bytes.
proof fn lemma_base64_group_injective(a0: int, a1: int, a2: int, b0: int, b1: int, b2: int)
    requires
        0 <= a0 < 256, 0 <= a1 < 256, 0 <= a2 < 256,
        0 <= b0 < 256, 0 <= b1 < 256, 0 <= b2 < 256,
        a0 / 4 == b0 / 4,
        (a0 % 4) * 16 + a1 / 16 == (b0 % 4) * 16 + b1 / 16,
        (a1 % 16) * 4 + a2 / 64 == (b1 % 16) * 4 + b2 / 64,
        a2 % 64 == b2 % 64,
    ensures
        a0 == b0,
        a1 == b1,
        a2 == b2,
{
}

/// Standard base64 is one to one: two byte sequences with the same text are equal.
pub proof fn lemma_base64_standard_injective(a: Seq<u8>, b: Seq<u8>)
    requires
        base64_standard(a) == base64_standard(b),
    ensures
        a == b,
    decreases a.len(),
{
    let ea = base64_standard(a);
    let eb = base64_standard(b);
    if a.len() == 0 || b.len() == 0 {
        assert(a.len() == 0 && b.len() == 0) by {
            if a.len() != 0 {
                assert(ea.len() >= 4);
            }
            if b.len() != 0 {
                assert(eb.len() >= 4);
            }
        }
        assert(a =~= b);
    } else {
        let a0 = a[0] as int;
        let a1 = if a.len() > 1 { a[1] as int } else { 0 };
        let a2 = if a.len() > 2 { a[2] as int } else { 0 };
        let b0 = b[0] as int;
        let b1 = if b.len() > 1 { b[1] as int } else { 0 };
        let b2 = if b.len() > 2 { b[2] as int } else { 0 };
        lemma_base64_char_injective(a0 / 4, b0 / 4);
        lemma_base64_char_injective((a0 % 4) * 16 + a1 / 16, (b0 % 4) * 16 + b1 / 16);
        lemma_base64_char_injective((a1 % 16) * 4 + a2 / 64, (b1 % 16) * 4 + b2 / 64);
        lemma_base64_char_injective(a2 % 64, b2 % 64);
        assert(ea[0] == eb[0] && ea[1] == eb[1] && ea[2] == eb[2] && ea[3] == eb[3]);
        assert((a.len() == 1) == (b.len() == 1));
        assert((a.len() == 2) == (b.len() == 2));
        lemma_base64_group_injective(a0, a1, a2, b0, b1, b2);
        if a.len() >= 3 {
            let ta = a.subrange(3, a.len() as int);
            let tb = b.subrange(3, b.len() as int);
            assert(ea.subrange(4, ea.len() as int) =~= base64_standard(ta));
            assert(eb.subrange(4, eb.len() as int) =~= base64_standard(tb));
            lemma_base64_standard_injective(ta, tb);
            assert(a =~= b) by {
                assert(a =~= seq![a[0], a[1], a[2]] + ta);
                assert(b =~= seq![b[0], b[1], b[2]] + tb);
            }
        } else {
            assert(a =~= b);
        }
    }
}

/// Encodes bytes with base64's standard engine (`BASE64_STANDARD.encode`): the
/// standard alphabet with `=` padding, as its documentation describes.
#[verifier::external_body]
fn encode_base64(bytes: &[u8]) -> (s: String)
    ensures
        s@ == base64_standard(bytes@),
{
    base64::engine::general_purpose::STANDARD.encode(bytes)
}

/// The HTML page that shows an image of the given width inline, as a PNG data URL
/// (whatever its encoding), reloading after `refresh` seconds.
pub open spec fn spec_image_page(width: u32, image_bytes: Seq<u8>, refresh: u32) -> Seq<char> {
    "<html><head>"@ + meta_refresh(refresh) + "<meta name=\"viewport\" content=\"width="@ + decimal(
        width as nat,
    ) + "\"></head><body style=\"margin:0px; width="@ + decimal(width as nat)
        + "px\"><img src=\"data:image/png;base64,"@ + base64_standard(image_bytes)
        + "\"/></body></html>"@
}

/// Both pages reload alike: where `refresh` is positive, the image page and the URL
/// page each begin with `<html><head>` and then the refresh header
/// `<meta http-equiv="refresh" content="<refresh>">`; where it is 0, neither has one
/// (the image page's head goes straight to its viewport, the URL page's head is empty).
pub proof fn lemma_pages_reload_after_refresh(width: u32, image_bytes: Seq<u8>, url: Seq<char>, refresh: u32)
    ensures
        refresh > 0 ==> has_prefix(
            spec_image_page(width, image_bytes, refresh),
            "<html><head><meta http-equiv=\"refresh\" content=\""@ + decimal(refresh as nat) + "\">"@,
        ) && has_prefix(
            spec_url_page(url, refresh),
            "<html><head><meta http-equiv=\"refresh\" content=\""@ + decimal(refresh as nat) + "\">"@,
        ),
        refresh == 0 ==> has_prefix(
            spec_image_page(width, image_bytes, refresh),
            "<html><head><meta name=\"viewport\""@,
        ) && has_prefix(spec_url_page(url, refresh), "<html><head></head>"@),
{
    let page = spec_image_page(width, image_bytes, refresh);
    let other = spec_url_page(url, refresh);
    reveal_strlit("<html><head>");
    reveal_strlit("<meta http-equiv=\"refresh\" content=\"");
    reveal_strlit("\">");
    reveal_strlit("<html><head><meta http-equiv=\"refresh\" content=\"");
    reveal_strlit("<meta name=\"viewport\" content=\"width=");
    reveal_strlit("<html><head><meta name=\"viewport\"");
    reveal_strlit("</head><body style=\"margin:0px\"><img src=\"");
    reveal_strlit("<html><head></head>");
    if refresh > 0 {
        let head = "<html><head><meta http-equiv=\"refresh\" content=\""@ + decimal(refresh as nat)
            + "\">"@;
        assert(head =~= "<html><head>"@ + meta_refresh(refresh));
        assert(page.subrange(0, head.len() as int) =~= head);
        assert(other.subrange(0, head.len() as int) =~= head);
    } else {
        let head = "<html><head><meta name=\"viewport\""@;
        assert(page.subrange(0, head.len() as int) =~= head);
        assert(other.subrange(0, 19) =~= "<html><head></head>"@);
    }
}

/// The HTML page that shows an image inline.
pub fn image_page(width: u32, image_bytes: &[u8], refresh: u32) -> (s: String)
    ensures
        s@ == spec_image_page(width, image_bytes@, refresh),
{
    let w = decimal_text(width as u64);
    let mut s = String::from_str("<html><head>");
    s.append(meta_refresh_text(refresh).as_str());
    s.append("<meta name=\"viewport\" content=\"width=");
    s.append(w.as_str());
    s.append("\"></head><body style=\"margin:0px; width=");
    s.append(w.as_str());
    s.append("px\"><img src=\"data:image/png;base64,");
    s.append(encode_base64(image_bytes).as_str());
    s.append("\"/></body></html>");
    s
}

/// The content type of an encoded image.
pub fn image_content_type(format: RigResultImageFormat) -> (s: &'static str)
    ensures
        s@ == match format {
            RigResultImageFormat::Jpeg => "image/jpeg"@,
            RigResultImageFormat::Png => "image/png"@,
            RigResultImageFormat::Bmp1Bit => "image/bmp"@,
        },
{
    match format {
        RigResultImageFormat::Jpeg => "image/jpeg",
        RigResultImageFormat::Png => "image/png",
        RigResultImageFormat::Bmp1Bit => "image/bmp",
    }
}

/// Whether the device already holds this image: the entity tag it sent
/// (`if-none-match`) is the tag of the image.
pub fn is_not_modified(if_none_match: Option<&str>, etag: &str) -> (b: bool)
    ensures
        b == (if_none_match matches Some(t) && t@ == etag@),
{
    match if_none_match {
        Some(t) => String::from_str(t) == String::from_str(etag),
        None => false,
    }
}

/// Bytes that `application/x-www-form-urlencoded` serialization leaves as they are:
/// `*`, `-`, `.`, `_`, digits and ASCII letters.
pub open spec fn form_unchanged(b: u8) -> bool {
    b == 42 || b == 45 || b == 46 || (48 <= b <= 57) || (65 <= b <= 90) || b == 95 || (97 <= b
        <= 122)
}

/// An uppercase hexadecimal digit.
pub open spec fn upper_hex_char(v: int) -> char {
    if v < 10 {
        (v + 48) as char
    } else {
        (v - 10 + 65) as char
    }
}

/// The serialization of one byte: itself where unchanged, `+` for a space, else `%XX`.
pub open spec fn form_byte(b: u8) -> Seq<char> {
    if form_unchanged(b) {
        seq![b as char]
    } else if b == 32 {
        seq!['+']
    } else {
        seq!['%', upper_hex_char(b as int / 16), upper_hex_char(b as int % 16)]
    }
}

/// The serialization of bytes, byte by byte.
pub open spec fn form_bytes(bytes: Seq<u8>) -> Seq<char>
    decreases bytes.len(),
{
    if bytes.len() == 0 {
        Seq::empty()
    } else {
        form_byte(bytes[0]) + form_bytes(bytes.subrange(1, bytes.len() as int))
    }
}

/// The `application/x-www-form-urlencoded` serialization of text, over its UTF-8 bytes.
pub open spec fn form_urlencoded(s: Seq<char>) -> Seq<char> {
    form_bytes(encode_utf8(s))
}

/// Serializes text with `url::form_urlencoded::byte_serialize` over its UTF-8 bytes,
/// which, as its source shows, keeps `*-._`, digits and ASCII letters, turns a space into
/// `+` and every other byte into `%` and two uppercase hexadecimal digits.
#[verifier::external_body]
fn form_urlencode(s: &str) -> (r: String)
    ensures
        r@ == form_urlencoded(s@),
{
    url::form_urlencoded::byte_serialize(s.as_bytes()).collect()
}

/// One pair of a query string: the serialized name, `=`, the serialized value.
pub open spec fn pair_text(pair: (Seq<char>, Seq<char>)) -> Seq<char> {
    form_urlencoded(pair.0) + seq!['='] + form_urlencoded(pair.1)
}

/// A query string: its pairs in order, separated by `&`.
pub open spec fn form_serialized(pairs: Seq<(Seq<char>, Seq<char>)>) -> Seq<char>
    decreases pairs.len(),
{
    if pairs.len() == 0 {
        Seq::empty()
    } else if pairs.len() == 1 {
        pair_text(pairs[0])
    } else {
        form_serialized(pairs.drop_last()) + seq!['&'] + pair_text(pairs.last())
    }
}

/// The text of each name and value.
pub open spec fn pairs_view(pairs: Seq<(String, String)>) -> Seq<(Seq<char>, Seq<char>)> {
    Seq::new(pairs.len(), |i: int| (pairs[i].0@, pairs[i].1@))
}

/// The query string of the pairs, as `url::form_urlencoded::Serializer` writes it.
pub fn serialize_form(pairs: &Vec<(String, String)>) -> (s: String)
    ensures
        s@ == form_serialized(pairs_view(pairs@)),
{
    let ghost all = pairs_view(pairs@);
    let mut s = String::new();
    let mut k: usize = 0;
    while k < pairs.len()
        invariant
            k <= pairs@.len(),
            all == pairs_view(pairs@),
            s@ == form_serialized(all.take(k as int)),
        decreases pairs@.len() - k,
    {
        if k > 0 {
            crate::text::push_char(&mut s, '&');
        }
        s.append(form_urlencode(pairs[k].0.as_str()).as_str());
        crate::text::push_char(&mut s, '=');
        s.append(form_urlencode(pairs[k].1.as_str()).as_str());
        proof {
            assert(all.take(k + 1).drop_last() =~= all.take(k as int));
            assert(all.take(k + 1).last() == all[k as int]);
        }
        k = k + 1;
    }
    proof {
        assert(all.take(pairs@.len() as int) =~= all);
    }
    s
}

/// The path of the TRMNL display endpoint.
pub const TRMNL_DISPLAY_PATH: &'static str = "/trmnl/api/display";

/// The path under which devices are served.
pub const API_GET_DEVICE_PATH: &'static str = "/devices";

/// How long, in seconds, a signature in a generated URL stays valid.
pub const GENERATED_URL_SIGNATURE_SECONDS: i64 = 60;

/// The path of a generated URL: a TRMNL display request is sent to its device's
/// endpoint instead; any other path is kept.
pub open spec fn rig_url_path(path: Seq<char>, device: Option<Seq<char>>) -> Seq<char> {
    if has_suffix(path, TRMNL_DISPLAY_PATH@) {
        path.subrange(0, path.len() - TRMNL_DISPLAY_PATH@.len()) + API_GET_DEVICE_PATH@ + seq!['/']
            + match device {
            Some(d) => d,
            None => Seq::empty(),
        }
    } else {
        path
    }
}

/// How a generated URL authorizes itself: by a signature under the server's secret
/// that expires at `expiry_secs`, else by the caller's API key, else not at all.
pub open spec fn url_auth_pairs(secret: Option<Seq<u8>>, api_key: Option<Seq<char>>, expiry_secs: int) -> Seq<
    (Seq<char>, Seq<char>),
> {
    match secret {
        Some(key) => seq![
            ("sig"@, sas_signature(key, spec_format_sas_time(expiry_secs))),
            ("exp"@, spec_format_sas_time(expiry_secs)),
        ],
        None => match api_key {
            Some(k) => seq![("authorization"@, k)],
            None => Seq::empty(),
        },
    }
}

/// The query of a generated URL: an image in the given encoding and rotation, for the
/// device if any, authorized, and stamped with the time (which makes a TRMNL device
/// reload the image).
pub open spec fn rig_url_pairs(
    image_format: RigResultImageFormat,
    rotate: u16,
    device: Option<Seq<char>>,
    auth: Seq<(Seq<char>, Seq<char>)>,
    timestamp: Seq<char>,
) -> Seq<(Seq<char>, Seq<char>)> {
    seq![
        ("format"@, crate::repository::format_name(crate::repository::RigResultFormat::Image)),
        ("image_format"@, image_format_name(image_format)),
        ("rotate"@, decimal(rotate as nat)),
    ] + match device {
        Some(d) => seq![("device"@, d)],
        None => Seq::empty(),
    } + auth + seq![("t"@, timestamp)]
}

/// Where a request arrived: its scheme, host and path.
pub struct RequestTarget {
    pub scheme: String,
    pub host: String,
    pub path: String,
}

/// The text of the URL that regenerates a rig's image, made at `now`.
pub open spec fn spec_rig_url_text(
    target: RequestTarget,
    device: Option<Seq<char>>,
    image_format: RigResultImageFormat,
    rotate: u16,
    secret: Option<Seq<u8>>,
    api_key: Option<Seq<char>>,
    now: Instant,
) -> Seq<char> {
    target.scheme@ + "://"@ + target.host@ + rig_url_path(target.path@, device) + seq!['?']
        + form_serialized(
        rig_url_pairs(
            image_format,
            rotate,
            device,
            url_auth_pairs(secret, api_key, now.secs + GENERATED_URL_SIGNATURE_SECONDS),
            spec_format_sas_time(now.secs as int),
        ),
    )
}

/// Joining two nonempty lists of pairs joins their query strings with `&`.
proof fn lemma_form_serialized_concat(a: Seq<(Seq<char>, Seq<char>)>, b: Seq<(Seq<char>, Seq<char>)>)
    requires
        a.len() > 0,
        b.len() > 0,
    ensures
        form_serialized(a + b) == form_serialized(a) + seq!['&'] + form_serialized(b),
    decreases b.len(),
{
    assert((a + b).drop_last() =~= if b.len() == 1 {
        a
    } else {
        a + b.drop_last()
    });
    assert((a + b).last() == b.last());
    if b.len() > 1 {
        lemma_form_serialized_concat(a, b.drop_last());
        assert(form_serialized(b) == form_serialized(b.drop_last()) + seq!['&'] + pair_text(b.last()));
    }
    assert(form_serialized(a + b) =~= form_serialized(a) + seq!['&'] + form_serialized(b));
}

/// The query string of four pairs.
proof fn lemma_form_serialized_four(
    p0: (Seq<char>, Seq<char>),
    p1: (Seq<char>, Seq<char>),
    p2: (Seq<char>, Seq<char>),
    p3: (Seq<char>, Seq<char>),
)
    ensures
        form_serialized(seq![p0, p1, p2, p3]) == pair_text(p0) + seq!['&'] + pair_text(p1) + seq!['&']
            + pair_text(p2) + seq!['&'] + pair_text(p3),
{
    let s1 = seq![p0];
    let s2 = seq![p0, p1];
    let s3 = seq![p0, p1, p2];
    let s4 = seq![p0, p1, p2, p3];
    assert(s4.drop_last() =~= s3);
    assert(s3.drop_last() =~= s2);
    assert(s2.drop_last() =~= s1);
    assert(form_serialized(s1) == pair_text(p0));
    assert(form_serialized(s2) == form_serialized(s1) + seq!['&'] + pair_text(p1));
    assert(form_serialized(s3) == form_serialized(s2) + seq!['&'] + pair_text(p2));
    assert(form_serialized(s4) == form_serialized(s3) + seq!['&'] + pair_text(p3));
    assert(form_serialized(s4) =~= pair_text(p0) + seq!['&'] + pair_text(p1) + seq!['&']
        + pair_text(p2) + seq!['&'] + pair_text(p3));
}

/// A URL generated for a device names it: whatever authorizes the URL (a signature, an
/// API key or nothing), its query starts with the format, the image format, the
/// rotation and then the pair `device=<device>`, followed by more pairs.
pub proof fn lemma_rig_url_names_its_device(
    target: RequestTarget,
    device: Seq<char>,
    image_format: RigResultImageFormat,
    rotate: u16,
    secret: Option<Seq<u8>>,
    api_key: Option<Seq<char>>,
    now: Instant,
)
    ensures
        has_prefix(
            spec_rig_url_text(target, Some(device), image_format, rotate, secret, api_key, now),
            target.scheme@ + "://"@ + target.host@ + rig_url_path(target.path@, Some(device)) + seq!['?']
                + pair_text(("format"@, crate::repository::format_name(crate::repository::RigResultFormat::Image)))
                + seq!['&'] + pair_text(("image_format"@, image_format_name(image_format))) + seq!['&']
                + pair_text(("rotate"@, decimal(rotate as nat))) + seq!['&'] + pair_text(("device"@, device))
                + seq!['&'],
        ),
{
    let p0 = ("format"@, crate::repository::format_name(crate::repository::RigResultFormat::Image));
    let p1 = ("image_format"@, image_format_name(image_format));
    let p2 = ("rotate"@, decimal(rotate as nat));
    let p3 = ("device"@, device);
    let four = seq![p0, p1, p2, p3];
    let rest = url_auth_pairs(secret, api_key, now.secs + GENERATED_URL_SIGNATURE_SECONDS) + seq![
        ("t"@, spec_format_sas_time(now.secs as int)),
    ];
    let pairs = rig_url_pairs(
        image_format,
        rotate,
        Some(device),
        url_auth_pairs(secret, api_key, now.secs + GENERATED_URL_SIGNATURE_SECONDS),
        spec_format_sas_time(now.secs as int),
    );
    assert(pairs =~= four + rest);
    lemma_form_serialized_concat(four, rest);
    lemma_form_serialized_four(p0, p1, p2, p3);
    let q = pair_text(p0) + seq!['&'] + pair_text(p1) + seq!['&'] + pair_text(p2) + seq!['&'] + pair_text(p3);
    let base = target.scheme@ + "://"@ + target.host@ + rig_url_path(target.path@, Some(device)) + seq!['?'];
    let text = spec_rig_url_text(target, Some(device), image_format, rotate, secret, api_key, now);
    let prefix = base + q + seq!['&'];
    assert(text =~= prefix + form_serialized(rest));
    assert(text.subrange(0, prefix.len() as int) =~= prefix);
    assert(prefix =~= base + pair_text(p0) + seq!['&'] + pair_text(p1) + seq!['&'] + pair_text(p2)
        + seq!['&'] + pair_text(p3) + seq!['&']);
}

/// The optional text of a `&str`.
pub open spec fn opt_view(s: Option<&str>) -> Option<Seq<char>> {
    match s {
        Some(v) => Some(v@),
        None => None,
    }
}

/// The optional UTF-8 bytes of a `&str`.
pub open spec fn opt_bytes(s: Option<&str>) -> Option<Seq<u8>> {
    match s {
        Some(v) => Some(encode_utf8(v@)),
        None => None,
    }
}

fn push_pair(pairs: &mut Vec<(String, String)>, name: &str, value: &str)
    ensures
        pairs_view(final(pairs)@) == pairs_view(old(pairs)@).push((name@, value@)),
{
    pairs.push((String::from_str(name), String::from_str(value)));
    proof {
        assert(pairs_view(final(pairs)@) =~= pairs_view(old(pairs)@).push((name@, value@)));
    }
}

/// The text of the URL that regenerates a rig's image, made at `now`.
pub fn rig_url_text_at(
    target: &RequestTarget,
    device: Option<&str>,
    image_format: RigResultImageFormat,
    rotate: u16,
    secret: Option<&str>,
    api_key: Option<&str>,
    now: Instant,
) -> (s: String)
    requires
        now.valid(),
        secret is Some ==> now.secs + GENERATED_URL_SIGNATURE_SECONDS <= MAX_TIMESTAMP,
        has_suffix(target.path@, TRMNL_DISPLAY_PATH@) ==> device is Some,
    ensures
        s@ == spec_rig_url_text(
            *target,
            opt_view(device),
            image_format,
            rotate,
            opt_bytes(secret),
            opt_view(api_key),
            now,
        ),
{
    let mut url = String::from_str(target.scheme.as_str());
    url.append("://");
    url.append(target.host.as_str());
    match strip_suffix(target.path.as_str(), TRMNL_DISPLAY_PATH) {
        Some(base) => {
            url.append(base.as_str());
            url.append(API_GET_DEVICE_PATH);
            crate::text::push_char(&mut url, '/');
            match device {
                Some(d) => url.append(d),
                None => {},
            }
        },
        None => url.append(target.path.as_str()),
    }
    crate::text::push_char(&mut url, '?');
    let ghost head = url@;
    proof {
        assert(head == target.scheme@ + "://"@ + target.host@ + rig_url_path(target.path@, opt_view(device)) + seq!['?']);
    }

    let mut pairs: Vec<(String, String)> = Vec::new();
    push_pair(&mut pairs, "format", RigResultFormat::Image.name());
    push_pair(&mut pairs, "image_format", image_format.name());
    push_pair(&mut pairs, "rotate", decimal_text(rotate as u64).as_str());
    match device {
        Some(d) => push_pair(&mut pairs, "device", d),
        None => {},
    }
    let ghost before_auth = pairs_view(pairs@);
    match secret {
        Some(key) => {
            match compute_signature_parts_at(key, now, GENERATED_URL_SIGNATURE_SECONDS) {
                Some(parts) => {
                    push_pair(&mut pairs, parts[0].0.as_str(), parts[0].1.as_str());
                    push_pair(&mut pairs, parts[1].0.as_str(), parts[1].1.as_str());
                },
                None => {},
            }
        },
        None => match api_key {
            Some(k) => push_pair(&mut pairs, "authorization", k),
            None => {},
        },
    }
    proof {
        assert(pairs_view(pairs@) =~= before_auth + url_auth_pairs(
            opt_bytes(secret),
            opt_view(api_key),
            now.secs + GENERATED_URL_SIGNATURE_SECONDS,
        ));
    }
    let timestamp = format_sas_time(now.secs);
    push_pair(&mut pairs, "t", timestamp.as_str());
    proof {
        assert(pairs_view(pairs@) =~= rig_url_pairs(
            image_format,
            rotate,
            opt_view(device),
            url_auth_pairs(
                opt_bytes(secret),
                opt_view(api_key),
                now.secs + GENERATED_URL_SIGNATURE_SECONDS,
            ),
            spec_format_sas_time(now.secs as int),
        ));
    }
    url.append(serialize_form(&pairs).as_str());
    url
}

/// What `url::Url::parse` makes of the text: the parsed URL's serialization (its
/// `as_str`), or nothing where the text is refused.
pub uninterp spec fn spec_parsed_url(text: Seq<char>) -> Option<Seq<char>>;

/// Parses a URL with `url::Url::parse` and hands back its serialization
/// (`String::from(url)`); the serialization, and whether the text is accepted, are
/// named, not described.
#[verifier::external_body]
fn parse_url(text: &str) -> (r: Option<String>)
    ensures
        match r {
            Some(serialized) => spec_parsed_url(text@) == Some(serialized@),
            None => spec_parsed_url(text@) is None,
        },
{
    match url::Url::parse(text) {
        Ok(url) => Some(String::from(url)),
        Err(_) => None,
    }
}

/// The URL that regenerates a rig's image, made at `now`: its text, and the URL as
/// `url::Url` parses and serializes that text; a text that does not parse as a URL is
/// an internal error.
pub open spec fn is_rig_url(text: Seq<char>, r: Result<(String, String), ServeError>) -> bool {
    match r {
        Ok((t, url)) => t@ == text && spec_parsed_url(text) == Some(url@),
        Err(e) => spec_parsed_url(text) is None && (e matches ServeError::Internal(m) && m@
            == "Failed to parse generated rig url."@),
    }
}

/// The URL that regenerates a rig's image, made at `now`.
pub fn rig_url_at(
    target: &RequestTarget,
    device: Option<&str>,
    image_format: RigResultImageFormat,
    rotate: u16,
    secret: Option<&str>,
    api_key: Option<&str>,
    now: Instant,
) -> (r: Result<(String, String), ServeError>)
    requires
        now.valid(),
        secret is Some ==> now.secs + GENERATED_URL_SIGNATURE_SECONDS <= MAX_TIMESTAMP,
        has_suffix(target.path@, TRMNL_DISPLAY_PATH@) ==> device is Some,
    ensures
        is_rig_url(
            spec_rig_url_text(
                *target,
                opt_view(device),
                image_format,
                rotate,
                opt_bytes(secret),
                opt_view(api_key),
                now,
            ),
            r,
        ),
{
    let text = rig_url_text_at(target, device, image_format, rotate, secret, api_key, now);
    match parse_url(text.as_str()) {
        Some(url) => Ok((text, url)),
        None => Err(ServeError::Internal(String::from_str("Failed to parse generated rig url."))),
    }
}

/// The URL that regenerates a rig's image, made now. Where a signature is wanted and
/// its expiry would fall past the last instant chrono can represent, an internal error
/// says so.
pub fn rig_url(
    target: &RequestTarget,
    device: Option<&str>,
    image_format: RigResultImageFormat,
    rotate: u16,
    secret: Option<&str>,
    api_key: Option<&str>,
) -> (r: Result<(String, String), ServeError>)
    requires
        has_suffix(target.path@, TRMNL_DISPLAY_PATH@) ==> device is Some,
    ensures
        exists|now: Instant|
            now.valid() && if secret is Some && now.secs + GENERATED_URL_SIGNATURE_SECONDS
                > MAX_TIMESTAMP {
                r matches Err(e) && e matches ServeError::Internal(m) && m@
                    == "The signature expiry is out of range."@
            } else {
                is_rig_url(
                    spec_rig_url_text(
                        *target,
                        opt_view(device),
                        image_format,
                        rotate,
                        opt_bytes(secret),
                        opt_view(api_key),
                        now,
                    ),
                    r,
                )
            },
{
    let now = utc_now();
    if secret.is_some() && now.secs > MAX_TIMESTAMP - GENERATED_URL_SIGNATURE_SECONDS {
        return Err(ServeError::Internal(String::from_str("The signature expiry is out of range.")));
    }
    rig_url_at(target, device, image_format, rotate, secret, api_key, now)
}

} // verus!
