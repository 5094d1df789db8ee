//! The image proxy: which upstream addresses may be contacted, which
//! headers and content types pass through, and how the hex-encoded target
//! URL of a request is decoded.

use vstd::prelude::*;
use vstd::utf8::*;
use crate::text::{chars_of, lowercase_of, string_from_utf8, text_is, to_lowercase};
use crate::url::{parse_url, parsed_url};

verus! {

/// An IP address as plain values: four octets or eight 16-bit segments.
#[derive(Clone, Copy, Debug)]
pub enum IpAddress {
    V4([u8; 4]),
    V6([u16; 8]),
}

/// Loopback (127.0.0.0/8), private (10.0.0.0/8, 172.16.0.0/12,
/// 192.168.0.0/16), link-local (169.254.0.0/16), broadcast, unspecified or
/// carrier-grade NAT (100.64.0.0/10) IPv4 address.
pub open spec fn v4_is_private(a: u8, b: u8, c: u8, d: u8) -> bool {
    ||| a == 127
    ||| a == 10
    ||| (a == 172 && 16 <= b <= 31)
    ||| (a == 192 && b == 168)
    ||| (a == 169 && b == 254)
    ||| (a == 255 && b == 255 && c == 255 && d == 255)
    ||| (a == 0 && b == 0 && c == 0 && d == 0)
    ||| (a == 100 && 64 <= b <= 127)
}

/// The IPv4 address an IPv4-mapped IPv6 address (`::ffff:a.b.c.d`) carries.
pub open spec fn mapped_v4(s: Seq<u16>) -> Option<(u8, u8, u8, u8)> {
    if s[0] == 0 && s[1] == 0 && s[2] == 0 && s[3] == 0 && s[4] == 0 && s[5] == 0xffff {
        Some(((s[6] / 256) as u8, (s[6] % 256) as u8, (s[7] / 256) as u8, (s[7] % 256) as u8))
    } else {
        None
    }
}

/// Loopback (`::1`), unspecified (`::`), unique local (fc00::/7) or
/// link-local (fe80::/10) IPv6 address, or an IPv4-mapped address of a
/// private IPv4 address.
pub open spec fn v6_is_private(s: Seq<u16>) -> bool {
    let zero_prefix = s[0] == 0 && s[1] == 0 && s[2] == 0 && s[3] == 0 && s[4] == 0 && s[5] == 0
        && s[6] == 0;
    ||| (zero_prefix && s[7] == 1)
    ||| (zero_prefix && s[7] == 0)
    ||| 0xfc00 <= s[0] <= 0xfdff
    ||| 0xfe80 <= s[0] <= 0xfebf
    ||| match mapped_v4(s) {
        Some((a, b, c, d)) => v4_is_private(a, b, c, d),
        None => false,
    }
}

/// Whether the proxy must not contact an address.
pub open spec fn private_address(ip: IpAddress) -> bool {
    match ip {
        IpAddress::V4(o) => v4_is_private(o@[0], o@[1], o@[2], o@[3]),
        IpAddress::V6(s) => v6_is_private(s@),
    }
}

fn v4_private(a: u8, b: u8, c: u8, d: u8) -> (r: bool)
    ensures
        r == v4_is_private(a, b, c, d),
{
    a == 127 || a == 10 || (a == 172 && 16 <= b && b <= 31) || (a == 192 && b == 168) || (a == 169
        && b == 254) || (a == 255 && b == 255 && c == 255 && d == 255) || (a == 0 && b == 0 && c
        == 0 && d == 0) || (a == 100 && 64 <= b && b <= 127)
}

/// Whether an address is one the image proxy must not contact.
pub fn is_private_ip(ip: &IpAddress) -> (r: bool)
    ensures
        r == private_address(*ip),
{
    match ip {
        IpAddress::V4(o) => v4_private(o[0], o[1], o[2], o[3]),
        IpAddress::V6(s) => {
            let zero_prefix = s[0] == 0 && s[1] == 0 && s[2] == 0 && s[3] == 0 && s[4] == 0 && s[5]
                == 0 && s[6] == 0;
            if zero_prefix && (s[7] == 1 || s[7] == 0) {
                return true;
            }
            if 0xfc00 <= s[0] && s[0] <= 0xfdff {
                return true;
            }
            if 0xfe80 <= s[0] && s[0] <= 0xfebf {
                return true;
            }
            if s[0] == 0 && s[1] == 0 && s[2] == 0 && s[3] == 0 && s[4] == 0 && s[5] == 0xffff {
                v4_private(
                    (s[6] / 256) as u8,
                    (s[6] % 256) as u8,
                    (s[7] / 256) as u8,
                    (s[7] % 256) as u8,
                )
            } else {
                false
            }
        },
    }
}

/// Law: an IPv4-mapped IPv6 address is refused exactly when the IPv4
/// address it carries is.
pub proof fn lemma_mapped_addresses_judged_as_v4(a: u8, b: u8, c: u8, d: u8, s: [u16; 8])
    requires
        s@[0] == 0 && s@[1] == 0 && s@[2] == 0 && s@[3] == 0 && s@[4] == 0,
        s@[5] == 0xffff,
        s@[6] == a as int * 256 + b as int,
        s@[7] == c as int * 256 + d as int,
    ensures
        private_address(IpAddress::V6(s)) == private_address(IpAddress::V4([a, b, c, d])),
{
    let v = IpAddress::V4([a, b, c, d]);
    assert(mapped_v4(s@) == Some((a, b, c, d)));
    if let IpAddress::V4(o) = v {
        assert(o@[0] == a && o@[1] == b && o@[2] == c && o@[3] == d);
    }
}

/// The content types the proxy passes on: image types only.
pub open spec fn accepted_image_type(v: Seq<char>) -> bool {
    ||| v == "image/bmp"@
    ||| v == "image/cgm"@
    ||| v == "image/g3fax"@
    ||| v == "image/gif"@
    ||| v == "image/ief"@
    ||| v == "image/jp2"@
    ||| v == "image/jpeg"@
    ||| v == "image/jpg"@
    ||| v == "image/pict"@
    ||| v == "image/png"@
    ||| v == "image/prs.btif"@
    ||| v == "image/svg+xml"@
    ||| v == "image/tiff"@
    ||| v == "image/vnd.adobe.photoshop"@
    ||| v == "image/vnd.djvu"@
    ||| v == "image/vnd.dwg"@
    ||| v == "image/vnd.dxf"@
    ||| v == "image/vnd.fastbidsheet"@
    ||| v == "image/vnd.fpx"@
    ||| v == "image/vnd.fst"@
    ||| v == "image/vnd.fujixerox.edmics-mmr"@
    ||| v == "image/vnd.fujixerox.edmics-rlc"@
    ||| v == "image/vnd.microsoft.icon"@
    ||| v == "image/vnd.ms-modi"@
    ||| v == "image/vnd.net-fpx"@
    ||| v == "image/vnd.wap.wbmp"@
    ||| v == "image/vnd.xiff"@
    ||| v == "image/webp"@
    ||| v == "image/x-cmu-raster"@
    ||| v == "image/x-cmx"@
    ||| v == "image/x-icon"@
    ||| v == "image/x-macpaint"@
    ||| v == "image/x-pcx"@
    ||| v == "image/x-pict"@
    ||| v == "image/x-portable-anymap"@
    ||| v == "image/x-portable-bitmap"@
    ||| v == "image/x-portable-graymap"@
    ||| v == "image/x-portable-pixmap"@
    ||| v == "image/x-quicktime"@
    ||| v == "image/x-rgb"@
    ||| v == "image/x-xbitmap"@
    ||| v == "image/x-xpixmap"@
    ||| v == "image/x-xwindowdump"@
}

fn image_type_listed(v: &[char]) -> (r: bool)
    ensures
        r == accepted_image_type(v@),
{
        text_is(v, "image/bmp") ||
        text_is(v, "image/cgm") ||
        text_is(v, "image/g3fax") ||
        text_is(v, "image/gif") ||
        text_is(v, "image/ief") ||
        text_is(v, "image/jp2") ||
        text_is(v, "image/jpeg") ||
        text_is(v, "image/jpg") ||
        text_is(v, "image/pict") ||
        text_is(v, "image/png") ||
        text_is(v, "image/prs.btif") ||
        text_is(v, "image/svg+xml") ||
        text_is(v, "image/tiff") ||
        text_is(v, "image/vnd.adobe.photoshop") ||
        text_is(v, "image/vnd.djvu") ||
        text_is(v, "image/vnd.dwg") ||
        text_is(v, "image/vnd.dxf") ||
        text_is(v, "image/vnd.fastbidsheet") ||
        text_is(v, "image/vnd.fpx") ||
        text_is(v, "image/vnd.fst") ||
        text_is(v, "image/vnd.fujixerox.edmics-mmr") ||
        text_is(v, "image/vnd.fujixerox.edmics-rlc") ||
        text_is(v, "image/vnd.microsoft.icon") ||
        text_is(v, "image/vnd.ms-modi") ||
        text_is(v, "image/vnd.net-fpx") ||
        text_is(v, "image/vnd.wap.wbmp") ||
        text_is(v, "image/vnd.xiff") ||
        text_is(v, "image/webp") ||
        text_is(v, "image/x-cmu-raster") ||
        text_is(v, "image/x-cmx") ||
        text_is(v, "image/x-icon") ||
        text_is(v, "image/x-macpaint") ||
        text_is(v, "image/x-pcx") ||
        text_is(v, "image/x-pict") ||
        text_is(v, "image/x-portable-anymap") ||
        text_is(v, "image/x-portable-bitmap") ||
        text_is(v, "image/x-portable-graymap") ||
        text_is(v, "image/x-portable-pixmap") ||
        text_is(v, "image/x-quicktime") ||
        text_is(v, "image/x-rgb") ||
        text_is(v, "image/x-xbitmap") ||
        text_is(v, "image/x-xpixmap") ||
        text_is(v, "image/x-xwindowdump")
}

/// Whether an upstream `Content-Type` value is an accepted image type.
pub fn is_accepted_image_type(value: &str) -> (r: bool)
    ensures
        r == accepted_image_type(value@),
{
    let v = chars_of(value);
    image_type_listed(&v)
}

/// The request headers (lowercase) passed on to the upstream server.
pub open spec fn request_passthrough(v: Seq<char>) -> bool {
    ||| v == "if-modified-since"@
    ||| v == "if-none-match"@
    ||| v == "cache-control"@
    ||| v == "pragma"@
}

/// The response headers (lowercase) passed back from the upstream server.
pub open spec fn response_passthrough(v: Seq<char>) -> bool {
    ||| v == "cache-control"@
    ||| v == "content-length"@
    ||| v == "etag"@
    ||| v == "expires"@
    ||| v == "last-modified"@
    ||| v == "vary"@
    ||| v == "content-encoding"@
    ||| v == "transfer-encoding"@
}

/// Whether a client request header is passed on to the upstream server;
/// header names are compared in lowercase.
pub fn forwards_request_header(name: &str) -> (r: bool)
    ensures
        r == request_passthrough(lowercase_of(name@)),
{
    let lower = to_lowercase(name);
    let owned = chars_of(lower.as_str());
    let v = owned.as_slice();
    text_is(v, "if-modified-since") ||
        text_is(v, "if-none-match") ||
        text_is(v, "cache-control") ||
        text_is(v, "pragma")
}

/// What the proxy does with one header of the upstream response.
#[derive(Clone, Copy, PartialEq, Eq, Structural, Debug)]
pub enum HeaderAction {
    /// Passed back to the client
    Forward,
    /// Left out
    Skip,
    /// The response is refused ("Response was not an image")
    Reject,
}

/// The action for an upstream response header: a `Content-Type` that is not
/// an accepted image type refuses the response, the listed headers are
/// passed back, the rest is left out.
pub open spec fn response_header_action(name: Seq<char>, value: Seq<char>) -> HeaderAction {
    let lower = lowercase_of(name);
    if lower == "content-type"@ && !accepted_image_type(value) {
        HeaderAction::Reject
    } else if response_passthrough(lower) {
        HeaderAction::Forward
    } else {
        HeaderAction::Skip
    }
}

/// Decides what happens to one header of the upstream response.
pub fn upstream_header_action(name: &str, value: &str) -> (r: HeaderAction)
    ensures
        r == response_header_action(name@, value@),
{
    let lower = to_lowercase(name);
    let owned = chars_of(lower.as_str());
    let v = owned.as_slice();
    if text_is(v, "content-type") && !is_accepted_image_type(value) {
        return HeaderAction::Reject;
    }
    let forwarded =
        text_is(v, "cache-control") ||
        text_is(v, "content-length") ||
        text_is(v, "etag") ||
        text_is(v, "expires") ||
        text_is(v, "last-modified") ||
        text_is(v, "vary") ||
        text_is(v, "content-encoding") ||
        text_is(v, "transfer-encoding");
    if forwarded {
        HeaderAction::Forward
    } else {
        HeaderAction::Skip
    }
}

/// Upstream statuses whose responses carry no body (204, 205, 304).
pub fn has_no_body(status: u16) -> (r: bool)
    ensures
        r == (status == 204 || status == 205 || status == 304),
{
    status == 204 || status == 205 || status == 304
}

/// The value of a hex digit byte (`0-9`, `a-f`, `A-F`).
pub open spec fn hex_nibble(b: u8) -> Option<int> {
    if 48 <= b <= 57 {
        Some(b - 48)
    } else if 97 <= b <= 102 {
        Some(b - 87)
    } else if 65 <= b <= 70 {
        Some(b - 55)
    } else {
        None
    }
}

/// Whether `hex::decode` accepts the data: an even number of hex digits.
pub open spec fn hex_decodable(d: Seq<u8>) -> bool {
    d.len() % 2 == 0 && forall|i: int| 0 <= i < d.len() ==> (#[trigger] hex_nibble(d[i])) is Some
}

/// The bytes that pairs of hex digits spell, high nibble first.
pub open spec fn hex_decoded(d: Seq<u8>) -> Seq<u8> {
    Seq::new(
        d.len() / 2,
        |i: int| (hex_nibble(d[2 * i])->0 * 16 + hex_nibble(d[2 * i + 1])->0) as u8,
    )
}

/// `hex::decode`: the bytes spelled by an even number of hex digits (either
/// case); any other input is an error.
#[verifier::external_body]
fn hex_decode(data: &[u8]) -> (r: Option<Vec<u8>>)
    ensures
        r is Some <==> hex_decodable(data@),
        r matches Some(v) ==> v@ == hex_decoded(data@),
{
    hex::decode(data).ok()
}

/// Why a proxy request is refused before any upstream contact.
#[derive(Clone, Copy, PartialEq, Eq, Structural, Debug)]
pub enum ProxyError {
    /// The path holds no url ("Invalid url", not found)
    EmptyUrl,
    /// The path is not hex
    InvalidHex,
    /// The decoded bytes are not UTF-8
    InvalidUtf8,
    /// Not a URL with a host ("invalid url supplied", bad request)
    InvalidUrl,
}

/// Where the proxy sends a request.
pub struct ProxyTarget {
    pub url: String,
    pub host: String,
    pub port: u16,
}

/// The target a hex-encoded proxy path names: the hex digits decode to
/// UTF-8 text that must parse as a URL with a host; without an explicit or
/// default port, port 80 is used.
pub open spec fn proxy_target(encoded: Seq<char>) -> Result<(Seq<char>, Seq<char>, u16), ProxyError> {
    let bytes = encode_utf8(encoded);
    if encoded.len() == 0 {
        Err(ProxyError::EmptyUrl)
    } else if !hex_decodable(bytes) {
        Err(ProxyError::InvalidHex)
    } else if !valid_utf8(hex_decoded(bytes)) {
        Err(ProxyError::InvalidUtf8)
    } else {
        match parsed_url(decode_utf8(hex_decoded(bytes))) {
            Some((serialization, _, _, _, Some(host), port)) => Ok(
                (
                    serialization,
                    host,
                    match port {
                        Some(p) => p,
                        None => 80,
                    },
                ),
            ),
            _ => Err(ProxyError::InvalidUrl),
        }
    }
}

/// Decodes the hex-encoded target of a proxy request.
pub fn decode_proxy_target(encoded: &str) -> (r: Result<ProxyTarget, ProxyError>)
    ensures
        match proxy_target(encoded@) {
            Ok((url, host, port)) => r matches Ok(t) && t.url@ == url && t.host@ == host && t.port
                == port,
            Err(e) => r matches Err(x) && x == e,
        },
{
    if encoded.is_empty() {
        return Err(ProxyError::EmptyUrl);
    }
    let bytes = match hex_decode(encoded.as_bytes()) {
        Some(b) => b,
        None => return Err(ProxyError::InvalidHex),
    };
    let text = match string_from_utf8(bytes) {
        Some(t) => t,
        None => return Err(ProxyError::InvalidUtf8),
    };
    let parts = match parse_url(text.as_str()) {
        Some(p) => p,
        None => return Err(ProxyError::InvalidUrl),
    };
    let host = match parts.host {
        Some(h) => h,
        None => return Err(ProxyError::InvalidUrl),
    };
    let port = match parts.port {
        Some(p) => p,
        None => 80,
    };
    Ok(ProxyTarget { url: parts.serialization, host, port })
}

/// Law: loopback, private, link-local and carrier-grade NAT networks are
/// refused whatever the rest of the address, and an address whose first
/// octet starts none of the refused networks is allowed.
pub proof fn lemma_private_networks(a: u8, b: u8, c: u8, d: u8)
    ensures
        a == 127 || a == 10 ==> v4_is_private(a, b, c, d),
        a == 192 && b == 168 ==> v4_is_private(a, b, c, d),
        a == 172 && 16 <= b <= 31 ==> v4_is_private(a, b, c, d),
        a == 169 && b == 254 ==> v4_is_private(a, b, c, d),
        a == 100 && 64 <= b <= 127 ==> v4_is_private(a, b, c, d),
        a == 172 && !(16 <= b <= 31) ==> !v4_is_private(a, b, c, d),
        a == 100 && !(64 <= b <= 127) ==> !v4_is_private(a, b, c, d),
        a != 0 && a != 10 && a != 100 && a != 127 && a != 169 && a != 172 && a != 192 && a != 255 ==> !v4_is_private(
            a,
            b,
            c,
            d,
        ),
        private_address(IpAddress::V4([a, b, c, d])) == v4_is_private(a, b, c, d),
{
    assert([a, b, c, d]@ == seq![a, b, c, d]);
}

} // verus!
