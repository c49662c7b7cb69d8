//! The HTTP headers the module sets on its responses: the entity tag of a
//! body, how long it may be cached and when it expires.

use vstd::prelude::*;
use crate::text::{decimal, push_decimal, string_push};
use chrono::TimeZone;

verus! {

/// How long a layer description may be cached, in seconds: one week.
pub const MAX_AGE_SECONDS: i64 = 604_800;

/// The first second, from the Unix epoch, of the year 0.
pub const RFC2822_FIRST_SECOND: i64 = -62_167_219_200;

/// The first second, from the Unix epoch, of the year 10000.
pub const RFC2822_END_SECOND: i64 = 253_402_300_800;

/// The MD5 digest of `data`.
pub uninterp spec fn md5_digest(data: Seq<u8>) -> Seq<u8>;

/// The RFC 2822 date and time, in UTC, of the instant `secs` seconds after the Unix epoch.
pub uninterp spec fn rfc2822_date(secs: int) -> Seq<char>;

/// `md5::compute`: the 16 bytes of the MD5 digest of `data`. The contract
/// names the digest `md5_digest` of the bytes and says no more of it.
#[verifier::external_body]
fn md5_compute(data: &[u8]) -> (digest: [u8; 16])
    ensures
        digest@ == md5_digest(data@),
{
    md5::compute(data).0
}

/// `chrono::Utc.timestamp(secs, 0).to_rfc2822()`: the RFC 2822 form of an
/// instant, named `rfc2822_date` of its seconds. The date library panics
/// outside the years 0 to 9999, so the contract admits only instants inside them.
#[verifier::external_body]
fn rfc2822_at(secs: i64) -> (date: String)
    requires
        RFC2822_FIRST_SECOND <= secs < RFC2822_END_SECOND,
    ensures
        date@ == rfc2822_date(secs as int),
{
    #[allow(deprecated)]
    let instant = chrono::Utc.timestamp(secs, 0);
    instant.to_rfc2822()
}

/// The lower-case hexadecimal digit of a value below sixteen.
pub open spec fn hex_char(d: int) -> char {
    if d < 10 {
        ((d + 48) as u8) as char
    } else {
        ((d + 87) as u8) as char
    }
}

/// Two lower-case hexadecimal digits per byte, the high nibble first.
pub open spec fn lower_hex(bytes: Seq<u8>) -> Seq<char>
    decreases bytes.len(),
{
    if bytes.len() == 0 {
        Seq::empty()
    } else {
        lower_hex(bytes.drop_last()) + seq![hex_char(bytes.last() as int / 16), hex_char(bytes.last() as int % 16)]
    }
}

/// The entity tag of a body: the hexadecimal MD5 digest of its bytes, in double quotes.
pub open spec fn etag_of(body: Seq<u8>) -> Seq<char> {
    seq!['"'] + lower_hex(md5_digest(body)) + seq!['"']
}

/// The cache control of a layer description: `max-age=604800`.
pub open spec fn cache_control_value() -> Seq<char> {
    seq!['m', 'a', 'x', '-', 'a', 'g', 'e', '='] + decimal(MAX_AGE_SECONDS as nat)
}

/// Whole seconds of a span of microseconds, rounded toward zero.
pub open spec fn micros_to_seconds(micros: int) -> int {
    if micros >= 0 {
        micros / 1_000_000
    } else {
        -((-micros) / 1_000_000)
    }
}

/// When a layer description requested at `request_time` microseconds after
/// the Unix epoch expires, in seconds after it.
pub open spec fn expiry_seconds(request_time: i64) -> int {
    MAX_AGE_SECONDS + micros_to_seconds(request_time as int)
}

/// The request times whose expiry has an RFC 2822 form.
pub open spec fn expiry_representable(request_time: i64) -> bool {
    RFC2822_FIRST_SECOND <= expiry_seconds(request_time) < RFC2822_END_SECOND
}

/// The name of the entity tag header.
pub open spec fn etag_name() -> Seq<char> {
    seq!['e', 't', 'a', 'g']
}

/// The name of the cache control header.
pub open spec fn cache_control_name() -> Seq<char> {
    seq!['c', 'a', 'c', 'h', 'e', '-', 'c', 'o', 'n', 't', 'r', 'o', 'l']
}

/// The name of the expiry header.
pub open spec fn expires_name() -> Seq<char> {
    seq!['e', 'x', 'p', 'i', 'r', 'e', 's']
}

/// The lower-case hexadecimal digit of a value below sixteen.
fn hex_digit(d: u8) -> (c: char)
    requires
        d < 16,
    ensures
        c == hex_char(d as int),
{
    if d < 10 {
        ((d + 48) as u8) as char
    } else {
        ((d + 87) as u8) as char
    }
}

/// The entity tag of a body, as `etag_of` describes it.
pub fn etag(body: &[u8]) -> (tag: String)
    ensures
        tag@ == etag_of(body@),
{
    let digest = md5_compute(body);
    let mut tag = String::new();
    string_push(&mut tag, '"');
    let mut i: usize = 0;
    while i < 16
        invariant
            0 <= i <= 16,
            digest@.len() == 16,
            tag@ == seq!['"'] + lower_hex(digest@.take(i as int)),
        decreases 16 - i,
    {
        let b = digest[i];
        string_push(&mut tag, hex_digit(b / 16));
        string_push(&mut tag, hex_digit(b % 16));
        proof {
            assert(digest@.take(i as int + 1).drop_last() =~= digest@.take(i as int));
            assert(digest@.take(i as int + 1).last() == b);
        }
        i = i + 1;
    }
    string_push(&mut tag, '"');
    proof {
        assert(digest@.take(16) =~= digest@);
    }
    tag
}

/// The cache control of a layer description, as `cache_control_value` describes it.
pub fn cache_control() -> (value: String)
    ensures
        value@ == cache_control_value(),
{
    let mut value = String::from_str("max-age=");
    proof {
        reveal_strlit("max-age=");
    }
    push_decimal(&mut value, MAX_AGE_SECONDS as u64);
    value
}

/// When a layer description requested at `request_time` expires, in RFC 2822 form.
pub fn expires(request_time: i64) -> (value: String)
    requires
        expiry_representable(request_time),
    ensures
        value@ == rfc2822_date(expiry_seconds(request_time)),
{
    let request_time_in_epoch_secs = request_time / 1_000_000;
    let expiry_in_epoch_secs = MAX_AGE_SECONDS + request_time_in_epoch_secs;
    rfc2822_at(expiry_in_epoch_secs)
}

} // verus!
