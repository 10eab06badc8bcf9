//! Google Antigravity: the address it is given, which carries the model, and
//! the settings llmman keeps for it.

use crate::args::{flag_given, has_flag};
use crate::text::{string_of, texts};
use base64::Engine;
use vstd::prelude::*;
use vstd::string::*;
use vstd::utf8::{encode_utf8, encode_utf8_decode_utf8};

verus! {

/// The settings that put AGY in Gemini mode, which llmman writes to its own
/// directory.
pub const AGY_SETTINGS: &'static str = "{\n  \"modelProvider\": \"gemini\"\n}\n";

// ---------------------------------------------------------------------------
// Base64
// ---------------------------------------------------------------------------

/// A byte, zero behind the last one.
pub open spec fn byte_at(bytes: Seq<u8>, i: int) -> int {
    if 0 <= i < bytes.len() {
        bytes[i] as int
    } else {
        0
    }
}

/// The 24 bits of the `k`th three bytes.
pub open spec fn group_at(bytes: Seq<u8>, k: int) -> int {
    byte_at(bytes, 3 * k) * 65536 + byte_at(bytes, 3 * k + 1) * 256 + byte_at(bytes, 3 * k + 2)
}

/// The `i`th six bits.
pub open spec fn sextet(bytes: Seq<u8>, i: int) -> int {
    let group = group_at(bytes, i / 4);
    if i % 4 == 0 {
        group / 262144
    } else if i % 4 == 1 {
        group / 4096 % 64
    } else if i % 4 == 2 {
        group / 64 % 64
    } else {
        group % 64
    }
}

/// The character for six bits: `A` to `Z`, `a` to `z`, `0` to `9`, `-`, `_`.
pub open spec fn url_char(bits: int) -> char {
    if bits < 26 {
        (65 + bits) as char
    } else if bits < 52 {
        (97 + bits - 26) as char
    } else if bits < 62 {
        (48 + bits - 52) as char
    } else if bits == 62 {
        '-'
    } else {
        '_'
    }
}

/// Bytes in the URL-safe alphabet of base64, without padding: one character
/// for each six bits that hold some of them.
pub open spec fn base64_url(bytes: Seq<u8>) -> Seq<char> {
    Seq::new((bytes.len() * 4 + 2) / 3, |i: int| url_char(sextet(bytes, i)))
}

/// `base64`'s `URL_SAFE_NO_PAD` engine encodes the UTF-8 bytes of a text as
/// its documentation and RFC 4648 have it: six bits at a time, in the
/// alphabet with `-` and `_`, with nothing behind the last character.
#[verifier::external_body]
fn encode_url_safe(text: &str) -> (r: String)
    ensures
        r@ == base64_url(encode_utf8(text@)),
{
    base64::engine::general_purpose::URL_SAFE_NO_PAD.encode(text.as_bytes())
}

// ---------------------------------------------------------------------------
// The launch
// ---------------------------------------------------------------------------

/// The base URL for a model.
pub open spec fn agy_url(server: Seq<char>, model: Seq<char>) -> Seq<char> {
    server + "/gemini/"@ + base64_url(encode_utf8(model))
}

/// The base URL AGY is given for `model`. The encoded model in it is
/// llmman's routing instruction: AGY also makes calls with model names of
/// its own, and every one of them goes to the model named here.
pub fn agy_base_url(server: &str, model: &str) -> (r: String)
    ensures
        r@ == agy_url(server@, model@),
{
    let mut url = server.to_owned();
    url.append("/gemini/");
    url.append(encode_url_safe(model).as_str());
    url
}

/// Why AGY cannot be launched with `extra_args`: they hold the directory
/// llmman manages.
pub fn agy_refusal(extra_args: &[String]) -> (r: Option<String>)
    ensures
        string_of(r) == if flag_given(
            texts(extra_args@),
            "--gemini_dir"@,
            Some("-gemini_dir"@),
        ) {
            Some("llmman manages AGY\u{2019}s --gemini_dir"@)
        } else {
            None
        },
{
    if has_flag(extra_args, "--gemini_dir", Some("-gemini_dir")) {
        Some("llmman manages AGY\u{2019}s --gemini_dir".to_owned())
    } else {
        None
    }
}

// ---------------------------------------------------------------------------
// Laws
// ---------------------------------------------------------------------------

/// A base URL names one model: two models have two of them.
pub proof fn law_a_url_names_one_model(server: Seq<char>, a: Seq<char>, b: Seq<char>)
    requires
        agy_url(server, a) == agy_url(server, b),
    ensures
        a == b,
{
    let head = server + "/gemini/"@;
    let x = base64_url(encode_utf8(a));
    let y = base64_url(encode_utf8(b));
    assert(agy_url(server, a).skip(head.len() as int) =~= x);
    assert(agy_url(server, b).skip(head.len() as int) =~= y);
    law_base64_loses_nothing(encode_utf8(a), encode_utf8(b));
    encode_utf8_decode_utf8(a);
    encode_utf8_decode_utf8(b);
}

/// No two byte strings are encoded the same.
pub proof fn law_base64_loses_nothing(a: Seq<u8>, b: Seq<u8>)
    requires
        base64_url(a) == base64_url(b),
    ensures
        a == b,
{
    assert(base64_url(a).len() == (a.len() * 4 + 2) / 3);
    assert(base64_url(b).len() == (b.len() * 4 + 2) / 3);
    lemma_encoded_length(a.len(), b.len());
    assert forall|i: int| 0 <= i < a.len() implies a[i] == b[i] by {
        let k = i / 3;
        lemma_group(a, b, k);
        lemma_bytes_of_group(a, k);
        lemma_bytes_of_group(b, k);
        assert(i == 3 * k || i == 3 * k + 1 || i == 3 * k + 2);
    }
}

/// No two lengths are encoded in the same one.
proof fn lemma_encoded_length(a: nat, b: nat)
    requires
        (a * 4 + 2) / 3 == (b * 4 + 2) / 3,
    ensures
        a == b,
{
    let q = (a * 4 + 2) / 3;
    assert(3 * q <= a * 4 + 2 < 3 * q + 3);
    assert(3 * q <= b * 4 + 2 < 3 * q + 3);
}

/// Six bits have one character.
proof fn lemma_url_char(x: int, y: int)
    requires
        0 <= x < 64,
        0 <= y < 64,
        url_char(x) == url_char(y),
    ensures
        x == y,
{
}

/// The parts of a group of 24 bits.
proof fn lemma_group_parts(bytes: Seq<u8>, k: int)
    requires
        0 <= k,
    ensures
        ({
            let g = group_at(bytes, k);
            &&& 0 <= g < 16777216
            &&& g == (g / 262144) * 262144 + (g / 4096 % 64) * 4096 + (g / 64 % 64) * 64 + g % 64
            &&& 0 <= g / 262144 < 64
        }),
{
    let g = group_at(bytes, k);
    assert(0 <= byte_at(bytes, 3 * k) < 256);
    assert(0 <= byte_at(bytes, 3 * k + 1) < 256);
    assert(0 <= byte_at(bytes, 3 * k + 2) < 256);
    lemma_parts(g);
}

/// 24 bits are four times six bits.
proof fn lemma_parts(g: int)
    requires
        0 <= g < 16777216,
    ensures
        g == (g / 262144) * 262144 + (g / 4096 % 64) * 4096 + (g / 64 % 64) * 64 + g % 64,
        0 <= g / 262144 < 64,
{
    let x = g / 64;
    let y = x / 64;
    let z = y / 64;
    assert(g == 64 * x + g % 64);
    assert(x == 64 * y + x % 64);
    assert(y == 64 * z + y % 64);
    assert(y == g / 4096);
    assert(z == g / 262144);
}

/// The bytes of a group of 24 bits.
proof fn lemma_bytes_of_group(bytes: Seq<u8>, k: int)
    requires
        0 <= k,
    ensures
        ({
            let g = group_at(bytes, k);
            &&& byte_at(bytes, 3 * k) == g / 65536
            &&& byte_at(bytes, 3 * k + 1) == g / 256 % 256
            &&& byte_at(bytes, 3 * k + 2) == g % 256
        }),
{
}

/// Texts that are encoded the same have the same groups.
proof fn lemma_group(a: Seq<u8>, b: Seq<u8>, k: int)
    requires
        base64_url(a) == base64_url(b),
        a.len() == b.len(),
        0 <= k,
        3 * k < a.len(),
    ensures
        group_at(a, k) == group_at(b, k),
{
    lemma_group_parts(a, k);
    lemma_group_parts(b, k);
    lemma_sextets(a, b, k, 0);
    lemma_sextets(a, b, k, 1);
    if 3 * k + 1 < a.len() {
        lemma_sextets(a, b, k, 2);
    } else {
        lemma_no_bits_behind_the_end(a, k);
        lemma_no_bits_behind_the_end(b, k);
    }
    if 3 * k + 2 < a.len() {
        lemma_sextets(a, b, k, 3);
    } else {
        lemma_no_bits_behind_the_end(a, k);
        lemma_no_bits_behind_the_end(b, k);
    }
}

/// Six bits that hold some of the bytes are the same.
proof fn lemma_sextets(a: Seq<u8>, b: Seq<u8>, k: int, j: int)
    requires
        base64_url(a) == base64_url(b),
        0 <= k,
        0 <= j < 4,
        4 * k + j < (a.len() * 4 + 2) / 3,
        a.len() == b.len(),
    ensures
        sextet(a, 4 * k + j) == sextet(b, 4 * k + j),
        (4 * k + j) / 4 == k,
        (4 * k + j) % 4 == j,
{
    let i = 4 * k + j;
    lemma_group_parts(a, k);
    lemma_group_parts(b, k);
    assert(base64_url(a)[i] == url_char(sextet(a, i)));
    assert(base64_url(b)[i] == url_char(sextet(b, i)));
    lemma_url_char(sextet(a, i), sextet(b, i));
}

/// Six bits behind the last byte are zero.
proof fn lemma_no_bits_behind_the_end(bytes: Seq<u8>, k: int)
    requires
        0 <= k,
        3 * k < bytes.len() <= 3 * k + 2,
    ensures
        group_at(bytes, k) % 64 == 0,
        bytes.len() == 3 * k + 1 ==> group_at(bytes, k) / 64 % 64 == 0,
{
}

/// What the address AGY is given is made of: the daemon's, the Gemini
/// surface, and the model in characters a URL takes as they are, in full
/// and without padding.
pub proof fn law_what_the_url_is_made_of(server: Seq<char>, model: Seq<char>, i: int)
    ensures
        agy_url(server, model) == server + "/gemini/"@ + base64_url(encode_utf8(model)),
        0 <= i < base64_url(encode_utf8(model)).len() ==> {
            let c = base64_url(encode_utf8(model))[i];
            'A' <= c <= 'Z' || 'a' <= c <= 'z' || '0' <= c <= '9' || c == '-' || c == '_'
        },
{
    let bytes = encode_utf8(model);
    if 0 <= i < base64_url(bytes).len() {
        lemma_group_parts(bytes, i / 4);
        assert(0 <= sextet(bytes, i) < 64);
    }
}

/// AGY is put in Gemini mode.
pub proof fn law_what_the_settings_say()
    ensures
        AGY_SETTINGS@ == "{\n  \"modelProvider\": \"gemini\"\n}\n"@,
{
}

} // verus!
