//! Key derivation: the short, URL-safe text under which a reference is stored.
//!
//! A name is hashed to 64 bits, the hash is written as eight bytes, most
//! significant first, and the bytes are written in base 64 with the URL-safe
//! digits and without padding.

use base64::Engine;
use std::collections::hash_map::DefaultHasher;
use std::hash::Hash;
use std::hash::Hasher;
use vstd::prelude::*;
use vstd::std_specs::hash::DefaultHasherAdditionalSpecFns;

verus! {

/// Number of characters of every key.
pub const KEY_LEN: usize = 11;

/// The writes by which a string feeds a hasher: what `<String as Hash>::hash`
/// hands to the hasher's `write` methods, in order.
pub uninterp spec fn string_writes(text: Seq<char>) -> Seq<Seq<u8>>;

/// The 64-bit hash of a name: what a fresh `DefaultHasher` returns once the
/// name has been fed to it.
pub open spec fn name_hash(name: Seq<char>) -> u64 {
    DefaultHasher::spec_finish(Seq::<Seq<u8>>::empty() + string_writes(name))
}

/// The eight bytes of `h`, most significant first.
pub open spec fn be_bytes(h: u64) -> Seq<u8> {
    seq![
        (h / 0x0100_0000_0000_0000) as u8,
        (h / 0x0001_0000_0000_0000 % 256) as u8,
        (h / 0x0000_0100_0000_0000 % 256) as u8,
        (h / 0x0000_0001_0000_0000 % 256) as u8,
        (h / 0x0000_0000_0100_0000 % 256) as u8,
        (h / 0x0000_0000_0001_0000 % 256) as u8,
        (h / 0x0000_0000_0000_0100 % 256) as u8,
        (h % 256) as u8,
    ]
}

/// The `i`-th group of six bits of `bytes`, read as one long string of bits
/// that is filled up with zeros at its end.
pub open spec fn sextet(bytes: Seq<u8>, i: int) -> int {
    let first = (6 * i) / 8;
    let offset = (6 * i) % 8;
    let high = bytes[first] as int;
    let low = if first + 1 < bytes.len() {
        bytes[first + 1] as int
    } else {
        0
    };
    let pair = high * 256 + low;
    if offset == 0 {
        pair / 1024 % 64
    } else if offset == 2 {
        pair / 256 % 64
    } else if offset == 4 {
        pair / 64 % 64
    } else {
        pair / 16 % 64
    }
}

/// The URL-safe digit that stands for `v`, a number below 64.
pub open spec fn url_digit(v: int) -> char {
    if v < 26 {
        ('A' as int + v) as char
    } else if v < 52 {
        ('a' as int + v - 26) as char
    } else if v < 62 {
        ('0' as int + v - 52) as char
    } else if v == 62 {
        '-'
    } else {
        '_'
    }
}

/// Whether `c` is a letter, a digit, `-` or `_`.
pub open spec fn is_url_safe(c: char) -> bool {
    ||| 'A' <= c <= 'Z'
    ||| 'a' <= c <= 'z'
    ||| '0' <= c <= '9'
    ||| c == '-'
    ||| c == '_'
}

/// Number of base-64 digits that `len` bytes take when nothing is padded.
pub open spec fn digits(len: nat) -> nat {
    ((len * 8 + 5) / 6) as nat
}

/// `bytes` in base 64, with the URL-safe digits and without padding.
pub open spec fn base64_url(bytes: Seq<u8>) -> Seq<char> {
    Seq::new(digits(bytes.len()), |i: int| url_digit(sextet(bytes, i)))
}

/// The key that belongs to a hash.
pub open spec fn key_of_hash_spec(hash: u64) -> Seq<char> {
    base64_url(be_bytes(hash))
}

/// The key that belongs to a name.
pub open spec fn ref_key_spec(name: Seq<char>) -> Seq<char> {
    key_of_hash_spec(name_hash(name))
}

/// `<String as Hash>::hash` on a `DefaultHasher`. The hasher is fed the writes
/// that belong to the string, after those it has seen before; which writes
/// these are is left to the standard library.
#[verifier::external_body]
fn feed(name: &String, state: &mut DefaultHasher)
    ensures
        final(state)@ == old(state)@ + string_writes(name@),
{
    name.hash(state)
}

/// `Engine::encode` of base64's `URL_SAFE_NO_PAD`: the base-64 text of the
/// bytes in the alphabet `A`-`Z`, `a`-`z`, `0`-`9`, `-`, `_`, most significant
/// bits first, the last digit filled up with zero bits and no `=` added. The
/// call panics when the length of the text does not fit a `usize`.
#[verifier::external_body]
fn encode_url_safe(bytes: &Vec<u8>) -> (text: String)
    requires
        bytes@.len() / 3 * 4 + 3 <= usize::MAX,
    ensures
        text@ == base64_url(bytes@),
{
    base64::engine::general_purpose::URL_SAFE_NO_PAD.encode(bytes)
}

/// Every key has `KEY_LEN` characters, each of them a letter, a digit, `-` or
/// `_`, whatever the hash.
pub proof fn law_key_shape(hash: u64)
    ensures
        key_of_hash_spec(hash).len() == KEY_LEN,
        forall|i: int| 0 <= i < KEY_LEN ==> is_url_safe(#[trigger] key_of_hash_spec(hash)[i]),
{
}

/// The key of a reference is a function of its name alone, has `KEY_LEN`
/// characters, and each of them is a letter, a digit, `-` or `_`.
pub proof fn law_ref_key_stable(name: Seq<char>, again: Seq<char>)
    ensures
        name == again ==> ref_key_spec(name) == ref_key_spec(again),
        ref_key_spec(name).len() == KEY_LEN,
        forall|i: int| 0 <= i < KEY_LEN ==> is_url_safe(#[trigger] ref_key_spec(name)[i]),
{
}

/// The eight bytes of `hash`, most significant first.
pub fn hash_bytes(hash: u64) -> (bytes: Vec<u8>)
    ensures
        bytes@ == be_bytes(hash),
{
    let mut bytes: Vec<u8> = Vec::with_capacity(8);
    bytes.push((hash / 0x0100_0000_0000_0000) as u8);
    bytes.push((hash / 0x0001_0000_0000_0000 % 256) as u8);
    bytes.push((hash / 0x0000_0100_0000_0000 % 256) as u8);
    bytes.push((hash / 0x0000_0001_0000_0000 % 256) as u8);
    bytes.push((hash / 0x0000_0000_0100_0000 % 256) as u8);
    bytes.push((hash / 0x0000_0000_0001_0000 % 256) as u8);
    bytes.push((hash / 0x0000_0000_0000_0100 % 256) as u8);
    bytes.push((hash % 256) as u8);
    bytes
}

/// Writes a hash as a key.
pub fn key_of_hash(hash: u64) -> (key: String)
    ensures
        key@ == key_of_hash_spec(hash),
        key@.len() == KEY_LEN,
        forall|i: int| 0 <= i < KEY_LEN ==> is_url_safe(#[trigger] key@[i]),
{
    let bytes = hash_bytes(hash);
    encode_url_safe(&bytes)
}

/// Hashes a name.
pub fn hash_of_name(name: &String) -> (hash: u64)
    ensures
        hash == name_hash(name@),
{
    let mut state = DefaultHasher::new();
    feed(name, &mut state);
    state.finish()
}

/// Derives the key under which the reference called `name` is stored. Equal
/// names give equal keys.
pub fn ref_key(name: &String) -> (key: String)
    ensures
        key@ == ref_key_spec(name@),
        key@.len() == KEY_LEN,
        forall|i: int| 0 <= i < KEY_LEN ==> is_url_safe(#[trigger] key@[i]),
{
    key_of_hash(hash_of_name(name))
}

} // verus!
