//! The calls into other crates and into parts of std without a specification,
//! each behind one small function whose contract is taken on trust.

use vstd::prelude::*;

verus! {

/// Names the SHA-256 digest of a byte string.
pub uninterp spec fn sha256(bytes: Seq<u8>) -> Seq<u8>;

/// Calls `sha2::Sha256::digest`. Trusted: the digest has 32 bytes and depends
/// on the bytes alone.
#[verifier::external_body]
pub(crate) fn sha256_digest(bytes: &[u8]) -> (digest: Vec<u8>)
    ensures
        digest@ == sha256(bytes@),
        digest@.len() == 32,
{
    <sha2::Sha256 as sha2::Digest>::digest(bytes).to_vec()
}

/// Names the 128-bit XXH3 hash of a byte string.
pub uninterp spec fn xxh3(bytes: Seq<u8>) -> u128;

/// Calls `xxhash_rust::xxh3::xxh3_128`. Trusted: the hash depends on the bytes
/// alone.
#[verifier::external_body]
pub(crate) fn xxh3_hash(bytes: &[u8]) -> (hash: u128)
    ensures
        hash == xxh3(bytes@),
{
    xxhash_rust::xxh3::xxh3_128(bytes)
}

/// Trusted: `String::push` appends one character to the text.
pub assume_specification[ String::push ](s: &mut String, ch: char)
    ensures
        final(s)@ == old(s)@.push(ch),
;

/// Calls `String::from_utf8`. Trusted: the bytes are text exactly when they are
/// valid UTF-8, and then the text is what they encode.
#[verifier::external_body]
pub(crate) fn text_from_utf8(bytes: Vec<u8>) -> (text: Option<String>)
    ensures
        text is Some == vstd::utf8::valid_utf8(bytes@),
        text is Some ==> text->0@ == vstd::utf8::decode_utf8(bytes@),
{
    String::from_utf8(bytes).ok()
}

/// `bytes::Bytes`: an immutable, shared byte buffer.
#[verifier::external_type_specification]
#[verifier::external_body]
pub struct ExBytes(bytes::Bytes);

/// Names the bytes that a buffer holds.
pub uninterp spec fn buffer_content(buffer: bytes::Bytes) -> Seq<u8>;

/// Calls `Bytes::from(Vec<u8>)`. Trusted: the buffer holds the bytes of the
/// vector.
#[verifier::external_body]
pub(crate) fn buffer_from(bytes: Vec<u8>) -> (buffer: bytes::Bytes)
    ensures
        buffer_content(buffer) == bytes@,
{
    bytes::Bytes::from(bytes)
}

/// Calls `Bytes::len`. Trusted: the number of bytes that the buffer holds.
#[verifier::external_body]
pub(crate) fn buffer_len(buffer: &bytes::Bytes) -> (len: usize)
    ensures
        len == buffer_content(*buffer).len(),
{
    buffer.len()
}

/// Calls `Bytes::slice`. Trusted: a buffer with the bytes from `start` up to
/// `end`.
#[verifier::external_body]
pub(crate) fn buffer_slice(buffer: &bytes::Bytes, start: usize, end: usize) -> (part: bytes::Bytes)
    requires
        start <= end <= buffer_content(*buffer).len(),
    ensures
        buffer_content(part) == buffer_content(*buffer).subrange(start as int, end as int),
{
    buffer.slice(start..end)
}

/// Calls `Bytes::clone`. Trusted: a second handle on the same bytes.
#[verifier::external_body]
pub(crate) fn buffer_clone(buffer: &bytes::Bytes) -> (copy: bytes::Bytes)
    ensures
        buffer_content(copy) == buffer_content(*buffer),
{
    buffer.clone()
}

/// Calls `rand::rngs::OsRng::next_u64`. Nothing is promised of the number. The
/// call panics when the operating system has no randomness to give.
#[verifier::external_body]
pub(crate) fn random_u64() -> (value: u64) {
    rand::RngCore::next_u64(&mut rand::rngs::OsRng)
}

/// Calls `rand::rngs::OsRng::fill_bytes` on a vector of so many bytes. Trusted:
/// the length stays; nothing is promised of the bytes. The call panics when the
/// operating system has no randomness to give.
#[verifier::external_body]
pub(crate) fn random_bytes(len: usize) -> (value: Vec<u8>)
    requires
        len <= isize::MAX,
    ensures
        value@.len() == len,
{
    let mut value = vec![0_u8; len];
    rand::RngCore::fill_bytes(&mut rand::rngs::OsRng, &mut value);
    value
}

/// Calls `rand::rngs::OsRng::next_u32`. Nothing is promised of the number. The
/// call panics when the operating system has no randomness to give.
#[verifier::external_body]
pub(crate) fn random_u32() -> (value: u32) {
    rand::RngCore::next_u32(&mut rand::rngs::OsRng)
}

/// Calls `rand::random::<u128>`. Nothing is promised of the number. The call
/// panics when the operating system has no randomness to give.
#[verifier::external_body]
pub(crate) fn random_u128() -> (value: u128) {
    rand::random::<u128>()
}

/// Names the number that a text in UUID notation stands for, if it is one.
pub uninterp spec fn uuid_value(text: Seq<char>) -> Option<u128>;

/// True when the version field of a UUID says that it is random.
pub open spec fn uuid_is_random(value: u128) -> bool {
    (value >> 76) & 0xf == 4
}

/// Calls `uuid::Uuid::parse_str`. Trusted: the outcome depends on the text
/// alone.
#[verifier::external_body]
pub(crate) fn parse_uuid(text: &str) -> (value: Option<u128>)
    ensures
        value == uuid_value(text@),
{
    uuid::Uuid::parse_str(text).ok().map(|uuid| uuid.as_u128())
}

/// Calls `uuid::Uuid::new_v4`. Trusted: the text is that of a random UUID;
/// nothing else is promised of it. The call panics when the operating system has
/// no randomness to give.
#[verifier::external_body]
pub(crate) fn random_uuid_text() -> (text: String)
    ensures
        uuid_value(text@) is Some,
        uuid_is_random(uuid_value(text@)->0),
{
    uuid::Uuid::new_v4().to_string()
}

/// `std::time::SystemTime`: a reading of the system clock.
#[verifier::external_type_specification]
#[verifier::external_body]
pub struct ExSystemTime(std::time::SystemTime);

/// Calls `std::time::SystemTime::now`. Nothing is promised of the time.
#[verifier::external_body]
pub(crate) fn system_time() -> (time: std::time::SystemTime) {
    std::time::SystemTime::now()
}

/// Calls `std::time::SystemTime::duration_since` with the start of 1970, and
/// gives the whole milliseconds; `None` where the call fails. Nothing is promised
/// of the number.
#[verifier::external_body]
pub(crate) fn millis_since_epoch(time: &std::time::SystemTime) -> (millis: Option<u128>) {
    time.duration_since(std::time::UNIX_EPOCH).ok().map(|duration| duration.as_millis())
}

} // verus!
