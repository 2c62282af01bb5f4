//! Everything this crate takes on trust: declarations of types from other crates, and
//! contracts for the functions of those crates and of `std` that the verified code calls.
use vstd::prelude::*;
use bytes::{BufMut, BytesMut};
use chrono::{DateTime, Utc};
use dashmap::DashMap;
use md5::Context as Md5Context;
use moka::sync::Cache as MokaCache;
use sha1::{Digest, Sha1};
#[allow(unused_imports)]
use crate::file::{listing_view, FileView};
use crate::file::QuarkFile;

verus! {

/// `dashmap::DashMap`, a map from keys to values.
#[verifier::external_type_specification]
#[verifier::external_body]
#[verifier::reject_recursive_types(K)]
#[verifier::reject_recursive_types(V)]
#[verifier::reject_recursive_types(S)]
pub struct ExDashMap<K, V, S>(DashMap<K, V, S>);

/// What a `DashMap` from texts to numbers holds.
pub uninterp spec fn numbers_in(map: DashMap<String, u64>) -> Map<Seq<char>, u64>;

/// No numbers at all.
pub open spec fn no_numbers() -> Map<Seq<char>, u64> {
    Map::empty()
}

/// `DashMap::new`: an empty map.
#[verifier::external_body]
pub(crate) fn numbers_new() -> (res: DashMap<String, u64>)
    ensures
        numbers_in(res) == no_numbers(),
{
    DashMap::new()
}

/// `DashMap::get`: the number held under `key`, if there is one.
#[verifier::external_body]
pub(crate) fn numbers_get(map: &DashMap<String, u64>, key: &str) -> (res: Option<u64>)
    ensures
        res == (if numbers_in(*map).contains_key(key@) {
            Some(numbers_in(*map)[key@])
        } else {
            None
        }),
{
    map.get(key).map(|entry| *entry.value())
}

/// `DashMap::insert`: puts `value` under `key`, over whatever was there.
#[verifier::external_body]
pub(crate) fn numbers_insert(map: &mut DashMap<String, u64>, key: &str, value: u64)
    ensures
        numbers_in(*final(map)) == numbers_in(*old(map)).insert(key@, value),
{
    map.insert(key.to_string(), value);
}

/// `DashMap::clear`: forgets every key.
#[verifier::external_body]
pub(crate) fn numbers_clear(map: &mut DashMap<String, u64>)
    ensures
        numbers_in(*final(map)) == no_numbers(),
{
    map.clear();
}

/// The listings that a `DashMap` holds by path.
pub uninterp spec fn placeholders_in(map: DashMap<String, Vec<QuarkFile>>) -> Map<
    Seq<char>,
    Seq<FileView>,
>;

/// `DashMap::new`: an empty map.
#[verifier::external_body]
pub(crate) fn placeholders_new() -> (res: DashMap<String, Vec<QuarkFile>>)
    ensures
        placeholders_in(res) == no_listings(),
{
    DashMap::new()
}

/// `DashMap::get`: a copy of the records held under `key`, if there are any.
#[verifier::external_body]
pub(crate) fn placeholders_get(map: &DashMap<String, Vec<QuarkFile>>, key: &str) -> (res: Option<
    Vec<QuarkFile>,
>)
    ensures
        res is Some == placeholders_in(*map).contains_key(key@),
        res matches Some(files) ==> listing_view(files@) == placeholders_in(*map)[key@],
{
    map.get(key).map(|entry| entry.value().clone())
}

/// `DashMap::insert`: puts `value` under `key`, over whatever was there.
#[verifier::external_body]
pub(crate) fn placeholders_insert(
    map: &mut DashMap<String, Vec<QuarkFile>>,
    key: &str,
    value: Vec<QuarkFile>,
)
    ensures
        placeholders_in(*final(map)) == placeholders_in(*old(map)).insert(
            key@,
            listing_view(value@),
        ),
{
    map.insert(key.to_string(), value);
}

/// The texts that a `DashMap` holds by name.
pub uninterp spec fn texts_in(map: DashMap<String, String>) -> Map<Seq<char>, Seq<char>>;

/// No texts at all.
pub open spec fn no_texts() -> Map<Seq<char>, Seq<char>> {
    Map::empty()
}

/// `DashMap::new`: an empty map.
#[verifier::external_body]
pub(crate) fn texts_new() -> (res: DashMap<String, String>)
    ensures
        texts_in(res) == no_texts(),
{
    DashMap::new()
}

/// `DashMap::insert`: puts `value` under `key`, over whatever was there.
#[verifier::external_body]
pub(crate) fn texts_insert(map: &mut DashMap<String, String>, key: String, value: String)
    ensures
        texts_in(*final(map)) == texts_in(*old(map)).insert(key@, value@),
{
    map.insert(key, value);
}

/// `moka::sync::Cache`, a map that may drop entries on its own: when they grow old, or when
/// it is full.
#[verifier::external_type_specification]
#[verifier::external_body]
#[verifier::reject_recursive_types(K)]
#[verifier::reject_recursive_types(V)]
#[verifier::reject_recursive_types(S)]
pub struct ExMokaCache<K, V, S>(MokaCache<K, V, S>);

/// What was put into a store of listings and not taken out again since. The store may have
/// dropped any of it on its own.
pub uninterp spec fn listings_in(store: MokaCache<String, Vec<QuarkFile>>) -> Map<
    Seq<char>,
    Seq<FileView>,
>;

/// How many entries, and how many seconds for each, a store of listings was made for.
pub uninterp spec fn limits_of(store: MokaCache<String, Vec<QuarkFile>>) -> (u64, u64);

/// When each listing of a store was last put in, by the store's clock, which never runs
/// backwards.
pub uninterp spec fn written_in(store: MokaCache<String, Vec<QuarkFile>>) -> Map<Seq<char>, int>;

/// Whether `key` was written last: its time is no sooner than that of any of the `listings` from
/// before, and no other time has changed.
pub open spec fn wrote_last(
    listings: Map<Seq<char>, Seq<FileView>>,
    before: Map<Seq<char>, int>,
    after: Map<Seq<char>, int>,
    key: Seq<char>,
) -> bool {
    &&& after == before.insert(key, after[key])
    &&& forall|j: Seq<char>| #[trigger] listings.contains_key(j) ==> before[j] <= after[key]
}

/// Whether of some `listings` only such are `left` as were written no sooner than any other.
pub open spec fn leaves_latest(
    listings: Map<Seq<char>, Seq<FileView>>,
    written: Map<Seq<char>, int>,
    left: Map<Seq<char>, Seq<FileView>>,
) -> bool {
    &&& left.submap_of(listings)
    &&& forall|k: Seq<char>, j: Seq<char>| #[trigger]
        left.contains_key(k) && #[trigger] listings.contains_key(j) ==> written[j] <= written[k]
}

/// No listings at all.
pub open spec fn no_listings() -> Map<Seq<char>, Seq<FileView>> {
    Map::empty()
}

/// The longest time to live that a store takes, in seconds: a thousand years of 365 days.
pub open spec fn longest_ttl() -> u64 {
    31_536_000_000
}

/// `CacheBuilder::max_capacity`, `time_to_live` and `build`: an empty store with these limits.
/// `build` panics on a time to live above [`longest_ttl`].
#[verifier::external_body]
pub(crate) fn listings_new(max_capacity: u64, ttl: u64) -> (res: MokaCache<
    String,
    Vec<QuarkFile>,
>)
    requires
        ttl <= longest_ttl(),
    ensures
        listings_in(res) == no_listings(),
        limits_of(res) == (max_capacity, ttl),
{
    MokaCache::builder()
        .max_capacity(max_capacity)
        .time_to_live(std::time::Duration::from_secs(ttl))
        .build()
}

/// `Cache::get`: a copy of what was last put under `key`, or nothing. That nothing comes
/// back where something was put depends on age and on pressure, and is left open.
#[verifier::external_body]
pub(crate) fn listings_get(store: &MokaCache<String, Vec<QuarkFile>>, key: &str) -> (res:
    Option<Vec<QuarkFile>>)
    ensures
        res matches Some(files) ==> listings_in(*store).contains_key(key@)
            && listing_view(files@) == listings_in(*store)[key@],
{
    store.get(key)
}

/// `Cache::insert`: puts `value` under `key`, over whatever was there, at the time of the call.
#[verifier::external_body]
pub(crate) fn listings_insert(
    store: &mut MokaCache<String, Vec<QuarkFile>>,
    key: String,
    value: Vec<QuarkFile>,
)
    ensures
        listings_in(*final(store)) == listings_in(*old(store)).insert(
            key@,
            listing_view(value@),
        ),
        limits_of(*final(store)) == limits_of(*old(store)),
        wrote_last(
            listings_in(*old(store)),
            written_in(*old(store)),
            written_in(*final(store)),
            key@,
        ),
{
    store.insert(key, value);
}

/// `Cache::invalidate`: takes out what is under `key`.
#[verifier::external_body]
pub(crate) fn listings_remove(store: &mut MokaCache<String, Vec<QuarkFile>>, key: &str)
    ensures
        listings_in(*final(store)) == listings_in(*old(store)).remove(key@),
        limits_of(*final(store)) == limits_of(*old(store)),
        written_in(*final(store)) == written_in(*old(store)),
{
    store.invalidate(key);
}

/// `Cache::invalidate_all`: takes out every entry older than the call, and puts nothing in.
/// It goes by the clock: an entry written at the very tick of the call stays, so that what is
/// left was written no sooner than any other entry. Whether the last tick was that of the call
/// is left open.
#[verifier::external_body]
pub(crate) fn listings_remove_older(store: &mut MokaCache<String, Vec<QuarkFile>>)
    ensures
        leaves_latest(
            listings_in(*old(store)),
            written_in(*old(store)),
            listings_in(*final(store)),
        ),
        limits_of(*final(store)) == limits_of(*old(store)),
        written_in(*final(store)) == written_in(*old(store)),
{
    store.invalidate_all();
}

/// The characters with the Unicode property `White_Space`.
pub open spec fn is_white_space(c: char) -> bool {
    let n = c as u32;
    ||| 0x9 <= n <= 0xd
    ||| 0x2000 <= n <= 0x200a
    ||| n == 0x20 || n == 0x85 || n == 0xa0 || n == 0x1680
    ||| n == 0x2028 || n == 0x2029 || n == 0x202f || n == 0x205f || n == 0x3000
}

/// `char::is_whitespace`: whether a character has the Unicode property `White_Space`.
pub assume_specification[ char::is_whitespace ](c: char) -> (res: bool)
    ensures
        res == is_white_space(c),
;

/// `String::push`: appends one character.
pub assume_specification[ String::push ](s: &mut String, c: char)
    ensures
        final(s)@ == old(s)@.push(c),
;

/// No bytes at all.
pub open spec fn no_bytes() -> Seq<u8> {
    Seq::empty()
}

/// `md5::Context`, an MD5 computation in progress.
#[verifier::external_type_specification]
#[verifier::external_body]
pub struct ExMd5Context(Md5Context);

/// The bytes that an MD5 computation was given so far.
pub uninterp spec fn md5_fed(ctx: Md5Context) -> Seq<u8>;

/// The MD5 digest of some bytes, as `md5::Context::compute` gives it.
pub uninterp spec fn md5_of(bytes: Seq<u8>) -> Seq<u8>;

/// `md5::Context::new`: a computation that was given nothing yet.
#[verifier::external_body]
pub(crate) fn md5_new() -> (res: Md5Context)
    ensures
        md5_fed(res) == no_bytes(),
{
    Md5Context::new()
}

/// `md5::Context::consume`: gives the computation more bytes.
#[verifier::external_body]
pub(crate) fn md5_consume(ctx: &mut Md5Context, data: &[u8])
    ensures
        md5_fed(*final(ctx)) == md5_fed(*old(ctx)) + data@,
{
    ctx.consume(data);
}

/// `md5::Context::compute`, on a copy: the digest of the bytes given so far.
#[verifier::external_body]
pub(crate) fn md5_digest(ctx: &Md5Context) -> (res: Vec<u8>)
    ensures
        res@ == md5_of(md5_fed(*ctx)),
{
    ctx.clone().compute().to_vec()
}

/// `sha1::Sha1`, a SHA-1 computation in progress.
#[verifier::external_type_specification]
#[verifier::external_body]
pub struct ExSha1(Sha1);

/// The bytes that a SHA-1 computation was given so far.
pub uninterp spec fn sha1_fed(ctx: Sha1) -> Seq<u8>;

/// The SHA-1 digest of some bytes, as `Digest::finalize` gives it.
pub uninterp spec fn sha1_of(bytes: Seq<u8>) -> Seq<u8>;

/// The most bytes of which a SHA-1 digest can be computed: their number of bits has to fit
/// into 64 bits.
pub open spec fn most_hashed() -> int {
    0x1fff_ffff_ffff_ffff
}

/// `Sha1::default`: a computation that was given nothing yet.
#[verifier::external_body]
pub(crate) fn sha1_new() -> (res: Sha1)
    ensures
        sha1_fed(res) == no_bytes(),
{
    Sha1::default()
}

/// `Digest::update`: gives the computation more bytes.
#[verifier::external_body]
pub(crate) fn sha1_update(ctx: &mut Sha1, data: &[u8])
    requires
        sha1_fed(*old(ctx)).len() + data@.len() <= most_hashed(),
    ensures
        sha1_fed(*final(ctx)) == sha1_fed(*old(ctx)) + data@,
{
    ctx.update(data);
}

/// `Digest::finalize`, on a copy: the digest of the bytes given so far.
#[verifier::external_body]
pub(crate) fn sha1_digest(ctx: &Sha1) -> (res: Vec<u8>)
    requires
        sha1_fed(*ctx).len() <= most_hashed(),
    ensures
        res@ == sha1_of(sha1_fed(*ctx)),
{
    ctx.clone().finalize().to_vec()
}

/// `bytes::BytesMut`, a buffer that bytes are put into at the end and taken from at the front.
#[verifier::external_type_specification]
#[verifier::external_body]
pub struct ExBytesMut(BytesMut);

/// The bytes in a buffer.
pub uninterp spec fn buffered(buf: BytesMut) -> Seq<u8>;

/// `BytesMut::new`: an empty buffer.
#[verifier::external_body]
pub(crate) fn buffer_new() -> (res: BytesMut)
    ensures
        buffered(res) == no_bytes(),
{
    BytesMut::new()
}

/// `BufMut::put`: appends bytes, as far as there is memory.
#[verifier::external_body]
pub(crate) fn buffer_put(buf: &mut BytesMut, data: &[u8])
    requires
        buffered(*old(buf)).len() + data@.len() <= isize::MAX,
    ensures
        buffered(*final(buf)) == buffered(*old(buf)) + data@,
{
    buf.put(data);
}

/// `BytesMut::len`: how many bytes there are.
#[verifier::external_body]
pub(crate) fn buffer_len(buf: &BytesMut) -> (res: usize)
    ensures
        res == buffered(*buf).len(),
{
    buf.len()
}

/// `BytesMut::split_to`: takes the first `at` bytes out. It panics if there are fewer.
#[verifier::external_body]
pub(crate) fn buffer_split_to(buf: &mut BytesMut, at: usize) -> (res: Vec<u8>)
    requires
        at <= buffered(*old(buf)).len(),
    ensures
        res@ == buffered(*old(buf)).take(at as int),
        buffered(*final(buf)) == buffered(*old(buf)).skip(at as int),
{
    buf.split_to(at).to_vec()
}

/// The latest time that a date can be given for, in milliseconds since 1970: the end of the
/// year 262142.
pub open spec fn latest_millis() -> int {
    8_210_266_876_799_999
}

/// `DateTime::from` and `DateTime::timestamp_millis`: milliseconds since 1970 by the clock, below
/// zero for a clock that is set to a time before.
#[verifier::external_body]
pub(crate) fn clock_millis() -> (res: i64) {
    DateTime::<Utc>::from(std::time::SystemTime::now()).timestamp_millis()
}

/// The date and time at `millis` milliseconds since 1970, UTC, in the given pattern, as
/// `DateTime::format` writes it.
pub uninterp spec fn date_text(millis: int, pattern: Seq<char>) -> Seq<char>;

/// The pattern for the dates in requests to the drive.
pub open spec fn http_date_pattern() -> Seq<char> {
    "%a, %d %b %Y %H:%M:%S GMT"@
}

/// `DateTime::from_timestamp_millis` and `DateTime::format`: the date and time in the given
/// pattern, named [`date_text`]. The first knows no time after [`latest_millis`], and writing
/// out the second panics on a pattern that is none.
#[verifier::external_body]
pub(crate) fn format_date(millis: i64, pattern: &str) -> (res: String)
    requires
        0 <= millis <= latest_millis(),
        pattern@ == http_date_pattern(),
    ensures
        res@ == date_text(millis as int, pattern@),
{
    let time: DateTime<Utc> = DateTime::from_timestamp_millis(millis).unwrap();
    time.format(pattern).to_string()
}

/// The pairs of the query of a URL, percent-decoded, or `None` for a text that is no URL, as
/// `Url::parse` and `Url::query_pairs` find them.
pub uninterp spec fn url_query(url: Seq<char>) -> Option<Seq<(Seq<char>, Seq<char>)>>;

/// What a list of pairs says.
pub open spec fn pairs_view(pairs: Seq<(String, String)>) -> Seq<(Seq<char>, Seq<char>)> {
    pairs.map_values(|p: (String, String)| (p.0@, p.1@))
}

/// `Url::parse` and `Url::query_pairs`: the pairs of the query of a URL, named [`url_query`].
#[verifier::external_body]
pub(crate) fn query_pairs(url: &str) -> (res: Option<Vec<(String, String)>>)
    ensures
        res is Some == url_query(url@) is Some,
        res matches Some(pairs) ==> Some(pairs_view(pairs@)) == url_query(url@),
{
    match url::Url::parse(url) {
        Ok(u) => Some(u.query_pairs().map(|(k, v)| (k.into_owned(), v.into_owned())).collect()),
        Err(_) => None,
    }
}

}
