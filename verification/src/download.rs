//! Reading a file that a client has open.
use vstd::prelude::*;
use crate::clock::now_millis;
#[allow(unused_imports)]
use crate::clock::datable_of;
use crate::error::FsError;
#[allow(unused_imports)]
use crate::file::FileView;
use crate::number::parse_u64;
#[allow(unused_imports)]
use crate::number::parsed_u64;
#[allow(unused_imports)]
use crate::outside::{pairs_view, query_pairs, url_query};
use crate::text::same_text;
use crate::upload::QuarkDavFile;
#[allow(unused_imports)]
use crate::upload::DavFileView;

verus! {

/// Seconds before its time at which a download URL is no longer used.
pub const MARGIN: u64 = 60;

/// The time that the first readable `Expires` of a query gives, in seconds since 1970.
pub open spec fn expires_in(pairs: Seq<(Seq<char>, Seq<char>)>) -> Option<u64>
    decreases pairs.len(),
{
    if pairs.len() == 0 {
        None
    } else if pairs[0].0 == "Expires"@ && parsed_u64(pairs[0].1) is Some {
        parsed_u64(pairs[0].1)
    } else {
        expires_in(pairs.skip(1))
    }
}

/// Whether a URL with this query is expired at a time, given in seconds since 1970. Text that
/// is no URL never expires, and neither does a URL that gives no time.
pub open spec fn expired_at(query: Option<Seq<(Seq<char>, Seq<char>)>>, now: u64) -> bool {
    query matches Some(pairs) && expires_in(pairs) matches Some(expires) && now + MARGIN >= expires
}

/// The pairs of a query that may be missing.
pub open spec fn opt_pairs_view(query: Option<Vec<(String, String)>>) -> Option<
    Seq<(Seq<char>, Seq<char>)>,
> {
    match query {
        Some(pairs) => Some(pairs_view(pairs@)),
        None => None,
    }
}

/// Whether a URL with this query is expired at a time, given in seconds since 1970.
pub fn is_query_expired(query: Option<Vec<(String, String)>>, now: u64) -> (res: bool)
    ensures
        res == expired_at(opt_pairs_view(query), now),
{
    let pairs = match query {
        None => {
            return false;
        },
        Some(pairs) => pairs,
    };
    let mut i: usize = 0;
    let ghost all = pairs_view(pairs@);
    assert(all.skip(0) =~= all);
    while i < pairs.len()
        invariant
            i <= pairs.len(),
            all == pairs_view(pairs@),
            opt_pairs_view(query) == Some(all),
            expires_in(all.skip(i as int)) == expires_in(all),
        decreases pairs.len() - i,
    {
        assert(all.skip(i as int)[0] == all[i as int]);
        if same_text(pairs[i].0.as_str(), "Expires") {
            if let Some(expires) = parse_u64(pairs[i].1.as_str()) {
                return expires <= MARGIN || now >= expires - MARGIN;
            }
        }
        assert(all.skip(i as int).skip(1) =~= all.skip(i + 1));
        i += 1;
    }
    false
}

/// Whether a URL is expired at a time, given in seconds since 1970.
pub fn is_url_expired_at(url: &str, now: u64) -> (res: bool)
    ensures
        res == expired_at(url_query(url@), now),
{
    is_query_expired(query_pairs(url), now)
}

/// Whether a URL is expired by the clock.
pub fn is_url_expired(url: &str) -> (res: bool)
    ensures
        exists|reading: i64|
            res == expired_at(url_query(url@), (#[trigger] datable_of(reading) / 1000) as u64),
{
    is_url_expired_at(url, now_millis() / 1000)
}

/// From where a position is counted.
#[derive(Debug, Clone, Copy)]
pub enum SeekFrom {
    Start(u64),
    End(i64),
    Current(i64),
}

/// The position that a seek leads to. Positions are counted modulo 2 to the power of 64.
pub open spec fn sought(size: u64, current: u64, pos: SeekFrom) -> int {
    match pos {
        SeekFrom::Start(n) => n as int,
        SeekFrom::End(n) => (size + n) % 0x1_0000_0000_0000_0000,
        SeekFrom::Current(n) => (current + n) % 0x1_0000_0000_0000_0000,
    }
}

fn moved(base: u64, by: i64) -> (res: u64)
    ensures
        res == (base + by) % 0x1_0000_0000_0000_0000,
{
    if by >= 0 {
        base.wrapping_add(by as u64)
    } else {
        base.wrapping_sub((-(by as i128)) as u64)
    }
}

/// What to do next to read from a file; texts are of type `T`.
pub enum ReadAction<T> {
    /// Ask for a URL to download from.
    GetDownloadUrl { fid: T },
    /// Download so many bytes from this position on.
    Download { url: T, pos: u64, count: usize },
    /// Nothing more; reading failed.
    Failed(FsError),
}

impl View for ReadAction<String> {
    type V = ReadAction<Seq<char>>;

    open spec fn view(&self) -> ReadAction<Seq<char>> {
        match *self {
            ReadAction::GetDownloadUrl { fid } => ReadAction::GetDownloadUrl { fid: fid@ },
            ReadAction::Download { url, pos, count } => ReadAction::Download {
                url: url@,
                pos,
                count,
            },
            ReadAction::Failed(e) => ReadAction::Failed(e),
        }
    }
}

/// How reading goes on with a URL.
pub open spec fn read_from(url: Seq<char>, pos: u64, count: usize) -> ReadAction<Seq<char>> {
    if url.len() > 0 {
        ReadAction::Download { url, pos, count }
    } else {
        ReadAction::Failed(FsError::NotFound)
    }
}

/// How reading begins: with the URL that the file has, as long as it can be used, and with a
/// new one otherwise. A file that is being uploaded cannot be read.
pub open spec fn read_begun(v: DavFileView, count: usize, now: u64) -> ReadAction<Seq<char>> {
    if v.file.fid.len() == 0 {
        ReadAction::Failed(FsError::NotFound)
    } else {
        match v.file.download_url {
            Some(url) => if expired_at(url_query(url), now) {
                ReadAction::GetDownloadUrl { fid: v.file.fid }
            } else {
                read_from(url, v.current_pos, count)
            },
            None => ReadAction::GetDownloadUrl { fid: v.file.fid },
        }
    }
}

impl QuarkDavFile {
    /// Moves the position in the file.
    pub fn seek(&mut self, pos: SeekFrom) -> (res: u64)
        ensures
            res == sought(old(self)@.file.size, old(self)@.current_pos, pos),
            final(self)@ == (DavFileView { current_pos: res, ..old(self)@ }),
            old(self).in_step() ==> final(self).in_step(),
    {
        let new_pos: u64 = match pos {
            SeekFrom::Start(n) => n,
            SeekFrom::End(n) => moved(self.file.size, n),
            SeekFrom::Current(n) => moved(self.current_pos, n),
        };
        self.current_pos = new_pos;
        new_pos
    }

    /// Begins to read; `now` is the time in seconds since 1970.
    pub fn read_bytes(&self, count: usize, now: u64) -> (res: ReadAction<String>)
        ensures
            res@ == read_begun(self@, count, now),
    {
        if self.file.fid.as_str().unicode_len() == 0 {
            return ReadAction::Failed(FsError::NotFound);
        }
        if let Some(url) = &self.file.download_url {
            if !is_url_expired_at(url.as_str(), now) {
                return self.read_at(url.clone(), count);
            }
        }
        ReadAction::GetDownloadUrl { fid: self.file.fid.clone() }
    }

    fn read_at(&self, url: String, count: usize) -> (res: ReadAction<String>)
        ensures
            res@ == read_from(url@, self@.current_pos, count),
    {
        if url.as_str().unicode_len() > 0 {
            ReadAction::Download { url, pos: self.current_pos, count }
        } else {
            ReadAction::Failed(FsError::NotFound)
        }
    }

    /// Goes on with reading from a new URL, which the file keeps.
    pub fn with_download_url(&mut self, url: String, count: usize) -> (res: ReadAction<String>)
        ensures
            res@ == read_from(url@, old(self)@.current_pos, count),
            final(self)@ == (DavFileView {
                file: FileView { download_url: Some(url@), ..old(self)@.file },
                ..old(self)@
            }),
            old(self).in_step() ==> final(self).in_step(),
    {
        self.file.download_url = Some(url.clone());
        self.read_at(url, count)
    }

    /// So many bytes were read.
    pub fn was_read(&mut self, len: usize)
        requires
            old(self)@.current_pos + len <= u64::MAX,
        ensures
            final(self)@ == (DavFileView {
                current_pos: (old(self)@.current_pos + len) as u64,
                ..old(self)@
            }),
            old(self).in_step() ==> final(self).in_step(),
    {
        self.current_pos = self.current_pos + len as u64;
    }

    /// The file to ask a URL for, to send the client there. A file that is being uploaded has
    /// none.
    pub fn redirect_url(&self) -> (res: Result<String, FsError>)
        ensures
            if self@.file.fid.len() == 0 {
                res == Err::<String, FsError>(FsError::NotFound)
            } else {
                res matches Ok(fid) && fid@ == self@.file.fid
            },
    {
        if self.file.fid.as_str().unicode_len() == 0 {
            Err(FsError::NotFound)
        } else {
            Ok(self.file.fid.clone())
        }
    }
}

/// A URL that gives a time is usable up to a margin before that time, and never again after.
pub proof fn law_url_expires_once(
    pairs: Seq<(Seq<char>, Seq<char>)>,
    expires: u64,
    now: u64,
    later: u64,
)
    requires
        expires_in(pairs) == Some(expires),
        now <= later,
    ensures
        expired_at(Some(pairs), now) <==> now + MARGIN >= expires,
        expired_at(Some(pairs), now) ==> expired_at(Some(pairs), later),
{
}

/// What gives no time never expires.
pub proof fn law_url_without_a_time_never_expires(
    query: Option<Seq<(Seq<char>, Seq<char>)>>,
    now: u64,
)
    requires
        query matches Some(pairs) ==> expires_in(pairs) is None,
    ensures
        !expired_at(query, now),
{
}

/// A seek forwards and the same way back leads to where it began.
pub proof fn law_seek_and_back(size: u64, current: u64, by: i64)
    requires
        by > i64::MIN,
    ensures
        sought(
            size,
            sought(size, current, SeekFrom::Current(by)) as u64,
            SeekFrom::Current((-by) as i64),
        ) == current,
{
}

/// Reading asks for a download only from where the file stands, and for as many bytes as were
/// asked for, whether the URL was kept or is new. It does so whenever there is a file to read and
/// a URL that is good, asks for a new URL where there is none that is, and never fails otherwise
/// than by not finding the file.
pub proof fn law_reading_asks_for_what_was_asked(
    v: DavFileView,
    fresh_url: Seq<char>,
    asked: usize,
    now: u64,
)
    ensures
        match read_begun(v, asked, now) {
            ReadAction::Download { url, pos, count } => {
                &&& pos == v.current_pos
                &&& count == asked
                &&& v.file.download_url == Some(url)
                &&& url.len() > 0
                &&& v.file.fid.len() > 0
                &&& !expired_at(url_query(url), now)
            },
            ReadAction::GetDownloadUrl { fid } => {
                &&& fid == v.file.fid
                &&& fid.len() > 0
                &&& v.file.download_url matches Some(url) ==> expired_at(url_query(url), now)
            },
            ReadAction::Failed(e) => {
                &&& e == FsError::NotFound
                &&& v.file.fid.len() == 0 || (v.file.download_url == Some(Seq::<char>::empty())
                    && !expired_at(url_query(Seq::empty()), now))
            },
        },
        match read_from(fresh_url, v.current_pos, asked) {
            ReadAction::Download { url, pos, count } => {
                &&& pos == v.current_pos
                &&& count == asked
                &&& url == fresh_url
                &&& url.len() > 0
            },
            ReadAction::GetDownloadUrl { .. } => false,
            ReadAction::Failed(e) => e == FsError::NotFound && fresh_url.len() == 0,
        },
{
    if let Some(url) = v.file.download_url {
        if url.len() == 0 {
            assert(url =~= Seq::<char>::empty());
        }
    }
}

/// Reads one after the other leave no gap and do not overlap: where the first was answered with
/// `len` bytes, and the file stands that much further for it, the next begins right behind them.
pub proof fn law_reads_follow_on_one_another(
    v: DavFileView,
    w: DavFileView,
    a: usize,
    b: usize,
    len: usize,
    now: u64,
)
    requires
        v.current_pos + len <= u64::MAX,
        w == (DavFileView { current_pos: (v.current_pos + len) as u64, ..v }),
    ensures
        (read_begun(v, a, now), read_begun(w, b, now)) matches (
            ReadAction::Download { url: first_url, pos: first, .. },
            ReadAction::Download { url: next_url, pos: next, .. },
        ) ==> next == first + len && next_url == first_url,
        read_begun(v, a, now) is Download <==> read_begun(w, b, now) is Download,
{
}

/// Whether the pair at `i` is the first `Expires` of a query that can be read as a time.
pub open spec fn is_first_readable(pairs: Seq<(Seq<char>, Seq<char>)>, i: int) -> bool {
    &&& 0 <= i < pairs.len()
    &&& pairs[i].0 == "Expires"@
    &&& parsed_u64(pairs[i].1) is Some
    &&& forall|j: int|
        0 <= j < i ==> (#[trigger] pairs[j]).0 != "Expires"@ || parsed_u64(pairs[j].1) is None
}

/// A query gives a time by its first readable `Expires`, and is expired from a minute before that
/// time on. Nothing else makes it expire.
pub proof fn law_expiry_is_by_the_first_readable_time(
    pairs: Seq<(Seq<char>, Seq<char>)>,
    now: u64,
)
    ensures
        expired_at(Some(pairs), now) <==> exists|i: int| #[trigger]
            is_first_readable(pairs, i) && parsed_u64(pairs[i].1)->0 <= now + 60,
        !expired_at(None, now),
    decreases pairs.len(),
{
    if pairs.len() > 0 {
        let rest = pairs.skip(1);
        assert(forall|i: int| 0 <= i < rest.len() ==> #[trigger] rest[i] == pairs[i + 1]);
        law_expiry_is_by_the_first_readable_time(rest, now);
        if pairs[0].0 == "Expires"@ && parsed_u64(pairs[0].1) is Some {
            assert(is_first_readable(pairs, 0));
            assert forall|i: int| #[trigger] is_first_readable(pairs, i) implies i == 0 by {
                if i > 0 {
                    assert(pairs[0].0 != "Expires"@ || parsed_u64(pairs[0].1) is None);
                }
            }
        } else {
            assert forall|i: int| #[trigger] is_first_readable(rest, i) implies is_first_readable(
                pairs,
                i + 1,
            ) by {
                assert forall|j: int| 0 <= j < i + 1 implies (#[trigger] pairs[j]).0 != "Expires"@
                    || parsed_u64(pairs[j].1) is None by {
                    if j > 0 {
                        assert(rest[j - 1] == pairs[j]);
                    }
                }
            }
            assert forall|i: int| #[trigger] is_first_readable(pairs, i) implies is_first_readable(
                rest,
                i - 1,
            ) by {
                assert(rest[i - 1] == pairs[i]);
                assert forall|j: int| 0 <= j < i - 1 implies (#[trigger] rest[j]).0 != "Expires"@
                    || parsed_u64(rest[j].1) is None by {
                    assert(pairs[j + 1] == rest[j]);
                }
            }
        }
    }
}

/// A seek leads to where it says: so far from the beginning, from the end, or from the place
/// before. Only where that is before the beginning or past the largest position does it wrap.
pub proof fn law_seek_leads_where_it_says(size: u64, current: u64, to: u64, by: i64)
    ensures
        sought(size, current, SeekFrom::Start(to)) == to,
        0 <= size + by <= u64::MAX ==> sought(size, current, SeekFrom::End(by)) == size + by,
        0 <= current + by <= u64::MAX ==> sought(size, current, SeekFrom::Current(by)) == current
            + by,
        0 <= sought(size, current, SeekFrom::End(by)) <= u64::MAX,
        0 <= sought(size, current, SeekFrom::Current(by)) <= u64::MAX,
        size + by < 0 ==> sought(size, current, SeekFrom::End(by)) == size + by
            + 0x1_0000_0000_0000_0000,
        current + by < 0 ==> sought(size, current, SeekFrom::Current(by)) == current + by
            + 0x1_0000_0000_0000_0000,
        size + by > u64::MAX ==> sought(size, current, SeekFrom::End(by)) == size + by
            - 0x1_0000_0000_0000_0000,
        current + by > u64::MAX ==> sought(size, current, SeekFrom::Current(by)) == current + by
            - 0x1_0000_0000_0000_0000,
{
}

/// An action says what it holds.
pub proof fn law_read_action_says_what_it_holds(action: ReadAction<String>)
    ensures
        match action {
            ReadAction::GetDownloadUrl { fid } => action@ == (ReadAction::GetDownloadUrl {
                fid: fid@,
            }),
            ReadAction::Download { url, pos, count } => action@ == (ReadAction::Download {
                url: url@,
                pos,
                count,
            }),
            ReadAction::Failed(e) => action@ == ReadAction::<Seq<char>>::Failed(e),
        },
{
}

}
