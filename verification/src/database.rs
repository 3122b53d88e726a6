use crate::text::same_text;
use vstd::prelude::*;

verus! {

/// One tracked series: what is known of it and what has been fetched for it.
#[derive(Debug, Clone)]
pub struct Bangumi {
    pub id: u32,
    pub title: String,
    pub weekday: u8,
    pub poster_url: String,
    pub downloaded: Vec<String>,
    pub rss_url: String,
    pub enabled: bool,
    pub not_contains: Vec<String>,
}

/// The mathematical content of a `Bangumi`.
pub struct Series {
    pub id: u32,
    pub title: Seq<char>,
    pub weekday: u8,
    pub poster_url: Seq<char>,
    pub downloaded: Seq<Seq<char>>,
    pub rss_url: Seq<char>,
    pub enabled: bool,
    pub not_contains: Seq<Seq<char>>,
}

impl View for Bangumi {
    type V = Series;

    open spec fn view(&self) -> Series {
        Series {
            id: self.id,
            title: self.title@,
            weekday: self.weekday,
            poster_url: self.poster_url@,
            downloaded: self.downloaded.deep_view(),
            rss_url: self.rss_url@,
            enabled: self.enabled,
            not_contains: self.not_contains.deep_view(),
        }
    }
}

/// What the store refuses.
#[derive(Debug, Clone, Copy, PartialEq, Eq, Structural)]
pub enum DatabaseError {
    BangumiNotFound,
    BangumiExisted,
}

impl DatabaseError {
    /// What the error says in words.
    pub open spec fn text(self) -> Seq<char> {
        match self {
            DatabaseError::BangumiNotFound => "Bangumi not found"@,
            DatabaseError::BangumiExisted => "Bangumi existed"@,
        }
    }

    /// What the error says in words.
    pub fn message(&self) -> (r: String)
        ensures
            r@ == self.text(),
    {
        match self {
            DatabaseError::BangumiNotFound => "Bangumi not found".to_owned(),
            DatabaseError::BangumiExisted => "Bangumi existed".to_owned(),
        }
    }
}

/// The hashes of a record once `hash` counts as fetched: it is added at
/// the end unless it is there already.
pub open spec fn with_hash(downloaded: Seq<Seq<char>>, hash: Seq<char>) -> Seq<Seq<char>> {
    if downloaded.contains(hash) {
        downloaded
    } else {
        downloaded.push(hash)
    }
}

/// Whether `hash` is among `hashes`.
pub fn holds_hash(hashes: &Vec<String>, hash: &str) -> (b: bool)
    ensures
        b == hashes.deep_view().contains(hash@),
{
    let ghost all = hashes.deep_view();
    let mut i: usize = 0;
    while i < hashes.len()
        invariant
            i <= hashes.len(),
            all == hashes.deep_view(),
            forall|k: int| 0 <= k < i ==> all[k] != hash@,
        decreases hashes.len() - i,
    {
        if same_text(hashes[i].as_str(), hash) {
            assert(all[i as int] == hash@);
            return true;
        }
        i += 1;
    }
    false
}

impl Bangumi {
    /// Whether the release with this hash has been fetched.
    pub fn is_downloaded(&self, hash: &str) -> (b: bool)
        ensures
            b == self@.downloaded.contains(hash@),
    {
        holds_hash(&self.downloaded, hash)
    }

    /// Counts the release with this hash as fetched. Returns whether the
    /// record changed: a hash is kept once.
    pub fn add_downloaded(&mut self, hash: &str) -> (changed: bool)
        ensures
            changed == !old(self)@.downloaded.contains(hash@),
            final(self)@ == (Series {
                downloaded: with_hash(old(self)@.downloaded, hash@),
                ..old(self)@
            }),
    {
        if holds_hash(&self.downloaded, hash) {
            false
        } else {
            let ghost before = self.downloaded.deep_view();
            self.downloaded.push(hash.to_owned());
            assert(self.downloaded.deep_view() =~= before.push(hash@));
            true
        }
    }
}

/// Whether a record may be inserted: not where the store holds one with
/// the same id already.
pub fn check_insert(found: &Option<Bangumi>) -> (r: Result<(), DatabaseError>)
    ensures
        r == if found is Some {
            Err::<(), DatabaseError>(DatabaseError::BangumiExisted)
        } else {
            Ok::<(), DatabaseError>(())
        },
{
    match found {
        Some(_) => Err(DatabaseError::BangumiExisted),
        None => Ok(()),
    }
}

/// The record that a change is meant for, or `BangumiNotFound`.
pub fn require_found(found: Option<Bangumi>) -> (r: Result<Bangumi, DatabaseError>)
    ensures
        r == match found {
            Some(record) => Ok::<Bangumi, DatabaseError>(record),
            None => Err::<Bangumi, DatabaseError>(DatabaseError::BangumiNotFound),
        },
{
    match found {
        Some(record) => Ok(record),
        None => Err(DatabaseError::BangumiNotFound),
    }
}

/// Counting a hash as fetched never loses one, and counting it again
/// changes nothing.
pub proof fn hashes_only_grow(downloaded: Seq<Seq<char>>, hash: Seq<char>)
    ensures
        forall|h: Seq<char>| downloaded.contains(h) ==> with_hash(downloaded, hash).contains(h),
        with_hash(downloaded, hash).contains(hash),
        with_hash(with_hash(downloaded, hash), hash) == with_hash(downloaded, hash),
        downloaded.len() <= with_hash(downloaded, hash).len() <= downloaded.len() + 1,
{
    let after = with_hash(downloaded, hash);
    if !downloaded.contains(hash) {
        assert(after[downloaded.len() as int] == hash);
        assert forall|h: Seq<char>| downloaded.contains(h) implies after.contains(h) by {
            let k = choose|k: int| 0 <= k < downloaded.len() && downloaded[k] == h;
            assert(after[k] == h);
        }
    }
}

} // verus!
