use crate::database::{holds_hash, Bangumi};
use crate::mikan::mikan_rss::{file_part, Episode, RssBangumi, RssEpisode};
use crate::text::{
    after_last, chars_of, push_number, signed_text, stands_at, string_of, two_places,
};
use crate::title_parser::{reading_of, ParseError, ParseResult, ParsedTitle, TitleGrammar};
use vstd::prelude::*;

verus! {

/// What a poll is run with: where files go and whom to tell.
#[derive(Debug, Clone)]
pub struct Settings {
    /// Where release descriptors are kept while they are handed on.
    pub tmp_dir: String,
    /// The root of the library.
    pub lib_dir: String,
    /// Whom to tell of each release that was filed.
    pub user_ids: Vec<u64>,
}

/// One release to fetch and file.
#[derive(Debug, Clone, PartialEq, Eq)]
pub struct Job {
    /// The entry's place in the feed, the newest entry being 0.
    pub entry: usize,
    /// The hash that the feed gives: the key under which the release is
    /// counted as fetched.
    pub feed_hash: String,
    /// Where the descriptor is fetched from.
    pub torrent_url: String,
    /// Where the descriptor is kept.
    pub torrent_path: String,
    /// The directory that the release goes to.
    pub save_dir: String,
    /// The name that the release gets, without extension.
    pub save_name: String,
}

/// The mathematical content of a `Job`.
pub struct JobView {
    pub entry: int,
    pub feed_hash: Seq<char>,
    pub torrent_url: Seq<char>,
    pub torrent_path: Seq<char>,
    pub save_dir: Seq<char>,
    pub save_name: Seq<char>,
}

impl DeepView for Job {
    type V = JobView;

    open spec fn deep_view(&self) -> JobView {
        JobView {
            entry: self.entry as int,
            feed_hash: self.feed_hash@,
            torrent_url: self.torrent_url@,
            torrent_path: self.torrent_path@,
            save_dir: self.save_dir@,
            save_name: self.save_name@,
        }
    }
}

/// Whether `part` stands somewhere in `text`. The empty text stands in any.
pub open spec fn occurs_in(text: Seq<char>, part: Seq<char>) -> bool {
    exists|i: int| 0 <= i && i + part.len() <= text.len() && #[trigger] text.subrange(
        i,
        i + part.len(),
    ) == part
}

/// Whether `title` holds one of the texts in `excluded`.
pub open spec fn is_excluded(title: Seq<char>, excluded: Seq<Seq<char>>) -> bool {
    exists|k: int| 0 <= k < excluded.len() && occurs_in(title, #[trigger] excluded[k])
}

/// Whether an entry is passed over: its title holds an excluded text, the
/// feed gives no hash for it, or its hash counts as fetched.
pub open spec fn is_skipped(
    episode: Episode,
    excluded: Seq<Seq<char>>,
    fetched: Seq<Seq<char>>,
) -> bool {
    is_excluded(episode.title, excluded) || episode.torrent_hash.len() == 0 || fetched.contains(
        episode.torrent_hash,
    )
}

/// Whether `part` stands somewhere in `text`.
pub fn contains_text(text: &str, part: &str) -> (b: bool)
    ensures
        b == occurs_in(text@, part@),
{
    let v = chars_of(text);
    let p = chars_of(part);
    if p.len() > v.len() {
        return false;
    }
    let last: usize = v.len() - p.len();
    let mut i: usize = 0;
    loop
        invariant
            i <= last,
            last == v.len() - p.len(),
            v@ == text@,
            p@ == part@,
            forall|k: int| 0 <= k < i ==> #[trigger] v@.subrange(k, k + p.len()) != p@,
        ensures
            forall|k: int| 0 <= k <= last ==> #[trigger] v@.subrange(k, k + p.len()) != p@,
        decreases last - i,
    {
        if stands_at(&v, &p, i) {
            return true;
        }
        if i == last {
            break ;
        }
        i += 1;
    }
    false
}

/// Whether `title` holds one of the texts in `excluded`.
pub fn holds_excluded(title: &str, excluded: &Vec<String>) -> (b: bool)
    ensures
        b == is_excluded(title@, excluded.deep_view()),
{
    let ghost all = excluded.deep_view();
    let mut k: usize = 0;
    while k < excluded.len()
        invariant
            k <= excluded.len(),
            all == excluded.deep_view(),
            forall|j: int| 0 <= j < k ==> !occurs_in(title@, #[trigger] all[j]),
        decreases excluded.len() - k,
    {
        if contains_text(title, excluded[k].as_str()) {
            assert(occurs_in(title@, all[k as int]));
            return true;
        }
        k += 1;
    }
    false
}

/// Whether an entry of the feed is passed over.
pub fn should_skip(episode: &RssEpisode, excluded: &Vec<String>, fetched: &Vec<String>) -> (b: bool)
    ensures
        b == is_skipped(episode.deep_view(), excluded.deep_view(), fetched.deep_view()),
{
    holds_excluded(episode.title.as_str(), excluded) || episode.torrent_hash.as_str().is_empty()
        || holds_hash(fetched, episode.torrent_hash.as_str())
}

/// Where what is fetched from an address is kept: the scratch directory,
/// `/`, and the last segment of the address.
pub open spec fn descriptor_path(tmp_dir: Seq<char>, url: Seq<char>) -> Seq<char> {
    tmp_dir + seq!['/'] + url.skip(file_part(url))
}

/// Where what is fetched from an address is kept.
pub fn scratch_path(tmp_dir: &str, url: &str) -> (r: String)
    ensures
        r@ == descriptor_path(tmp_dir@, url@),
{
    let v = chars_of(url);
    let start = after_last(&v, '/', v.len());
    let file = string_of(&v, start, v.len());
    let mut r = tmp_dir.to_owned();
    r.push('/');
    r.append(file.as_str());
    assert(r@ =~= descriptor_path(tmp_dir@, url@));
    r
}

/// The directory of a season in the library: root, series, `Season` and its number.
pub open spec fn season_dir(lib_dir: Seq<char>, series: Seq<char>, season: int) -> Seq<char> {
    lib_dir + seq!['/'] + series + "/Season "@ + signed_text(season)
}

/// The name of an episode in the library: the series, then season and
/// episode as `S01E02`, each filled to two places.
pub open spec fn episode_name(series: Seq<char>, season: int, episode: int) -> Seq<char> {
    series + " S"@ + two_places(season) + seq!['E'] + two_places(episode)
}

/// The job for the entry at `entry` of a feed, its title read as `parsed`.
pub open spec fn job_for(
    entry: int,
    episode: Episode,
    parsed: ParsedTitle,
    series: Seq<char>,
    tmp_dir: Seq<char>,
    lib_dir: Seq<char>,
) -> JobView {
    JobView {
        entry,
        feed_hash: episode.torrent_hash,
        torrent_url: episode.torrent_url,
        torrent_path: descriptor_path(tmp_dir, episode.torrent_url),
        save_dir: season_dir(lib_dir, series, parsed.season),
        save_name: episode_name(series, parsed.season, parsed.episode),
    }
}

/// Builds the job for one entry of a feed.
pub fn make_job(
    entry: usize,
    episode: &RssEpisode,
    parsed: &ParseResult,
    series: &str,
    tmp_dir: &str,
    lib_dir: &str,
) -> (job: Job)
    ensures
        job.deep_view() == job_for(
            entry as int,
            episode.deep_view(),
            parsed@,
            series@,
            tmp_dir@,
            lib_dir@,
        ),
{
    let torrent_path = scratch_path(tmp_dir, episode.torrent_url.as_str());
    let mut save_dir = lib_dir.to_owned();
    save_dir.push('/');
    save_dir.append(series);
    save_dir.append("/Season ");
    push_number(&mut save_dir, parsed.season as i16, false);
    assert(save_dir@ =~= season_dir(lib_dir@, series@, parsed.season as int));
    let mut save_name = series.to_owned();
    save_name.append(" S");
    push_number(&mut save_name, parsed.season as i16, true);
    save_name.push('E');
    push_number(&mut save_name, parsed.episode, true);
    assert(save_name@ =~= episode_name(series@, parsed.season as int, parsed.episode as int));
    Job {
        entry,
        feed_hash: episode.torrent_hash.clone(),
        torrent_url: episode.torrent_url.clone(),
        torrent_path,
        save_dir,
        save_name,
    }
}

/// The work that one poll of a series leaves to do.
pub struct Queue {
    /// The jobs, the oldest release first.
    pub jobs: Seq<JobView>,
    /// The hashes that count as fetched once the jobs are done.
    pub fetched: Seq<Seq<char>>,
    /// Why the entries after the last job were given up, if they were.
    pub broken: Option<ParseError>,
}

/// The queue for the `n` oldest entries of a feed whose entries stand
/// newest first. Entries are taken oldest first. One that is passed over
/// leaves everything as it is; one whose title cannot be read ends the
/// queue; any other adds a job, and its hash counts as fetched for the
/// entries after it.
pub open spec fn queue_of(
    items: Seq<Episode>,
    n: int,
    series: Seq<char>,
    fetched: Seq<Seq<char>>,
    excluded: Seq<Seq<char>>,
    tmp_dir: Seq<char>,
    lib_dir: Seq<char>,
) -> Queue
    decreases n,
{
    if n <= 0 || n > items.len() {
        Queue { jobs: Seq::empty(), fetched, broken: None }
    } else {
        let before = queue_of(items, n - 1, series, fetched, excluded, tmp_dir, lib_dir);
        let entry = items.len() - n;
        if before.broken is Some || is_skipped(items[entry], excluded, before.fetched) {
            before
        } else {
            match reading_of(items[entry].title) {
                Err(e) => Queue { broken: Some(e), ..before },
                Ok(parsed) => Queue {
                    jobs: before.jobs.push(
                        job_for(entry, items[entry], parsed, series, tmp_dir, lib_dir),
                    ),
                    fetched: before.fetched.push(items[entry].torrent_hash),
                    broken: None,
                },
            }
        }
    }
}

/// The queue for a whole feed.
pub open spec fn planned(
    items: Seq<Episode>,
    series: Seq<char>,
    fetched: Seq<Seq<char>>,
    excluded: Seq<Seq<char>>,
    tmp_dir: Seq<char>,
    lib_dir: Seq<char>,
) -> Queue {
    queue_of(items, items.len() as int, series, fetched, excluded, tmp_dir, lib_dir)
}

/// Lays out the work for one series: the jobs for the entries of its feed
/// that are due, the oldest first, and the error that ended the queue. An
/// entry is left out where its title holds one of the words that the
/// record of the series excludes.
pub fn plan(
    grammar: &TitleGrammar,
    series: &Bangumi,
    tmp_dir: &str,
    lib_dir: &str,
    feed: &RssBangumi,
) -> (r: (Vec<Job>, Option<ParseError>))
    ensures
        r.0.deep_view() == planned(
            feed@.items,
            series@.title,
            series@.downloaded,
            series@.not_contains,
            tmp_dir@,
            lib_dir@,
        ).jobs,
        r.1 == planned(
            feed@.items,
            series@.title,
            series@.downloaded,
            series@.not_contains,
            tmp_dir@,
            lib_dir@,
        ).broken,
{
    let ghost items = feed@.items;
    let ghost title = series@.title;
    let ghost ex = series@.not_contains;
    let mut jobs: Vec<Job> = Vec::new();
    let mut fetched: Vec<String> = series.downloaded.clone();
    let mut broken: Option<ParseError> = None;
    let total = feed.items.len();
    let mut n: usize = 0;
    assert(jobs.deep_view() =~= Seq::<JobView>::empty());
    while n < total && broken.is_none()
        invariant
            n <= total == feed.items.len(),
            items == feed.items.deep_view(),
            title == series.title@,
            ex == series.not_contains.deep_view(),
            queue_of(items, n as int, title, series@.downloaded, ex, tmp_dir@, lib_dir@) == (Queue {
                jobs: jobs.deep_view(),
                fetched: fetched.deep_view(),
                broken,
            }),
        decreases (if broken is None { 1int } else { 0int }), total - n,
    {
        let entry: usize = total - n - 1;
        let episode = &feed.items[entry];
        if !should_skip(episode, &series.not_contains, &fetched) {
            match grammar.parse(episode.title.as_str()) {
                Err(e) => {
                    broken = Some(e);
                },
                Ok(parsed) => {
                    let ghost jobs_before = jobs.deep_view();
                    let ghost fetched_before = fetched.deep_view();
                    let job = make_job(
                        entry,
                        episode,
                        &parsed,
                        series.title.as_str(),
                        tmp_dir,
                        lib_dir,
                    );
                    let ghost added = job.deep_view();
                    jobs.push(job);
                    fetched.push(episode.torrent_hash.clone());
                    assert(jobs.deep_view() =~= jobs_before.push(added));
                    assert(fetched.deep_view() =~= fetched_before.push(
                        items[entry as int].torrent_hash,
                    ));
                },
            }
        }
        n += 1;
    }
    proof {
        queue_stays_broken(
            items,
            n as int,
            total as int,
            title,
            series@.downloaded,
            ex,
            tmp_dir@,
            lib_dir@,
        );
    }
    (jobs, broken)
}

/// Once a title could not be read, the queue for more entries is the queue
/// that broke.
proof fn queue_stays_broken(
    items: Seq<Episode>,
    n: int,
    m: int,
    series: Seq<char>,
    fetched: Seq<Seq<char>>,
    excluded: Seq<Seq<char>>,
    tmp_dir: Seq<char>,
    lib_dir: Seq<char>,
)
    requires
        0 <= n <= m <= items.len(),
        n == m || queue_of(items, n, series, fetched, excluded, tmp_dir, lib_dir).broken is Some,
    ensures
        queue_of(items, m, series, fetched, excluded, tmp_dir, lib_dir) == queue_of(
            items,
            n,
            series,
            fetched,
            excluded,
            tmp_dir,
            lib_dir,
        ),
    decreases m - n,
{
    if n < m {
        queue_stays_broken(items, n, m - 1, series, fetched, excluded, tmp_dir, lib_dir);
    }
}

/// What holds of every queue. Each job stands for an entry that was due
/// when its turn came: its title holds no excluded text, the feed gives a
/// hash for it, and that hash was not among those counted as fetched, nor
/// is it the hash of another job. The jobs stand oldest entry first.
pub proof fn queue_is_sound(
    items: Seq<Episode>,
    n: int,
    series: Seq<char>,
    fetched: Seq<Seq<char>>,
    excluded: Seq<Seq<char>>,
    tmp_dir: Seq<char>,
    lib_dir: Seq<char>,
)
    requires
        0 <= n <= items.len(),
    ensures
        ({
            let q = queue_of(items, n, series, fetched, excluded, tmp_dir, lib_dir);
            &&& q.fetched.len() == fetched.len() + q.jobs.len()
            &&& forall|k: int| 0 <= k < fetched.len() ==> q.fetched[k] == fetched[k]
            &&& forall|j: int|
                0 <= j < q.jobs.len() ==> {
                    let job = #[trigger] q.jobs[j];
                    &&& items.len() - n <= job.entry < items.len()
                    &&& reading_of(items[job.entry].title) is Ok
                    &&& job == job_for(
                        job.entry,
                        items[job.entry],
                        reading_of(items[job.entry].title)->Ok_0,
                        series,
                        tmp_dir,
                        lib_dir,
                    )
                    &&& q.fetched[fetched.len() + j] == job.feed_hash
                    &&& !is_excluded(items[job.entry].title, excluded)
                    &&& job.feed_hash.len() > 0
                    &&& !fetched.contains(job.feed_hash)
                }
            &&& forall|a: int, b: int|
                0 <= a < b < q.jobs.len() ==> {
                    &&& (#[trigger] q.jobs[a]).entry > (#[trigger] q.jobs[b]).entry
                    &&& q.jobs[a].feed_hash != q.jobs[b].feed_hash
                }
        }),
    decreases n,
{
    if n > 0 {
        queue_is_sound(items, n - 1, series, fetched, excluded, tmp_dir, lib_dir);
        let before = queue_of(items, n - 1, series, fetched, excluded, tmp_dir, lib_dir);
        let q = queue_of(items, n, series, fetched, excluded, tmp_dir, lib_dir);
        let entry = items.len() - n;
        if !(before.broken is Some || is_skipped(items[entry], excluded, before.fetched)) {
            if reading_of(items[entry].title) is Ok {
                let hash = items[entry].torrent_hash;
                let last = before.jobs.len() as int;
                assert(!before.fetched.contains(hash));
                assert forall|k: int| 0 <= k < before.fetched.len() implies before.fetched[k]
                    != hash by {
                    if before.fetched[k] == hash {
                        assert(before.fetched.contains(hash));
                    }
                }
                if fetched.contains(hash) {
                    let k = choose|k: int| 0 <= k < fetched.len() && fetched[k] == hash;
                    assert(before.fetched[k] == hash);
                }
                assert forall|j: int| 0 <= j < q.jobs.len() implies {
                    let job = #[trigger] q.jobs[j];
                    &&& items.len() - n <= job.entry < items.len()
                    &&& reading_of(items[job.entry].title) is Ok
                    &&& job == job_for(
                        job.entry,
                        items[job.entry],
                        reading_of(items[job.entry].title)->Ok_0,
                        series,
                        tmp_dir,
                        lib_dir,
                    )
                    &&& q.fetched[fetched.len() + j] == job.feed_hash
                    &&& !is_excluded(items[job.entry].title, excluded)
                    &&& job.feed_hash.len() > 0
                    &&& !fetched.contains(job.feed_hash)
                } by {
                    if j < last {
                        assert(q.jobs[j] == before.jobs[j]);
                    }
                }
                assert forall|a: int, b: int| 0 <= a < b < q.jobs.len() implies {
                    &&& (#[trigger] q.jobs[a]).entry > (#[trigger] q.jobs[b]).entry
                    &&& q.jobs[a].feed_hash != q.jobs[b].feed_hash
                } by {
                    assert(q.jobs[a] == before.jobs[a]);
                    if b < last {
                        assert(q.jobs[b] == before.jobs[b]);
                    } else {
                        assert(before.fetched[fetched.len() + a] == before.jobs[a].feed_hash);
                    }
                }
            }
        }
    }
}

/// A feed in which every entry is passed over leaves nothing to do: no
/// job, no error, and the same hashes counted as fetched.
pub proof fn nothing_due_nothing_queued(
    items: Seq<Episode>,
    n: int,
    series: Seq<char>,
    fetched: Seq<Seq<char>>,
    excluded: Seq<Seq<char>>,
    tmp_dir: Seq<char>,
    lib_dir: Seq<char>,
)
    requires
        0 <= n <= items.len(),
        forall|i: int| 0 <= i < items.len() ==> is_skipped(#[trigger] items[i], excluded, fetched),
    ensures
        queue_of(items, n, series, fetched, excluded, tmp_dir, lib_dir) == (Queue {
            jobs: Seq::empty(),
            fetched,
            broken: None,
        }),
    decreases n,
{
    if n > 0 {
        nothing_due_nothing_queued(items, n - 1, series, fetched, excluded, tmp_dir, lib_dir);
        assert(is_skipped(items[items.len() - n], excluded, fetched));
    }
}

/// Whether every entry of a feed is due and stands for a release of its
/// own: no title holds an excluded text, every title reads, every entry has
/// a hash that does not count as fetched, and no two entries share a hash.
pub open spec fn every_entry_due(
    items: Seq<Episode>,
    fetched: Seq<Seq<char>>,
    excluded: Seq<Seq<char>>,
) -> bool {
    &&& forall|i: int|
        0 <= i < items.len() ==> {
            &&& !is_excluded((#[trigger] items[i]).title, excluded)
            &&& items[i].torrent_hash.len() > 0
            &&& !fetched.contains(items[i].torrent_hash)
            &&& reading_of(items[i].title) is Ok
        }
    &&& forall|i: int, j: int|
        0 <= i < j < items.len() ==> (#[trigger] items[i]).torrent_hash != (
        #[trigger] items[j]).torrent_hash
}

/// Where every entry of a feed is due and stands for a release of its own,
/// each entry gets its job, and the jobs stand in the order of the
/// releases: the job at place `k` is that of the entry `k` places from the
/// oldest, which the feed lists last.
pub proof fn every_entry_queued_in_turn(
    items: Seq<Episode>,
    n: int,
    series: Seq<char>,
    fetched: Seq<Seq<char>>,
    excluded: Seq<Seq<char>>,
    tmp_dir: Seq<char>,
    lib_dir: Seq<char>,
)
    requires
        0 <= n <= items.len(),
    ensures
        every_entry_due(items, fetched, excluded) ==> {
            let q = queue_of(items, n, series, fetched, excluded, tmp_dir, lib_dir);
            &&& q.broken is None
            &&& q.jobs.len() == n
            &&& forall|k: int|
                0 <= k < n ==> {
                    &&& (#[trigger] q.jobs[k]).entry == items.len() - 1 - k
                    &&& q.jobs[k].feed_hash == items[items.len() - 1 - k].torrent_hash
                }
        },
    decreases n,
{
    if n > 0 && every_entry_due(items, fetched, excluded) {
        every_entry_queued_in_turn(items, n - 1, series, fetched, excluded, tmp_dir, lib_dir);
        queue_is_sound(items, n - 1, series, fetched, excluded, tmp_dir, lib_dir);
        let before = queue_of(items, n - 1, series, fetched, excluded, tmp_dir, lib_dir);
        let q = queue_of(items, n, series, fetched, excluded, tmp_dir, lib_dir);
        let entry = items.len() - n;
        let hash = items[entry].torrent_hash;
        assert(!is_excluded(items[entry].title, excluded));
        assert forall|k: int| 0 <= k < before.fetched.len() implies before.fetched[k] != hash by {
            if k < fetched.len() {
                assert(before.fetched[k] == fetched[k]);
                if fetched[k] == hash {
                    assert(fetched.contains(hash));
                }
            } else {
                let j = k - fetched.len();
                assert(before.jobs[j].entry == items.len() - 1 - j);
                assert(before.fetched[fetched.len() + j] == before.jobs[j].feed_hash);
                assert(items[entry].torrent_hash != items[items.len() - 1 - j].torrent_hash);
            }
        }
        assert(!before.fetched.contains(hash));
        assert(!is_skipped(items[entry], excluded, before.fetched));
        assert forall|k: int| 0 <= k < n implies {
            &&& (#[trigger] q.jobs[k]).entry == items.len() - 1 - k
            &&& q.jobs[k].feed_hash == items[items.len() - 1 - k].torrent_hash
        } by {
            if k < n - 1 {
                assert(q.jobs[k] == before.jobs[k]);
            }
        }
    }
}

} // verus!
