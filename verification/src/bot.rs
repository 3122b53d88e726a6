use crate::database::{Bangumi, Series};
use crate::mikan::mikan_parser::{BangumiInfo, SeriesInfo};
use crate::pipeline::{descriptor_path, scratch_path};
use crate::text::{chars_of, decimal_text, push_decimal, same_text, string_of};
use vstd::prelude::*;

verus! {

/// Whether a message is taken up: its sender is known and is among the users.
pub fn is_allowed(user_ids: &Vec<u64>, sender: Option<u64>) -> (b: bool)
    ensures
        b == (sender is Some && user_ids@.contains(sender->0)),
{
    match sender {
        None => false,
        Some(id) => {
            let mut i: usize = 0;
            while i < user_ids.len()
                invariant
                    i <= user_ids.len(),
                    sender == Some(id),
                    forall|k: int| 0 <= k < i ==> user_ids@[k] != id,
                decreases user_ids.len() - i,
            {
                if user_ids[i] == id {
                    assert(user_ids@[i as int] == id);
                    return true;
                }
                i += 1;
            }
            false
        },
    }
}

/// The pieces of `s[start..]` that `c` delimits, as seen from position `i`
/// where `s[start..i]` holds no `c`: an empty stretch is a piece too, so
/// there is one piece more than there are delimiters.
pub open spec fn pieces_scan(s: Seq<char>, c: char, start: int, i: int) -> Seq<Seq<char>>
    decreases s.len() - i,
{
    if i < 0 || i >= s.len() {
        seq![s.subrange(start, s.len() as int)]
    } else if s[i] == c {
        seq![s.subrange(start, i)] + pieces_scan(s, c, i + 1, i + 1)
    } else {
        pieces_scan(s, c, start, i + 1)
    }
}

/// The words that a list written with commas holds; the list written
/// `none` holds no word.
pub open spec fn words_of(list: Seq<char>) -> Seq<Seq<char>> {
    if list == "none"@ {
        Seq::empty()
    } else {
        pieces_scan(list, ',', 0, 0)
    }
}

/// Reads a list of words written with commas.
pub fn parse_words(list: &str) -> (r: Vec<String>)
    ensures
        r.deep_view() == words_of(list@),
{
    let mut r: Vec<String> = Vec::new();
    if same_text(list, "none") {
        assert(r.deep_view() =~= Seq::<Seq<char>>::empty());
        return r;
    }
    let v = chars_of(list);
    let mut start: usize = 0;
    let mut i: usize = 0;
    assert(r.deep_view() =~= Seq::<Seq<char>>::empty());
    while i < v.len()
        invariant
            start <= i <= v.len(),
            pieces_scan(v@, ',', 0, 0) == r.deep_view() + pieces_scan(
                v@,
                ',',
                start as int,
                i as int,
            ),
        decreases v.len() - i,
    {
        if v[i] == ',' {
            let ghost before = r.deep_view();
            r.push(string_of(&v, start, i));
            assert(r.deep_view() =~= before + seq![v@.subrange(start as int, i as int)]);
            start = i + 1;
        }
        i += 1;
    }
    let ghost before = r.deep_view();
    r.push(string_of(&v, start, v.len()));
    assert(r.deep_view() =~= before + seq![v@.subrange(start as int, v.len() as int)]);
    r
}

/// The record of a series that was just found: nothing fetched yet,
/// enabled, with the given feed and excluded words.
pub open spec fn fresh_series(
    info: SeriesInfo,
    rss_url: Seq<char>,
    not_contains: Seq<Seq<char>>,
) -> Series {
    Series {
        id: info.id,
        title: info.title,
        weekday: info.weekday,
        poster_url: info.poster_url,
        downloaded: Seq::empty(),
        rss_url,
        enabled: true,
        not_contains,
    }
}

/// The record to keep of a series that was just found.
pub fn new_record(info: &BangumiInfo, rss_url: &str, not_contains: &Vec<String>) -> (r: Bangumi)
    ensures
        r@ == fresh_series(info@, rss_url@, not_contains.deep_view()),
{
    let r = Bangumi {
        id: info.id,
        title: info.title.clone(),
        weekday: info.weekday,
        poster_url: info.poster_url.clone(),
        downloaded: Vec::new(),
        rss_url: rss_url.to_owned(),
        enabled: true,
        not_contains: not_contains.clone(),
    };
    assert(r.downloaded.deep_view() =~= Seq::<Seq<char>>::empty());
    r
}

/// Where the poster of a series is kept while it is sent.
pub fn poster_path(tmp_dir: &str, poster_url: &str) -> (r: String)
    ensures
        r@ == descriptor_path(tmp_dir@, poster_url@),
{
    scratch_path(tmp_dir, poster_url)
}

/// The lines that stand for one series in the list: id and title.
pub open spec fn list_entry(series: Series) -> Seq<char> {
    decimal_text(series.id as nat) + seq!['\n'] + series.title + seq!['\n']
}

/// The list of the first `n` series: their entries, an empty line between.
pub open spec fn list_of(all: Seq<Series>, n: int) -> Seq<char>
    decreases n,
{
    if n <= 0 {
        Seq::empty()
    } else if n == 1 {
        list_entry(all[0])
    } else {
        list_of(all, n - 1) + seq!['\n'] + list_entry(all[n - 1])
    }
}

/// The views of some records.
pub open spec fn all_series(records: Seq<Bangumi>) -> Seq<Series> {
    Seq::new(records.len(), |i: int| records[i]@)
}

/// The list of all series as it is sent; `None` where there is none.
pub fn list_text(records: &Vec<Bangumi>) -> (r: Option<String>)
    ensures
        match r {
            Some(text) => records.len() > 0 && text@ == list_of(
                all_series(records@),
                records.len() as int,
            ),
            None => records.len() == 0,
        },
{
    if records.len() == 0 {
        return None;
    }
    let ghost all = all_series(records@);
    let mut text = String::new();
    let mut i: usize = 0;
    while i < records.len()
        invariant
            i <= records.len(),
            all == all_series(records@),
            text@ == list_of(all, i as int),
        decreases records.len() - i,
    {
        let ghost before = text@;
        if i > 0 {
            text.push('\n');
        }
        push_decimal(&mut text, records[i].id as u64);
        text.push('\n');
        text.append(records[i].title.as_str());
        text.push('\n');
        proof {
            assert(all[i as int] == records@[i as int]@);
            if i == 0 {
                assert(text@ =~= list_entry(all[0]));
            } else {
                assert(text@ =~= before + seq!['\n'] + list_entry(all[i as int]));
            }
        }
        i += 1;
    }
    Some(text)
}

/// How a list of texts is written for the eye.
pub uninterp spec fn debug_text(words: Seq<Seq<char>>) -> Seq<char>;

/// `format!` with `{:?}` on a list of texts: what it writes depends on the
/// texts alone.
#[verifier::external_body]
pub(crate) fn debug_list(words: &Vec<String>) -> (r: String)
    ensures
        r@ == debug_text(words.deep_view()),
{
    format!("{:?}", words)
}

/// A truth value in words.
pub open spec fn truth_text(b: bool) -> Seq<char> {
    if b {
        "true"@
    } else {
        "false"@
    }
}

/// What is told of one series: a line each for id, title, day, poster,
/// feed, whether it is enabled, the excluded words, and how many releases
/// were fetched.
pub open spec fn info_of(series: Series) -> Seq<char> {
    "id: "@ + decimal_text(series.id as nat) + "\ntitle: "@ + series.title + "\nweekday: "@
        + decimal_text(series.weekday as nat) + "\nposter: "@ + series.poster_url + "\nurl: "@
        + series.rss_url + "\nenabled: "@ + truth_text(series.enabled) + "\nnot contains: "@
        + debug_text(series.not_contains) + "\ndownloaded: "@ + decimal_text(
        series.downloaded.len(),
    )
}

/// What is told of one series.
pub fn info_text(record: &Bangumi) -> (r: String)
    ensures
        r@ == info_of(record@),
{
    let mut r = "id: ".to_owned();
    push_decimal(&mut r, record.id as u64);
    r.append("\ntitle: ");
    r.append(record.title.as_str());
    r.append("\nweekday: ");
    push_decimal(&mut r, record.weekday as u64);
    r.append("\nposter: ");
    r.append(record.poster_url.as_str());
    r.append("\nurl: ");
    r.append(record.rss_url.as_str());
    r.append("\nenabled: ");
    if record.enabled {
        r.append("true");
    } else {
        r.append("false");
    }
    r.append("\nnot contains: ");
    r.append(debug_list(&record.not_contains).as_str());
    r.append("\ndownloaded: ");
    push_decimal(&mut r, record.downloaded.len() as u64);
    assert(r@ =~= info_of(record@));
    r
}

} // verus!
