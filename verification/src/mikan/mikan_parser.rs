use crate::pattern::{capture_groups, compiles, Pattern};
use crate::text::{
    before_first, chars_of, decimal_within, fields, find_from, index_of, join, joined,
    parse_decimal, split_fields, starts_with, string_of, trim, trimmed, Cut,
};
use scraper::{Html, Selector};
use vstd::prelude::*;

verus! {

/// The address that the addresses found in a page are relative to.
pub const MIKAN_URL: &'static str = "https://mikanani.me";

/// The element that holds the title of a series.
pub const TITLE_SELECTOR: &'static str = "p.bangumi-title";

/// The element whose style names the poster of a series.
pub const POSTER_SELECTOR: &'static str = "div.bangumi-poster";

/// The elements that hold what else is known of a series.
pub const INFO_SELECTOR: &'static str = "p.bangumi-info";

/// The link to the feed of a series.
pub const RSS_SELECTOR: &'static str = "a.mikan-rss";

/// The buttons of an episode page.
pub const BUTTON_SELECTOR: &'static str = "a.episode-btn";

/// The id of a series as the address of its feed gives it.
pub const ID_PATTERN: &'static str = r"bangumiId=(\d+)";

/// Why a page could not be read.
#[derive(Debug, Clone, Copy, PartialEq, Eq, Structural)]
pub enum MikanError {
    ParseError,
    TitleNotFound,
    IdNotFound,
    PosterNotFound,
    WeekDayNotFound,
    MagnetNotFound,
}

impl MikanError {
    /// What the error says in words.
    pub open spec fn text(self) -> Seq<char> {
        match self {
            MikanError::ParseError => "Parse error"@,
            MikanError::TitleNotFound => "Title not found"@,
            MikanError::IdNotFound => "Id not found"@,
            MikanError::PosterNotFound => "Poster not found"@,
            MikanError::WeekDayNotFound => "Week day not found"@,
            MikanError::MagnetNotFound => "Magnet not found"@,
        }
    }

    /// What the error says in words.
    pub fn message(&self) -> (r: String)
        ensures
            r@ == self.text(),
    {
        match self {
            MikanError::ParseError => "Parse error".to_owned(),
            MikanError::TitleNotFound => "Title not found".to_owned(),
            MikanError::IdNotFound => "Id not found".to_owned(),
            MikanError::PosterNotFound => "Poster not found".to_owned(),
            MikanError::WeekDayNotFound => "Week day not found".to_owned(),
            MikanError::MagnetNotFound => "Magnet not found".to_owned(),
        }
    }
}

/// What a series page tells of a series.
#[derive(Debug, Default, Clone, PartialEq, Eq)]
pub struct BangumiInfo {
    pub id: u32,
    pub title: String,
    pub weekday: u8,
    pub poster_url: String,
    pub magnet: Option<String>,
}

/// The mathematical content of a `BangumiInfo`.
pub struct SeriesInfo {
    pub id: u32,
    pub title: Seq<char>,
    pub weekday: u8,
    pub poster_url: Seq<char>,
    pub magnet: Option<Seq<char>>,
}

impl View for BangumiInfo {
    type V = SeriesInfo;

    open spec fn view(&self) -> SeriesInfo {
        SeriesInfo {
            id: self.id,
            title: self.title@,
            weekday: self.weekday,
            poster_url: self.poster_url@,
            magnet: self.magnet.deep_view(),
        }
    }
}

/// For each element of a page that a selector picks, in the order of the
/// page, the texts that the element holds; `None` where the selector cannot
/// be read.
pub uninterp spec fn texts_at(document: Seq<char>, selector: Seq<char>) -> Option<
    Seq<Seq<Seq<char>>>,
>;

/// For each element of a page that a selector picks, in the order of the
/// page, what its attribute `name` holds, if it has that attribute; `None`
/// where the selector cannot be read.
pub uninterp spec fn attributes_at(
    document: Seq<char>,
    selector: Seq<char>,
    name: Seq<char>,
) -> Option<Seq<Option<Seq<char>>>>;

/// Whether a selector is one of those that the pages are read by.
pub open spec fn is_page_selector(selector: Seq<char>) -> bool {
    selector == TITLE_SELECTOR@ || selector == POSTER_SELECTOR@ || selector == INFO_SELECTOR@
        || selector == RSS_SELECTOR@ || selector == BUTTON_SELECTOR@
}

/// `scraper::Html::parse_document` and `scraper::Selector::parse`, then
/// `Html::select` and, on each element picked, `ElementRef::text`. What
/// comes out depends on the page and the selector alone. Only the
/// selectors that the pages are read by are handed in.
#[verifier::external_body]
pub(crate) fn select_texts(document: &str, selector: &str) -> (r: Option<Vec<Vec<String>>>)
    requires
        is_page_selector(selector@),
    ensures
        r.deep_view() == texts_at(document@, selector@),
{
    let selector = Selector::parse(selector).ok()?;
    let page = Html::parse_document(document);
    Some(page.select(&selector).map(|e| e.text().map(|t| t.to_string()).collect()).collect())
}

/// `scraper::Html::parse_document` and `scraper::Selector::parse`, then
/// `Html::select` and, on each element picked, `ElementRef::attr`. What
/// comes out depends on the page, the selector and the name alone. Only
/// the selectors that the pages are read by are handed in.
#[verifier::external_body]
pub(crate) fn select_attributes(document: &str, selector: &str, name: &str) -> (r: Option<
    Vec<Option<String>>,
>)
    requires
        is_page_selector(selector@),
    ensures
        r.deep_view() == attributes_at(document@, selector@, name@),
{
    let selector = Selector::parse(selector).ok()?;
    let page = Html::parse_document(document);
    Some(page.select(&selector).map(|e| e.attr(name).map(|a| a.to_string())).collect())
}

/// The texts of an element, one after the other.
pub open spec fn whole_text(parts: Seq<Seq<char>>) -> Seq<char> {
    joined(parts, Seq::empty())
}

/// The title of a series: the text of the first title element, trimmed.
pub open spec fn title_in(document: Seq<char>) -> Result<Seq<char>, MikanError> {
    match texts_at(document, TITLE_SELECTOR@) {
        Some(found) => if found.len() > 0 {
            Ok(trimmed(whole_text(found[0])))
        } else {
            Err(MikanError::TitleNotFound)
        },
        None => Err(MikanError::TitleNotFound),
    }
}

/// What stands between the first single quote of a text and the next, or
/// the end; `None` where the text has no single quote.
pub open spec fn quoted(style: Seq<char>) -> Option<Seq<char>> {
    let open = index_of(style, '\'', 0);
    if open < style.len() {
        Some(style.subrange(open + 1, index_of(style, '\'', open + 1)))
    } else {
        None
    }
}

/// The address that a style names: what it quotes, cut before the first
/// `?` and put behind the address of the site.
pub open spec fn poster_of(style: Seq<char>) -> Result<Seq<char>, MikanError> {
    match quoted(style) {
        Some(path) => Ok(MIKAN_URL@ + before_first(path, '?')),
        None => Err(MikanError::PosterNotFound),
    }
}

/// The poster of a series, from the style of the first poster element.
pub open spec fn poster_in(document: Seq<char>) -> Result<Seq<char>, MikanError> {
    match attributes_at(document, POSTER_SELECTOR@, "style"@) {
        Some(found) => if found.len() > 0 && found[0] is Some {
            poster_of(found[0]->0)
        } else {
            Err(MikanError::PosterNotFound)
        },
        None => Err(MikanError::PosterNotFound),
    }
}

/// The words that lead the line which tells the day of broadcast.
pub open spec fn broadcast_label() -> Seq<char> {
    "放送日期"@
}

/// Whether one of the texts of an element begins with the broadcast label.
pub open spec fn tells_broadcast(parts: Seq<Seq<char>>) -> bool {
    exists|k: int| 0 <= k < parts.len() && broadcast_label().is_prefix_of(#[trigger] parts[k])
}

/// The first position at or after `i` of an element that tells the day of
/// broadcast, or the length.
pub open spec fn broadcast_at(found: Seq<Seq<Seq<char>>>, i: int) -> int
    decreases found.len() - i,
{
    if 0 <= i < found.len() && !tells_broadcast(found[i]) {
        broadcast_at(found, i + 1)
    } else {
        i
    }
}

/// The day of the week that a character names, Monday being 1; 0 for any
/// other character.
pub open spec fn day_of(c: char) -> u8 {
    if c == '一' {
        1
    } else if c == '二' {
        2
    } else if c == '三' {
        3
    } else if c == '四' {
        4
    } else if c == '五' {
        5
    } else if c == '六' {
        6
    } else if c == '日' {
        7
    } else {
        0
    }
}

/// The day that a line names with its last character.
pub open spec fn week_day_of(line: Seq<char>) -> Result<u8, MikanError> {
    if line.len() > 0 && day_of(line.last()) != 0 {
        Ok(day_of(line.last()))
    } else {
        Err(MikanError::WeekDayNotFound)
    }
}

/// The day of broadcast of a series, from the first info element that
/// tells it.
pub open spec fn week_day_in(document: Seq<char>) -> Result<u8, MikanError> {
    match texts_at(document, INFO_SELECTOR@) {
        Some(found) => if broadcast_at(found, 0) < found.len() {
            week_day_of(whole_text(found[broadcast_at(found, 0)]))
        } else {
            Err(MikanError::WeekDayNotFound)
        },
        None => Err(MikanError::WeekDayNotFound),
    }
}

/// The number that a text of digits writes, with or without a plus sign
/// before it, where 32 bits hold it.
pub open spec fn id_number(digits: Seq<char>) -> Result<u32, MikanError> {
    let bare = if digits.len() > 0 && digits[0] == '+' {
        digits.skip(1)
    } else {
        digits
    };
    match decimal_within(bare, 0xffff_ffff) {
        Some(n) => Ok(n as u32),
        None => Err(MikanError::ParseError),
    }
}

/// The id of the series that the address of a feed names.
pub open spec fn id_of_link(href: Seq<char>) -> Result<u32, MikanError> {
    match capture_groups(ID_PATTERN@, href) {
        Some(groups) => if groups.len() > 1 && groups[1] is Some {
            id_number(groups[1]->0)
        } else {
            Err(MikanError::IdNotFound)
        },
        None => Err(MikanError::IdNotFound),
    }
}

/// The id of a series, from the first link to its feed.
pub open spec fn id_in(document: Seq<char>) -> Result<u32, MikanError> {
    match attributes_at(document, RSS_SELECTOR@, "href"@) {
        Some(found) => if found.len() > 0 && found[0] is Some {
            id_of_link(found[0]->0)
        } else {
            Err(MikanError::IdNotFound)
        },
        None => Err(MikanError::IdNotFound),
    }
}

/// What a magnet link begins with.
pub open spec fn magnet_scheme() -> Seq<char> {
    "magnet:"@
}

/// The first position at or after `i` of a link that is a magnet link, or
/// the length.
pub open spec fn magnet_at(links: Seq<Option<Seq<char>>>, i: int) -> int
    decreases links.len() - i,
{
    if 0 <= i < links.len() && !(links[i] is Some && magnet_scheme().is_prefix_of(links[i]->0)) {
        magnet_at(links, i + 1)
    } else {
        i
    }
}

/// The magnet link of an episode page: the first of its buttons that
/// leads to one.
pub open spec fn magnet_in(document: Seq<char>) -> Result<Seq<char>, MikanError> {
    match attributes_at(document, BUTTON_SELECTOR@, "href"@) {
        Some(found) => if magnet_at(found, 0) < found.len() {
            Ok(found[magnet_at(found, 0)]->0)
        } else {
            Err(MikanError::MagnetNotFound)
        },
        None => Err(MikanError::MagnetNotFound),
    }
}

/// What a series page tells: id, title, poster and day of broadcast, the
/// first that is missing being the error.
pub open spec fn info_in(document: Seq<char>) -> Result<SeriesInfo, MikanError> {
    match id_in(document) {
        Err(e) => Err(e),
        Ok(id) => match title_in(document) {
            Err(e) => Err(e),
            Ok(title) => match poster_in(document) {
                Err(e) => Err(e),
                Ok(poster_url) => match week_day_in(document) {
                    Err(e) => Err(e),
                    Ok(weekday) => Ok(SeriesInfo { id, title, weekday, poster_url, magnet: None }),
                },
            },
        },
    }
}

/// What the page fetched for the series `id` tells, where it is the page of
/// that series.
pub open spec fn info_of_series(document: Seq<char>, id: u32) -> Result<SeriesInfo, MikanError> {
    match info_in(document) {
        Err(e) => Err(e),
        Ok(info) => if info.id == id {
            Ok(info)
        } else {
            Err(MikanError::ParseError)
        },
    }
}

/// The key under which the address of a feed names its series.
pub open spec fn id_key() -> Seq<char> {
    "bangumiId="@
}

/// The first position at or after `i` of a piece that begins with the id
/// key, or the length.
pub open spec fn key_at(pieces: Seq<Seq<char>>, i: int) -> int
    decreases pieces.len() - i,
{
    if 0 <= i < pieces.len() && !id_key().is_prefix_of(pieces[i]) {
        key_at(pieces, i + 1)
    } else {
        i
    }
}

/// The id of the series that the address of a feed names: of the pieces
/// that `?` and `&` cut the address into, the first that begins with the
/// key gives it, between its first `=` and the next.
pub open spec fn id_in_rss_url(url: Seq<char>) -> Result<u32, MikanError> {
    let pieces = fields(url, Cut::Query);
    let at = key_at(pieces, 0);
    if at < pieces.len() {
        id_number(before_first(pieces[at].skip(id_key().len() as int), '='))
    } else {
        Err(MikanError::IdNotFound)
    }
}

/// Whether an address is that of an episode page.
pub open spec fn is_episode_url(url: Seq<char>) -> bool {
    crate::pipeline::occurs_in(url, "/Home/Episode/"@)
}

/// What an episode page tells before the page of its series is fetched:
/// the id of the series and the magnet link of the episode. A page that is
/// not an episode page has no magnet link to tell.
pub open spec fn episode_in(document: Seq<char>, url: Seq<char>) -> Result<
    (u32, Option<Seq<char>>),
    MikanError,
> {
    match id_in(document) {
        Err(e) => Err(e),
        Ok(id) => if is_episode_url(url) {
            match magnet_in(document) {
                Err(e) => Err(e),
                Ok(magnet) => Ok((id, Some(magnet))),
            }
        } else {
            Ok((id, None))
        },
    }
}

/// The mathematical content of a result that holds a text.
pub open spec fn text_result(r: Result<String, MikanError>) -> Result<Seq<char>, MikanError> {
    match r {
        Ok(text) => Ok(text@),
        Err(e) => Err(e),
    }
}

/// The mathematical content of a result that holds what a page tells.
pub open spec fn info_result(r: Result<BangumiInfo, MikanError>) -> Result<SeriesInfo, MikanError> {
    match r {
        Ok(info) => Ok(info@),
        Err(e) => Err(e),
    }
}

/// The address that a style names.
pub fn poster_from_style(style: &str) -> (r: Result<String, MikanError>)
    ensures
        text_result(r) == poster_of(style@),
{
    let v = chars_of(style);
    let open = find_from(&v, '\'', 0);
    if open >= v.len() {
        return Err(MikanError::PosterNotFound);
    }
    let close = find_from(&v, '\'', open + 1);
    let path = chars_of(string_of(&v, open + 1, close).as_str());
    let end = find_from(&path, '?', 0);
    let mut r = MIKAN_URL.to_owned();
    r.append(string_of(&path, 0, end).as_str());
    Ok(r)
}

fn day(c: char) -> (d: u8)
    ensures
        d == day_of(c),
{
    if c == '一' {
        1
    } else if c == '二' {
        2
    } else if c == '三' {
        3
    } else if c == '四' {
        4
    } else if c == '五' {
        5
    } else if c == '六' {
        6
    } else if c == '日' {
        7
    } else {
        0
    }
}

/// The day that a line names with its last character.
pub fn week_day_from_line(line: &str) -> (r: Result<u8, MikanError>)
    ensures
        r == week_day_of(line@),
{
    let v = chars_of(line);
    if v.len() == 0 {
        return Err(MikanError::WeekDayNotFound);
    }
    let d = day(v[v.len() - 1]);
    if d == 0 {
        Err(MikanError::WeekDayNotFound)
    } else {
        Ok(d)
    }
}

/// Reads an id out of its digits.
pub fn parse_id_number(digits: &str) -> (r: Result<u32, MikanError>)
    ensures
        r == id_number(digits@),
{
    let v = chars_of(digits);
    let from: usize = if v.len() > 0 && v[0] == '+' {
        1
    } else {
        0
    };
    proof {
        assert(v@.subrange(from as int, v.len() as int) =~= if from == 1 {
            v@.skip(1)
        } else {
            v@
        });
    }
    match parse_decimal(&v, from, v.len(), 0xffff_ffff) {
        Some(n) => Ok(n),
        None => Err(MikanError::ParseError),
    }
}

fn has_broadcast_label(parts: &Vec<String>) -> (b: bool)
    ensures
        b == tells_broadcast(parts.deep_view()),
{
    let ghost all = parts.deep_view();
    let mut k: usize = 0;
    while k < parts.len()
        invariant
            k <= parts.len(),
            all == parts.deep_view(),
            forall|j: int| 0 <= j < k ==> !broadcast_label().is_prefix_of(#[trigger] all[j]),
        decreases parts.len() - k,
    {
        if starts_with(parts[k].as_str(), "放送日期") {
            assert(broadcast_label().is_prefix_of(all[k as int]));
            return true;
        }
        k += 1;
    }
    false
}

/// The id of the series that the address of a feed names.
pub fn id_from_rss_url(url: &str) -> (r: Result<u32, MikanError>)
    ensures
        r == id_in_rss_url(url@),
{
    let pieces = split_fields(url, Cut::Query);
    let ghost all = pieces.deep_view();
    let mut i: usize = 0;
    while i < pieces.len()
        invariant
            i <= pieces.len(),
            all == pieces.deep_view(),
            all == fields(url@, Cut::Query),
            key_at(all, 0) == key_at(all, i as int),
        decreases pieces.len() - i,
    {
        if starts_with(pieces[i].as_str(), "bangumiId=") {
            let piece = chars_of(pieces[i].as_str());
            let key = chars_of("bangumiId=");
            let end = find_from(&piece, '=', key.len());
            let value = string_of(&piece, key.len(), end);
            proof {
                let rest = piece@.skip(key.len() as int);
                assert(id_key().is_prefix_of(piece@));
                index_of_shifts(piece@, '=', key.len() as int, key.len() as int);
                assert(value@ =~= before_first(rest, '='));
            }
            return parse_id_number(value.as_str());
        }
        i += 1;
    }
    Err(MikanError::IdNotFound)
}

/// Looking for a character from `i` on in a text that lost its first `n`
/// characters finds it `n` places earlier than in the whole text.
pub proof fn index_of_shifts(s: Seq<char>, c: char, n: int, i: int)
    requires
        0 <= n <= i <= s.len(),
    ensures
        index_of(s.skip(n), c, i - n) == index_of(s, c, i) - n,
    decreases s.len() - i,
{
    if i < s.len() {
        assert(s.skip(n)[i - n] == s[i]);
        if s[i] != c {
            index_of_shifts(s, c, n, i + 1);
        }
    }
}

/// Reads the pages of the site.
pub struct MikanParser {
    id_pattern: Pattern,
}

impl View for MikanParser {
    type V = Seq<char>;

    /// The text of the pattern by which ids are found.
    closed spec fn view(&self) -> Seq<char> {
        self.id_pattern@
    }
}

impl MikanParser {
    #[verifier::type_invariant]
    spec fn well_formed(&self) -> bool {
        self.id_pattern@ == ID_PATTERN@
    }

    /// Compiles the pattern: there is a reader where the pattern engine
    /// accepts the id pattern, and `None` where it turns it down. A reader
    /// finds ids by the id pattern, compiled from its text as written.
    pub fn new() -> (r: Option<MikanParser>)
        ensures
            r is Some <==> compiles(ID_PATTERN@),
            r matches Some(reader) ==> reader@ == ID_PATTERN@,
    {
        match Pattern::new(ID_PATTERN) {
            Some(id_pattern) => Some(MikanParser { id_pattern }),
            None => None,
        }
    }

    /// The title of a series.
    pub fn parse_title(&self, document: &str) -> (r: Result<String, MikanError>)
        ensures
            text_result(r) == title_in(document@),
    {
        match select_texts(document, TITLE_SELECTOR) {
            Some(found) => if found.len() > 0 {
                let text = join(&found[0], 0, found[0].len(), "");
                proof {
                    let parts = found[0].deep_view();
                    assert(parts.subrange(0, parts.len() as int) =~= parts);
                    assert(""@ =~= Seq::<char>::empty()) by {
                        reveal_strlit("");
                    }
                }
                Ok(trim(text.as_str()))
            } else {
                Err(MikanError::TitleNotFound)
            },
            None => Err(MikanError::TitleNotFound),
        }
    }

    /// The poster of a series.
    pub fn parse_poster_url(&self, document: &str) -> (r: Result<String, MikanError>)
        ensures
            text_result(r) == poster_in(document@),
    {
        match select_attributes(document, POSTER_SELECTOR, "style") {
            Some(found) => if found.len() > 0 {
                match &found[0] {
                    Some(style) => poster_from_style(style.as_str()),
                    None => Err(MikanError::PosterNotFound),
                }
            } else {
                Err(MikanError::PosterNotFound)
            },
            None => Err(MikanError::PosterNotFound),
        }
    }

    /// The day of broadcast of a series.
    pub fn parse_week_day(&self, document: &str) -> (r: Result<u8, MikanError>)
        ensures
            r == week_day_in(document@),
    {
        let found = match select_texts(document, INFO_SELECTOR) {
            Some(found) => found,
            None => {
                return Err(MikanError::WeekDayNotFound);
            },
        };
        let ghost all = found.deep_view();
        let mut i: usize = 0;
        while i < found.len()
            invariant
                i <= found.len(),
                all == found.deep_view(),
                texts_at(document@, INFO_SELECTOR@) == Some(all),
                broadcast_at(all, 0) == broadcast_at(all, i as int),
            decreases found.len() - i,
        {
            if has_broadcast_label(&found[i]) {
                let line = join(&found[i], 0, found[i].len(), "");
                proof {
                    let parts = found[i as int].deep_view();
                    assert(parts.subrange(0, parts.len() as int) =~= parts);
                    assert(""@ =~= Seq::<char>::empty()) by {
                        reveal_strlit("");
                    }
                }
                return week_day_from_line(line.as_str());
            }
            i += 1;
        }
        Err(MikanError::WeekDayNotFound)
    }

    /// The id of the series that the address of a feed names.
    pub fn id_from_link(&self, href: &str) -> (r: Result<u32, MikanError>)
        ensures
            r == id_of_link(href@),
    {
        proof {
            use_type_invariant(self);
        }
        match self.id_pattern.captures(href) {
            Some(groups) => if groups.len() > 1 {
                match &groups[1] {
                    Some(digits) => parse_id_number(digits.as_str()),
                    None => Err(MikanError::IdNotFound),
                }
            } else {
                Err(MikanError::IdNotFound)
            },
            None => Err(MikanError::IdNotFound),
        }
    }

    /// The id of a series.
    pub fn parse_id(&self, document: &str) -> (r: Result<u32, MikanError>)
        ensures
            r == id_in(document@),
    {
        match select_attributes(document, RSS_SELECTOR, "href") {
            Some(found) => if found.len() > 0 {
                match &found[0] {
                    Some(href) => self.id_from_link(href.as_str()),
                    None => Err(MikanError::IdNotFound),
                }
            } else {
                Err(MikanError::IdNotFound)
            },
            None => Err(MikanError::IdNotFound),
        }
    }

    /// The magnet link of an episode page.
    pub fn parse_magnet(&self, document: &str) -> (r: Result<String, MikanError>)
        ensures
            text_result(r) == magnet_in(document@),
    {
        let found = match select_attributes(document, BUTTON_SELECTOR, "href") {
            Some(found) => found,
            None => {
                return Err(MikanError::MagnetNotFound);
            },
        };
        let ghost all = found.deep_view();
        let mut i: usize = 0;
        while i < found.len()
            invariant
                i <= found.len(),
                all == found.deep_view(),
                attributes_at(document@, BUTTON_SELECTOR@, "href"@) == Some(all),
                magnet_at(all, 0) == magnet_at(all, i as int),
            decreases found.len() - i,
        {
            match &found[i] {
                Some(href) => {
                    if starts_with(href.as_str(), "magnet:") {
                        return Ok(href.clone());
                    }
                },
                None => {},
            }
            i += 1;
        }
        Err(MikanError::MagnetNotFound)
    }

    /// What a series page tells.
    pub fn parse_document(&self, document: &str) -> (r: Result<BangumiInfo, MikanError>)
        ensures
            info_result(r) == info_in(document@),
    {
        let id = match self.parse_id(document) {
            Ok(id) => id,
            Err(e) => {
                return Err(e);
            },
        };
        let title = match self.parse_title(document) {
            Ok(title) => title,
            Err(e) => {
                return Err(e);
            },
        };
        let poster_url = match self.parse_poster_url(document) {
            Ok(poster_url) => poster_url,
            Err(e) => {
                return Err(e);
            },
        };
        let weekday = match self.parse_week_day(document) {
            Ok(weekday) => weekday,
            Err(e) => {
                return Err(e);
            },
        };
        Ok(BangumiInfo { id, title, weekday, poster_url, magnet: None })
    }

    /// What the page fetched for the series `id` tells; a page of another
    /// series is an error.
    pub fn from_id(&self, document: &str, id: u32) -> (r: Result<BangumiInfo, MikanError>)
        ensures
            info_result(r) == info_of_series(document@, id),
    {
        match self.parse_document(document) {
            Err(e) => Err(e),
            Ok(info) => if info.id != id {
                Err(MikanError::ParseError)
            } else {
                Ok(info)
            },
        }
    }

    /// What the page at `url` tells before the page of its series is
    /// fetched: the id of the series, and the magnet link where the page is
    /// that of an episode.
    pub fn from_url(&self, document: &str, url: &str) -> (r: Result<
        (u32, Option<String>),
        MikanError,
    >)
        ensures
            match r {
                Ok((id, magnet)) => episode_in(document@, url@) == Ok::<
                    (u32, Option<Seq<char>>),
                    MikanError,
                >((id, magnet.deep_view())),
                Err(e) => episode_in(document@, url@) == Err::<
                    (u32, Option<Seq<char>>),
                    MikanError,
                >(e),
            },
    {
        let id = match self.parse_id(document) {
            Ok(id) => id,
            Err(e) => {
                return Err(e);
            },
        };
        if crate::pipeline::contains_text(url, "/Home/Episode/") {
            match self.parse_magnet(document) {
                Ok(magnet) => Ok((id, Some(magnet))),
                Err(e) => Err(e),
            }
        } else {
            Ok((id, None))
        }
    }
}

} // verus!
