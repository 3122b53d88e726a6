use crate::pattern::{
    all_matches, capture_groups, compiles, found_in, replaced_all, split_pieces, Pattern,
};
use crate::text::{
    bare_text_is_trimmed, chars_of, decimal_value_nonnegative, decimal_within, fields, is_digit,
    join, joined, parse_decimal, parse_number, split_fields, string_of, strip_wrapped, trim,
    trim_range, trimmed, two_places, two_places_reads_back, unwrapped, Cut, Wrap,
};
use vstd::prelude::*;

verus! {

/// A whole title: what leads up to the episode marker, the marker, the rest.
pub const TITLE_PATTERN: &'static str =
    r"(.*|\[.*])( -? \d+|\[\d+]|\[\d+.?[vV]\d]|第\d+[话話集]|\[第?\d+[话話集]]|\[\d+.?END]|[Ee][Pp]?\d+)(.*)";

/// A character that cannot be part of a name.
pub const PREFIX_PATTERN: &'static str = r"[^\w\s\u4e00-\u9fff\u3040-\u309f\u30a0-\u30ff-]";

/// A square bracket, opening or closing.
pub const FANSUB_PATTERN: &'static str = r"[\[\]]";

/// The announcement of a new season's programme.
pub const ANNOUNCEMENT_PATTERN: &'static str = r"新番|月?番";

/// The note that a release is meant for one region.
pub const REGION_PATTERN: &'static str = r"港澳台地区";

/// A season marker.
pub const SEASON_PATTERN: &'static str = r"S\d{1,2}|Season \d{1,2}|[第].[季期]";

/// The region note in parentheses, as it follows a name.
pub const REGION_NOTE_PATTERN: &'static str = r"[(（]仅限港澳台地区[）)]";

/// What divides the names of one series in several languages.
pub const DIVIDER_PATTERN: &'static str = r"/|\s{2}|-\s{2}";

/// An underscore between two names.
pub const UNDERSCORE_PATTERN: &'static str = r"_";

/// A hyphen that stands alone between two names.
pub const SPACED_HYPHEN_PATTERN: &'static str = r" - ";

/// A hyphen.
pub const HYPHEN_PATTERN: &'static str = r"-";

/// Two or more Chinese characters at the very start.
pub const LEADING_CHINESE_PATTERN: &'static str = r"^[\u4e00-\u9fa5]{2,}";

/// Two or more Chinese characters in a row.
pub const CHINESE_PATTERN: &'static str = r"[\u4e00-\u9fa5]{2,}";

/// Three or more Latin letters in a row.
pub const ENGLISH_PATTERN: &'static str = r"[a-zA-Z]{3,}";

/// Two or more characters in a row from the block that holds the kana.
pub const JAPANESE_PATTERN: &'static str = r"[\u0800-\u4e00]{2,}";

/// What a release title says: the series name in up to three languages,
/// season, episode, and the release group's tag.
#[derive(Default, Debug, PartialEq)]
pub struct ParseResult {
    pub title_zh: String,
    pub title_en: String,
    pub title_jp: String,
    pub season: i8,
    pub episode: i16,
    pub fansub: String,
}

/// The mathematical content of a `ParseResult`.
pub struct ParsedTitle {
    pub title_zh: Seq<char>,
    pub title_en: Seq<char>,
    pub title_jp: Seq<char>,
    pub season: int,
    pub episode: int,
    pub fansub: Seq<char>,
}

impl View for ParseResult {
    type V = ParsedTitle;

    open spec fn view(&self) -> ParsedTitle {
        ParsedTitle {
            title_zh: self.title_zh@,
            title_en: self.title_en@,
            title_jp: self.title_jp@,
            season: self.season as int,
            episode: self.episode as int,
            fansub: self.fansub@,
        }
    }
}

/// Why a title could not be read; each stage of the reading has its own.
#[derive(Debug, Clone, Copy, PartialEq, Eq, Structural)]
pub enum ParseError {
    InvalidInput,
    InvalidSeason,
    InvalidTitle,
    InvalidEpisode,
}

impl ParseError {
    /// What the error says in words.
    pub open spec fn text(self) -> Seq<char> {
        match self {
            ParseError::InvalidInput => "Invalid input"@,
            ParseError::InvalidSeason => "Failed to parse season info"@,
            ParseError::InvalidTitle => "Failed to parse title"@,
            ParseError::InvalidEpisode => "Failed to parse episode"@,
        }
    }

    /// What the error says in words.
    pub fn message(&self) -> (r: String)
        ensures
            r@ == self.text(),
    {
        match self {
            ParseError::InvalidInput => "Invalid input".to_owned(),
            ParseError::InvalidSeason => "Failed to parse season info".to_owned(),
            ParseError::InvalidTitle => "Failed to parse title".to_owned(),
            ParseError::InvalidEpisode => "Failed to parse episode".to_owned(),
        }
    }
}

/// The compiled patterns that the reading of a title goes by.
pub struct TitleGrammar {
    title: Pattern,
    prefix: Pattern,
    bracket: Pattern,
    announcement: Pattern,
    region: Pattern,
    season: Pattern,
    region_note: Pattern,
    divider: Pattern,
    underscore: Pattern,
    spaced_hyphen: Pattern,
    hyphen: Pattern,
    leading_chinese: Pattern,
    chinese: Pattern,
    english: Pattern,
    japanese: Pattern,
}

/// A full-width bracket becomes its plain counterpart; any other character stays.
pub open spec fn plain_bracket(c: char) -> char {
    if c == '【' {
        '['
    } else if c == '】' {
        ']'
    } else {
        c
    }
}

/// A title without surrounding white space and with plain brackets only.
pub open spec fn normalized(title: Seq<char>) -> Seq<char> {
    trimmed(title).map_values(|c: char| plain_bracket(c))
}

/// The release group's tag: the second of the pieces that square brackets
/// cut the title into.
pub open spec fn fansub_of(title: Seq<char>) -> Option<Seq<char>> {
    let pieces = split_pieces(FANSUB_PATTERN@, title);
    if pieces.len() > 1 {
        Some(pieces[1])
    } else {
        None
    }
}

/// Brings a title into the form that the patterns expect.
pub fn normalize(title: &str) -> (r: String)
    ensures
        r@ == normalized(title@),
{
    let v = chars_of(title);
    let (a, b) = trim_range(&v);
    let mut r = String::new();
    let mut i: usize = a;
    while i < b
        invariant
            a <= i <= b <= v.len(),
            r@ == v@.subrange(a as int, i as int).map_values(|c: char| plain_bracket(c)),
        decreases b - i,
    {
        let c = v[i];
        let ghost before = r@;
        if c == '【' {
            r.push('[');
        } else if c == '】' {
            r.push(']');
        } else {
            r.push(c);
        }
        assert(r@ =~= v@.subrange(a as int, i + 1).map_values(|c: char| plain_bracket(c)));
        i += 1;
    }
    r
}

/// The pieces of a text that are held against the announcement patterns:
/// what the separators stamped over the characters outside of names leave,
/// or the words of that, where they leave one piece only.
pub open spec fn pieces_between(marked: Seq<char>) -> Seq<Seq<char>> {
    let cut = fields(marked, Cut::Slash);
    if cut.len() == 1 {
        fields(cut[0], Cut::Space)
    } else {
        cut
    }
}

/// Whether a piece announces a season's programme, in five characters at
/// most, or names the region that a release is meant for.
pub open spec fn is_announcement(piece: Seq<char>) -> bool {
    (found_in(ANNOUNCEMENT_PATTERN@, piece) && piece.len() <= 5) || found_in(
        REGION_PATTERN@,
        piece,
    )
}

/// `text` after each announcement among `pieces`, taken in order, has left
/// it together with the character on either side.
pub open spec fn without_announcements(text: Seq<char>, pieces: Seq<Seq<char>>) -> Seq<char>
    decreases pieces.len(),
{
    if pieces.len() == 0 {
        text
    } else {
        let before = without_announcements(text, pieces.drop_last());
        if is_announcement(pieces.last()) {
            unwrapped(before, pieces.last(), Wrap::Neighbours)
        } else {
            before
        }
    }
}

/// What is left of the stretch before the episode marker once the bracketed
/// tag and the announcements are gone: name and season, trimmed.
pub open spec fn season_info_of(info: Seq<char>, fansub: Seq<char>) -> Seq<char> {
    let raw = if fansub.len() == 0 {
        info
    } else {
        unwrapped(info, fansub, Wrap::Brackets)
    };
    let marked = replaced_all(PREFIX_PATTERN@, raw, "/"@);
    trimmed(without_announcements(raw, pieces_between(marked)))
}

/// The characters that only frame the number in a season marker.
pub open spec fn frames_number(c: char) -> bool {
    c == '第' || c == '季' || c == '期' || c == ' '
}

/// A season marker without the characters that frame its number.
pub open spec fn framed_number(mark: Seq<char>) -> Seq<char>
    decreases mark.len(),
{
    if mark.len() == 0 {
        mark
    } else if frames_number(mark.last()) {
        framed_number(mark.drop_last())
    } else {
        framed_number(mark.drop_last()).push(mark.last())
    }
}

/// The numerals one to ten; -1 for any other character.
pub open spec fn numeral_value(c: char) -> int {
    if c == '一' {
        1
    } else if c == '二' {
        2
    } else if c == '三' {
        3
    } else if c == '四' {
        4
    } else if c == '五' {
        5
    } else if c == '六' {
        6
    } else if c == '七' {
        7
    } else if c == '八' {
        8
    } else if c == '九' {
        9
    } else if c == '十' {
        10
    } else {
        -1
    }
}

/// Whether a marker begins with the word `Season`.
pub open spec fn starts_with_season(mark: Seq<char>) -> bool {
    mark.len() >= 6 && mark.subrange(0, 6) == seq!['S', 'e', 'a', 's', 'o', 'n']
}

/// The season that a marker gives, -1 where it gives none. After `S` or
/// `Season` the digits that follow are read; in any other marker what its
/// frame encloses is read, as digits or as one numeral.
pub open spec fn season_number_of(mark: Seq<char>) -> int {
    if mark.len() > 0 && mark[0] == 'S' {
        let rest = if starts_with_season(mark) {
            mark.skip(6)
        } else {
            mark.skip(1)
        };
        match decimal_within(trimmed(rest), 127) {
            Some(n) => n,
            None => -1,
        }
    } else {
        let inner = framed_number(mark);
        match decimal_within(inner, 127) {
            Some(n) => n,
            None => if inner.len() == 1 {
                numeral_value(inner[0])
            } else {
                -1
            },
        }
    }
}

/// Name and season from the season markers found: without a marker the
/// text is the name and the season is 1; else the first marker gives the
/// season and `stripped`, trimmed, the name. An empty name or a marker that
/// gives no season leaves nothing.
pub open spec fn season_from(flat: Seq<char>, marks: Seq<Seq<char>>, stripped: Seq<char>) -> Option<
    (Seq<char>, int),
> {
    if marks.len() == 0 {
        Some((flat, 1))
    } else if trimmed(stripped).len() == 0 || season_number_of(marks[0]) == -1 {
        None
    } else {
        Some((trimmed(stripped), season_number_of(marks[0])))
    }
}

/// Name and season of a trimmed stretch that holds both.
pub open spec fn season_split(info: Seq<char>) -> Option<(Seq<char>, int)> {
    let flat = replaced_all(FANSUB_PATTERN@, info, " "@);
    season_from(
        flat,
        all_matches(SEASON_PATTERN@, flat),
        replaced_all(SEASON_PATTERN@, flat, ""@),
    )
}

/// The pieces that are not empty, in order.
pub open spec fn non_empty(pieces: Seq<Seq<char>>) -> Seq<Seq<char>>
    decreases pieces.len(),
{
    if pieces.len() == 0 {
        pieces
    } else if pieces.last().len() == 0 {
        non_empty(pieces.drop_last())
    } else {
        non_empty(pieces.drop_last()).push(pieces.last())
    }
}

/// A run of words is parted where its first or, failing that, its last word
/// leads with Chinese characters: that word, then the others joined by
/// single spaces. Anything else stays one piece.
pub open spec fn parted_by_language(piece: Seq<char>) -> Seq<Seq<char>> {
    let words = fields(piece, Cut::Space);
    if words.len() >= 2 && found_in(LEADING_CHINESE_PATTERN@, words.first()) {
        seq![words.first(), joined(words.drop_first(), " "@)]
    } else if words.len() >= 2 && found_in(LEADING_CHINESE_PATTERN@, words.last()) {
        seq![words.last(), joined(words.drop_last(), " "@)]
    } else {
        seq![piece]
    }
}

/// The pieces of a name that may each be the title in one language.
pub open spec fn name_pieces(name: Seq<char>) -> Seq<Seq<char>> {
    let divided = non_empty(split_pieces(DIVIDER_PATTERN@, name));
    let parts = if divided.len() != 1 {
        divided
    } else if found_in(UNDERSCORE_PATTERN@, name) {
        split_pieces(UNDERSCORE_PATTERN@, name)
    } else if found_in(SPACED_HYPHEN_PATTERN@, name) {
        split_pieces(HYPHEN_PATTERN@, name)
    } else {
        divided
    };
    if parts.len() == 1 {
        parted_by_language(parts[0])
    } else {
        parts
    }
}

/// The titles by language: Chinese, English, Japanese.
pub struct Titles {
    pub zh: Option<Seq<char>>,
    pub en: Option<Seq<char>>,
    pub jp: Option<Seq<char>>,
}

/// Each piece goes, trimmed, to the first language whose pattern it holds;
/// of two pieces in one language the later stays.
pub open spec fn classified(pieces: Seq<Seq<char>>) -> Titles
    decreases pieces.len(),
{
    if pieces.len() == 0 {
        Titles { zh: None, en: None, jp: None }
    } else {
        let before = classified(pieces.drop_last());
        let piece = pieces.last();
        if found_in(CHINESE_PATTERN@, piece) {
            Titles { zh: Some(trimmed(piece)), ..before }
        } else if found_in(ENGLISH_PATTERN@, piece) {
            Titles { en: Some(trimmed(piece)), ..before }
        } else if found_in(JAPANESE_PATTERN@, piece) {
            Titles { jp: Some(trimmed(piece)), ..before }
        } else {
            before
        }
    }
}

/// The titles that a name holds.
pub open spec fn titles_of(name: Seq<char>) -> Titles {
    classified(name_pieces(replaced_all(REGION_NOTE_PATTERN@, name, ""@)))
}

/// The first position at or after `i` that holds a digit, or the length.
pub open spec fn next_digit(s: Seq<char>, i: int) -> int
    decreases s.len() - i,
{
    if 0 <= i < s.len() && !is_digit(s[i]) {
        next_digit(s, i + 1)
    } else {
        i
    }
}

/// The first position at or after `i` that holds no digit, or the length.
pub open spec fn digits_end(s: Seq<char>, i: int) -> int
    decreases s.len() - i,
{
    if 0 <= i < s.len() && is_digit(s[i]) {
        digits_end(s, i + 1)
    } else {
        i
    }
}

/// The first run of the digits `0` to `9` in `s`; empty where there is none.
pub open spec fn first_digits(s: Seq<char>) -> Seq<char> {
    let from = next_digit(s, 0);
    s.subrange(from, digits_end(s, from))
}

/// The episode that a marker gives: its first run of digits, read as a
/// number that a 16-bit signed integer holds.
pub open spec fn episode_of(marker: Seq<char>) -> Option<int> {
    decimal_within(first_digits(marker), 32767)
}

/// The text of a capture group; empty where the group is missing or took no
/// part in the match.
pub open spec fn group_text(groups: Seq<Option<Seq<char>>>, i: int) -> Seq<char> {
    if 0 <= i < groups.len() {
        match groups[i] {
            Some(text) => text,
            None => Seq::empty(),
        }
    } else {
        Seq::empty()
    }
}

/// A text that may be missing; empty where it is.
pub open spec fn text_or_empty(text: Option<Seq<char>>) -> Seq<char> {
    match text {
        Some(t) => t,
        None => Seq::empty(),
    }
}

/// What a title says once tag, season and titles are known: an error where
/// no title was found or the marker gives no episode.
pub open spec fn concluded(
    fansub: Seq<char>,
    season: int,
    titles: Titles,
    marker: Seq<char>,
) -> Result<ParsedTitle, ParseError> {
    let zh = text_or_empty(titles.zh);
    let en = text_or_empty(titles.en);
    let jp = text_or_empty(titles.jp);
    if zh.len() == 0 && en.len() == 0 && jp.len() == 0 {
        Err(ParseError::InvalidTitle)
    } else {
        match episode_of(marker) {
            None => Err(ParseError::InvalidEpisode),
            Some(episode) => Ok(
                ParsedTitle { title_zh: zh, title_en: en, title_jp: jp, season, episode, fansub },
            ),
        }
    }
}

/// What a raw title says, stage by stage: normalized, cut at the episode
/// marker, freed of tag and announcements, split into name and season, the
/// name into titles, the marker read for the episode. The first stage that
/// fails gives the error.
pub open spec fn reading_of(raw: Seq<char>) -> Result<ParsedTitle, ParseError> {
    let title = normalized(raw);
    let fansub = text_or_empty(fansub_of(title));
    match capture_groups(TITLE_PATTERN@, title) {
        None => Err(ParseError::InvalidInput),
        Some(groups) => {
            let season_info = season_info_of(group_text(groups, 1), fansub);
            if season_info.len() == 0 {
                Err(ParseError::InvalidInput)
            } else {
                match season_split(season_info) {
                    None => Err(ParseError::InvalidSeason),
                    Some((name, season)) => concluded(
                        fansub,
                        season,
                        titles_of(name),
                        group_text(groups, 2),
                    ),
                }
            }
        },
    }
}

impl ParsedTitle {
    /// What every title that was read keeps to: it has a name in one
    /// language at least, and season and episode are in range.
    pub open spec fn well_formed(self) -> bool {
        &&& self.title_zh.len() > 0 || self.title_en.len() > 0 || self.title_jp.len() > 0
        &&& 0 <= self.season <= 127
        &&& 0 <= self.episode <= 32767
    }
}

/// Whether a text holds none of the digits `0` to `9`.
pub open spec fn digitless(s: Seq<char>) -> bool {
    forall|i: int| 0 <= i < s.len() ==> !is_digit(#[trigger] s[i])
}

/// The titles that three optional texts stand for.
pub open spec fn titles_found(
    zh: Option<String>,
    en: Option<String>,
    jp: Option<String>,
) -> Titles {
    Titles { zh: zh.deep_view(), en: en.deep_view(), jp: jp.deep_view() }
}

/// The mathematical content of what `parse` returns.
pub open spec fn outcome(r: Result<ParseResult, ParseError>) -> Result<ParsedTitle, ParseError> {
    match r {
        Ok(parsed) => Ok(parsed@),
        Err(e) => Err(e),
    }
}

/// Cuts a text, separators stamped in, into the pieces that may be
/// announcements.
pub fn announcement_candidates(marked: &str) -> (r: Vec<String>)
    ensures
        r.deep_view() == pieces_between(marked@),
{
    let cut = split_fields(marked, Cut::Slash);
    if cut.len() == 1 {
        split_fields(cut[0].as_str(), Cut::Space)
    } else {
        cut
    }
}

fn number_in_frame(v: &Vec<char>) -> (r: String)
    ensures
        r@ == framed_number(v@),
{
    let mut r = String::new();
    let mut i: usize = 0;
    while i < v.len()
        invariant
            i <= v.len(),
            r@ == framed_number(v@.take(i as int)),
        decreases v.len() - i,
    {
        let c = v[i];
        proof {
            assert(v@.take(i + 1).drop_last() =~= v@.take(i as int));
        }
        if !(c == '第' || c == '季' || c == '期' || c == ' ') {
            r.push(c);
        }
        i += 1;
    }
    proof {
        assert(v@.take(v.len() as int) =~= v@);
    }
    r
}

fn numeral(c: char) -> (n: i8)
    ensures
        n == numeral_value(c),
{
    if c == '一' {
        1
    } else if c == '二' {
        2
    } else if c == '三' {
        3
    } else if c == '四' {
        4
    } else if c == '五' {
        5
    } else if c == '六' {
        6
    } else if c == '七' {
        7
    } else if c == '八' {
        8
    } else if c == '九' {
        9
    } else if c == '十' {
        10
    } else {
        -1
    }
}

/// Reads the season out of one season marker; -1 where it gives none.
pub fn season_number(mark: &str) -> (n: i8)
    ensures
        n == season_number_of(mark@),
        -1 <= n,
{
    let v = chars_of(mark);
    if v.len() > 0 && v[0] == 'S' {
        let word = v.len() >= 6 && v[1] == 'e' && v[2] == 'a' && v[3] == 's' && v[4] == 'o' && v[5]
            == 'n';
        proof {
            let head = v@.subrange(0, 6);
            if v.len() >= 6 {
                if word {
                    assert(head =~= seq!['S', 'e', 'a', 's', 'o', 'n']);
                } else {
                    assert(head[1] == v@[1] && head[2] == v@[2] && head[3] == v@[3] && head[4]
                        == v@[4] && head[5] == v@[5]);
                }
            }
        }
        let from: usize = if word {
            6
        } else {
            1
        };
        let rest = string_of(&v, from, v.len());
        let digits = trim(rest.as_str());
        match parse_number(digits.as_str(), 127) {
            Some(n) => n as i8,
            None => -1,
        }
    } else {
        let inner = number_in_frame(&v);
        match parse_number(inner.as_str(), 127) {
            Some(n) => n as i8,
            None => {
                let w = chars_of(inner.as_str());
                if w.len() == 1 {
                    numeral(w[0])
                } else {
                    -1
                }
            },
        }
    }
}

/// Name and season from the season markers found in `flat` and from what
/// is left of `flat` without them.
pub fn season_from_marks(flat: String, marks: &Vec<String>, stripped: &str) -> (r: Option<
    (String, i8),
>)
    ensures
        match r {
            None => season_from(flat@, marks.deep_view(), stripped@) is None,
            Some((name, season)) => season_from(flat@, marks.deep_view(), stripped@) == Some(
                (name@, season as int),
            ),
        },
{
    if marks.len() == 0 {
        return Some((flat, 1));
    }
    let name = trim(stripped);
    let season = season_number(marks[0].as_str());
    if name.as_str().is_empty() || season == -1 {
        None
    } else {
        Some((name, season))
    }
}

/// Drops the empty pieces.
pub fn keep_non_empty(pieces: &Vec<String>) -> (r: Vec<String>)
    ensures
        r.deep_view() == non_empty(pieces.deep_view()),
{
    let mut r: Vec<String> = Vec::new();
    let mut i: usize = 0;
    let ghost all = pieces.deep_view();
    while i < pieces.len()
        invariant
            i <= pieces.len(),
            all == pieces.deep_view(),
            r.deep_view() == non_empty(all.take(i as int)),
        decreases pieces.len() - i,
    {
        proof {
            assert(all.take(i + 1).drop_last() =~= all.take(i as int));
        }
        if !pieces[i].as_str().is_empty() {
            let ghost before = r.deep_view();
            r.push(pieces[i].clone());
            assert(r.deep_view() =~= before.push(all[i as int]));
        }
        i += 1;
    }
    proof {
        assert(all.take(pieces.len() as int) =~= all);
    }
    r
}

/// Reads the episode out of the episode marker.
pub fn parse_episode(marker: &str) -> (r: Result<i16, ParseError>)
    ensures
        match r {
            Ok(n) => episode_of(marker@) == Some(n as int),
            Err(e) => e == ParseError::InvalidEpisode && episode_of(marker@) is None,
        },
{
    let v = chars_of(marker);
    let mut a: usize = 0;
    while a < v.len() && !('0' <= v[a] && v[a] <= '9')
        invariant
            a <= v.len(),
            next_digit(v@, 0) == next_digit(v@, a as int),
        decreases v.len() - a,
    {
        a += 1;
    }
    let mut b: usize = a;
    while b < v.len() && '0' <= v[b] && v[b] <= '9'
        invariant
            a <= b <= v.len(),
            digits_end(v@, a as int) == digits_end(v@, b as int),
        decreases v.len() - b,
    {
        b += 1;
    }
    match parse_decimal(&v, a, b, 32767) {
        Some(n) => Ok(n as i16),
        None => Err(ParseError::InvalidEpisode),
    }
}

fn text_of(text: Option<String>) -> (r: String)
    ensures
        r@ == text_or_empty(text.deep_view()),
{
    match text {
        Some(t) => t,
        None => String::new(),
    }
}

fn group(groups: &Vec<Option<String>>, i: usize) -> (r: String)
    ensures
        r@ == group_text(groups.deep_view(), i as int),
{
    if i < groups.len() {
        match &groups[i] {
            Some(text) => text.clone(),
            None => String::new(),
        }
    } else {
        String::new()
    }
}

/// The last stage: puts the result together from tag, season, the titles
/// found and the episode marker.
pub fn conclude(
    fansub: String,
    season: i8,
    titles: (Option<String>, Option<String>, Option<String>),
    marker: &str,
) -> (r: Result<ParseResult, ParseError>)
    ensures
        outcome(r) == concluded(
            fansub@,
            season as int,
            titles_found(titles.0, titles.1, titles.2),
            marker@,
        ),
{
    let title_zh = text_of(titles.0);
    let title_en = text_of(titles.1);
    let title_jp = text_of(titles.2);
    if title_zh.as_str().is_empty() && title_en.as_str().is_empty() && title_jp.as_str().is_empty()
    {
        return Err(ParseError::InvalidTitle);
    }
    match parse_episode(marker) {
        Err(e) => Err(e),
        Ok(episode) => Ok(ParseResult { title_zh, title_en, title_jp, season, episode, fansub }),
    }
}

/// The texts of the patterns that a grammar is made of, in the order in
/// which it holds them.
pub open spec fn grammar_patterns() -> Seq<Seq<char>> {
    seq![
        TITLE_PATTERN@,
        PREFIX_PATTERN@,
        FANSUB_PATTERN@,
        ANNOUNCEMENT_PATTERN@,
        REGION_PATTERN@,
        SEASON_PATTERN@,
        REGION_NOTE_PATTERN@,
        DIVIDER_PATTERN@,
        UNDERSCORE_PATTERN@,
        SPACED_HYPHEN_PATTERN@,
        HYPHEN_PATTERN@,
        LEADING_CHINESE_PATTERN@,
        CHINESE_PATTERN@,
        ENGLISH_PATTERN@,
        JAPANESE_PATTERN@,
    ]
}

/// Whether the pattern engine accepts every pattern of the grammar.
pub open spec fn grammar_compiles() -> bool {
    forall|i: int|
        0 <= i < grammar_patterns().len() ==> compiles(#[trigger] grammar_patterns()[i])
}

impl View for TitleGrammar {
    type V = Seq<Seq<char>>;

    /// The texts of the patterns held, in order.
    closed spec fn view(&self) -> Seq<Seq<char>> {
        seq![
            self.title@,
            self.prefix@,
            self.bracket@,
            self.announcement@,
            self.region@,
            self.season@,
            self.region_note@,
            self.divider@,
            self.underscore@,
            self.spaced_hyphen@,
            self.hyphen@,
            self.leading_chinese@,
            self.chinese@,
            self.english@,
            self.japanese@,
        ]
    }
}

impl TitleGrammar {
    #[verifier::type_invariant]
    spec fn well_formed(&self) -> bool {
        &&& self.title@ == TITLE_PATTERN@
        &&& self.prefix@ == PREFIX_PATTERN@
        &&& self.bracket@ == FANSUB_PATTERN@
        &&& self.announcement@ == ANNOUNCEMENT_PATTERN@
        &&& self.region@ == REGION_PATTERN@
        &&& self.season@ == SEASON_PATTERN@
        &&& self.region_note@ == REGION_NOTE_PATTERN@
        &&& self.divider@ == DIVIDER_PATTERN@
        &&& self.underscore@ == UNDERSCORE_PATTERN@
        &&& self.spaced_hyphen@ == SPACED_HYPHEN_PATTERN@
        &&& self.hyphen@ == HYPHEN_PATTERN@
        &&& self.leading_chinese@ == LEADING_CHINESE_PATTERN@
        &&& self.chinese@ == CHINESE_PATTERN@
        &&& self.english@ == ENGLISH_PATTERN@
        &&& self.japanese@ == JAPANESE_PATTERN@
    }

    /// Compiles the patterns: there is a grammar where the pattern engine
    /// accepts every pattern, and `None` where it turns one down. A grammar
    /// holds each pattern of the grammar, compiled from its text as written.
    pub fn new() -> (r: Option<TitleGrammar>)
        ensures
            r is Some <==> grammar_compiles(),
            r matches Some(grammar) ==> grammar@ == grammar_patterns(),
    {
        let title = match Pattern::new(TITLE_PATTERN) {
            Some(pattern) => pattern,
            None => {
                assert(grammar_patterns()[0] == TITLE_PATTERN@);
                return None;
            },
        };
        let prefix = match Pattern::new(PREFIX_PATTERN) {
            Some(pattern) => pattern,
            None => {
                assert(grammar_patterns()[1] == PREFIX_PATTERN@);
                return None;
            },
        };
        let bracket = match Pattern::new(FANSUB_PATTERN) {
            Some(pattern) => pattern,
            None => {
                assert(grammar_patterns()[2] == FANSUB_PATTERN@);
                return None;
            },
        };
        let announcement = match Pattern::new(ANNOUNCEMENT_PATTERN) {
            Some(pattern) => pattern,
            None => {
                assert(grammar_patterns()[3] == ANNOUNCEMENT_PATTERN@);
                return None;
            },
        };
        let region = match Pattern::new(REGION_PATTERN) {
            Some(pattern) => pattern,
            None => {
                assert(grammar_patterns()[4] == REGION_PATTERN@);
                return None;
            },
        };
        let season = match Pattern::new(SEASON_PATTERN) {
            Some(pattern) => pattern,
            None => {
                assert(grammar_patterns()[5] == SEASON_PATTERN@);
                return None;
            },
        };
        let region_note = match Pattern::new(REGION_NOTE_PATTERN) {
            Some(pattern) => pattern,
            None => {
                assert(grammar_patterns()[6] == REGION_NOTE_PATTERN@);
                return None;
            },
        };
        let divider = match Pattern::new(DIVIDER_PATTERN) {
            Some(pattern) => pattern,
            None => {
                assert(grammar_patterns()[7] == DIVIDER_PATTERN@);
                return None;
            },
        };
        let underscore = match Pattern::new(UNDERSCORE_PATTERN) {
            Some(pattern) => pattern,
            None => {
                assert(grammar_patterns()[8] == UNDERSCORE_PATTERN@);
                return None;
            },
        };
        let spaced_hyphen = match Pattern::new(SPACED_HYPHEN_PATTERN) {
            Some(pattern) => pattern,
            None => {
                assert(grammar_patterns()[9] == SPACED_HYPHEN_PATTERN@);
                return None;
            },
        };
        let hyphen = match Pattern::new(HYPHEN_PATTERN) {
            Some(pattern) => pattern,
            None => {
                assert(grammar_patterns()[10] == HYPHEN_PATTERN@);
                return None;
            },
        };
        let leading_chinese = match Pattern::new(LEADING_CHINESE_PATTERN) {
            Some(pattern) => pattern,
            None => {
                assert(grammar_patterns()[11] == LEADING_CHINESE_PATTERN@);
                return None;
            },
        };
        let chinese = match Pattern::new(CHINESE_PATTERN) {
            Some(pattern) => pattern,
            None => {
                assert(grammar_patterns()[12] == CHINESE_PATTERN@);
                return None;
            },
        };
        let english = match Pattern::new(ENGLISH_PATTERN) {
            Some(pattern) => pattern,
            None => {
                assert(grammar_patterns()[13] == ENGLISH_PATTERN@);
                return None;
            },
        };
        let japanese = match Pattern::new(JAPANESE_PATTERN) {
            Some(pattern) => pattern,
            None => {
                assert(grammar_patterns()[14] == JAPANESE_PATTERN@);
                return None;
            },
        };
        let grammar = TitleGrammar {
            title,
            prefix,
            bracket,
            announcement,
            region,
            season,
            region_note,
            divider,
            underscore,
            spaced_hyphen,
            hyphen,
            leading_chinese,
            chinese,
            english,
            japanese,
        };
        assert(grammar@ =~= grammar_patterns());
        assert forall|i: int| 0 <= i < grammar_patterns().len() implies compiles(
            #[trigger] grammar_patterns()[i],
        ) by {
            assert(grammar_patterns()[i] == grammar@[i]);
        }
        Some(grammar)
    }

    /// The release group's tag of a normalized title, if brackets set one off.
    pub fn parse_fansub(&self, title: &str) -> (r: Option<String>)
        ensures
            r.deep_view() == fansub_of(title@),
    {
        proof {
            use_type_invariant(self);
        }
        let pieces = self.bracket.split(title);
        if pieces.len() > 1 {
            Some(pieces[1].clone())
        } else {
            None
        }
    }

    /// Frees the stretch before the episode marker of the bracketed tag and
    /// of announcements.
    pub fn remove_prefix(&self, info: &str, fansub: &str) -> (r: String)
        ensures
            r@ == season_info_of(info@, fansub@),
    {
        proof {
            use_type_invariant(self);
        }
        let raw = if fansub.is_empty() {
            info.to_owned()
        } else {
            strip_wrapped(info, fansub, Wrap::Brackets)
        };
        let marked = self.prefix.replace_all(raw.as_str(), "/");
        let pieces = announcement_candidates(marked.as_str());
        let ghost all = pieces.deep_view();
        let mut result = raw.clone();
        let mut k: usize = 0;
        while k < pieces.len()
            invariant
                k <= pieces.len(),
                all == pieces.deep_view(),
                self.announcement@ == ANNOUNCEMENT_PATTERN@,
                self.region@ == REGION_PATTERN@,
                result@ == without_announcements(raw@, all.take(k as int)),
            decreases pieces.len() - k,
        {
            let piece = pieces[k].as_str();
            proof {
                assert(all.take(k + 1).drop_last() =~= all.take(k as int));
            }
            let short = piece.unicode_len() <= 5;
            if (self.announcement.is_match(piece) && short) || self.region.is_match(piece) {
                result = strip_wrapped(result.as_str(), piece, Wrap::Neighbours);
            }
            k += 1;
        }
        proof {
            assert(all.take(pieces.len() as int) =~= all);
        }
        trim(result.as_str())
    }

    /// Splits a trimmed stretch into name and season.
    pub fn parse_season(&self, info: &str) -> (r: Option<(String, i8)>)
        ensures
            match r {
                None => season_split(info@) is None,
                Some((name, season)) => season_split(info@) == Some((name@, season as int)),
            },
    {
        proof {
            use_type_invariant(self);
        }
        let flat = self.bracket.replace_all(info, " ");
        let marks = self.season.find_all(flat.as_str());
        let stripped = self.season.replace_all(flat.as_str(), "");
        season_from_marks(flat, &marks, stripped.as_str())
    }

    fn part_by_language(&self, piece: &String) -> (r: Vec<String>)
        ensures
            r.deep_view() == parted_by_language(piece@),
    {
        proof {
            use_type_invariant(self);
        }
        let words = split_fields(piece.as_str(), Cut::Space);
        let n = words.len();
        let ghost all = words.deep_view();
        let mut r: Vec<String> = Vec::new();
        if n >= 2 && self.leading_chinese.is_match(words[0].as_str()) {
            proof {
                assert(all.drop_first() =~= all.subrange(1, n as int));
            }
            r.push(words[0].clone());
            r.push(join(&words, 1, n, " "));
            assert(r.deep_view() =~= seq![all.first(), joined(all.drop_first(), " "@)]);
        } else if n >= 2 && self.leading_chinese.is_match(words[n - 1].as_str()) {
            proof {
                assert(all.drop_last() =~= all.subrange(0, n - 1));
            }
            r.push(words[n - 1].clone());
            r.push(join(&words, 0, n - 1, " "));
            assert(r.deep_view() =~= seq![all.last(), joined(all.drop_last(), " "@)]);
        } else {
            r.push(piece.clone());
            assert(r.deep_view() =~= seq![piece@]);
        }
        r
    }

    fn pieces_of_name(&self, name: &str) -> (r: Vec<String>)
        ensures
            r.deep_view() == name_pieces(name@),
    {
        proof {
            use_type_invariant(self);
        }
        let divided = keep_non_empty(&self.divider.split(name));
        let parts = if divided.len() != 1 {
            divided
        } else if self.underscore.is_match(name) {
            self.underscore.split(name)
        } else if self.spaced_hyphen.is_match(name) {
            self.hyphen.split(name)
        } else {
            divided
        };
        if parts.len() == 1 {
            self.part_by_language(&parts[0])
        } else {
            parts
        }
    }

    /// Finds in a name the titles in each language.
    pub fn parse_title(&self, title: &str) -> (r: (Option<String>, Option<String>, Option<String>))
        ensures
            titles_found(r.0, r.1, r.2) == titles_of(title@),
    {
        proof {
            use_type_invariant(self);
        }
        let name = self.region_note.replace_all(title, "");
        let pieces = self.pieces_of_name(name.as_str());
        let ghost all = pieces.deep_view();
        let mut title_zh: Option<String> = None;
        let mut title_en: Option<String> = None;
        let mut title_jp: Option<String> = None;
        let mut i: usize = 0;
        while i < pieces.len()
            invariant
                i <= pieces.len(),
                all == pieces.deep_view(),
                self.chinese@ == CHINESE_PATTERN@,
                self.english@ == ENGLISH_PATTERN@,
                self.japanese@ == JAPANESE_PATTERN@,
                titles_found(title_zh, title_en, title_jp) == classified(all.take(i as int)),
            decreases pieces.len() - i,
        {
            let piece = pieces[i].as_str();
            proof {
                assert(all.take(i + 1).drop_last() =~= all.take(i as int));
            }
            if self.chinese.is_match(piece) {
                title_zh = Some(trim(piece));
            } else if self.english.is_match(piece) {
                title_en = Some(trim(piece));
            } else if self.japanese.is_match(piece) {
                title_jp = Some(trim(piece));
            }
            i += 1;
        }
        proof {
            assert(all.take(pieces.len() as int) =~= all);
        }
        (title_zh, title_en, title_jp)
    }

    /// Reads a release title.
    pub fn parse(&self, title: &str) -> (r: Result<ParseResult, ParseError>)
        ensures
            outcome(r) == reading_of(title@),
    {
        proof {
            use_type_invariant(self);
        }
        let title = normalize(title);
        let fansub = text_of(self.parse_fansub(title.as_str()));
        let groups = match self.title.captures(title.as_str()) {
            Some(groups) => groups,
            None => return Err(ParseError::InvalidInput),
        };
        let season_info = self.remove_prefix(group(&groups, 1).as_str(), fansub.as_str());
        if season_info.as_str().is_empty() {
            return Err(ParseError::InvalidInput);
        }
        let (name, season) = match self.parse_season(season_info.as_str()) {
            Some(split) => split,
            None => return Err(ParseError::InvalidSeason),
        };
        let titles = self.parse_title(name.as_str());
        conclude(fansub, season, titles, group(&groups, 2).as_str())
    }
}

/// Reads a release title: the series name in up to three languages, season,
/// episode and the release group's tag, or the stage at which the reading
/// failed. Where the pattern engine turns a pattern of the grammar down,
/// no title can be read, and the answer is `InvalidInput`.
pub fn parse(title: &str) -> (r: Result<ParseResult, ParseError>)
    ensures
        grammar_compiles() ==> outcome(r) == reading_of(title@),
        !grammar_compiles() ==> r == Err::<ParseResult, ParseError>(ParseError::InvalidInput),
        r matches Ok(parsed) ==> parsed@.well_formed(),
{
    proof {
        read_title_is_well_formed(title@);
    }
    match TitleGrammar::new() {
        Some(grammar) => grammar.parse(title),
        None => Err(ParseError::InvalidInput),
    }
}

/// A season marker gives a season from 0 to 127, or -1.
pub proof fn season_number_in_range(mark: Seq<char>)
    ensures
        -1 <= season_number_of(mark) <= 127,
{
    if mark.len() > 0 && mark[0] == 'S' {
        let rest = if starts_with_season(mark) {
            mark.skip(6)
        } else {
            mark.skip(1)
        };
        if decimal_within(trimmed(rest), 127) is Some {
            decimal_value_nonnegative(trimmed(rest));
        }
    } else {
        let inner = framed_number(mark);
        if decimal_within(inner, 127) is Some {
            decimal_value_nonnegative(inner);
        }
    }
}

/// A marker that holds none of the digits `0` to `9` gives no episode.
pub proof fn no_digits_no_episode(marker: Seq<char>)
    requires
        digitless(marker),
    ensures
        episode_of(marker) is None,
{
    next_digit_is_end(marker, 0);
}

proof fn next_digit_is_end(s: Seq<char>, i: int)
    requires
        digitless(s),
        0 <= i <= s.len(),
    ensures
        next_digit(s, i) == s.len(),
    decreases s.len() - i,
{
    if i < s.len() {
        next_digit_is_end(s, i + 1);
    }
}

proof fn digit_run_bounds(s: Seq<char>, i: int)
    requires
        0 <= i <= s.len(),
    ensures
        i <= next_digit(s, i) <= s.len(),
        i <= digits_end(s, i) <= s.len(),
    decreases s.len() - i,
{
    if i < s.len() {
        digit_run_bounds(s, i + 1);
    }
}

/// A title that reads has a name in one language at least, a season from
/// 0 to 127 and an episode from 0 to 32767.
pub proof fn read_title_is_well_formed(raw: Seq<char>)
    ensures
        reading_of(raw) matches Ok(parsed) ==> parsed.well_formed(),
{
    match reading_of(raw) {
        Ok(parsed) => {
            let title = normalized(raw);
            let fansub = text_or_empty(fansub_of(title));
            let groups = capture_groups(TITLE_PATTERN@, title)->0;
            let season_info = season_info_of(group_text(groups, 1), fansub);
            let flat = replaced_all(FANSUB_PATTERN@, season_info, " "@);
            let marks = all_matches(SEASON_PATTERN@, flat);
            if marks.len() > 0 {
                season_number_in_range(marks[0]);
            }
            let marker = group_text(groups, 2);
            digit_run_bounds(marker, 0);
            digit_run_bounds(marker, next_digit(marker, 0));
            decimal_value_nonnegative(first_digits(marker));
        },
        Err(_) => {},
    }
}

/// Whether the episode marker that the title pattern finds in a raw title
/// holds none of the digits `0` to `9`.
pub open spec fn has_digitless_marker(raw: Seq<char>) -> bool {
    match capture_groups(TITLE_PATTERN@, normalized(raw)) {
        Some(groups) => digitless(group_text(groups, 2)),
        None => false,
    }
}

/// Whether the stages before the last succeed on a raw title: the title
/// pattern matches, and season and a name are found.
pub open spec fn has_season_and_name(raw: Seq<char>) -> bool {
    let title = normalized(raw);
    match capture_groups(TITLE_PATTERN@, title) {
        Some(groups) => {
            let season_info = season_info_of(
                group_text(groups, 1),
                text_or_empty(fansub_of(title)),
            );
            season_info.len() > 0 && match season_split(season_info) {
                Some((name, _)) => {
                    let titles = titles_of(name);
                    text_or_empty(titles.zh).len() > 0 || text_or_empty(titles.en).len() > 0
                        || text_or_empty(titles.jp).len() > 0
                },
                None => false,
            }
        },
        None => false,
    }
}

/// A title whose episode marker holds none of the digits `0` to `9` does
/// not read, and where the stages before the last find season and name, the
/// error is `InvalidEpisode`.
pub proof fn marker_without_digits_is_invalid(raw: Seq<char>)
    ensures
        has_digitless_marker(raw) ==> reading_of(raw) is Err,
        has_digitless_marker(raw) && has_season_and_name(raw) ==> reading_of(raw) == Err::<
            ParsedTitle,
            ParseError,
        >(ParseError::InvalidEpisode),
{
    if has_digitless_marker(raw) {
        let groups = capture_groups(TITLE_PATTERN@, normalized(raw))->0;
        no_digits_no_episode(group_text(groups, 2));
    }
}

proof fn digits_run_to_end(s: Seq<char>, i: int)
    requires
        0 <= i <= s.len(),
        forall|k: int| i <= k < s.len() ==> is_digit(#[trigger] s[k]),
    ensures
        digits_end(s, i) == s.len(),
    decreases s.len() - i,
{
    if i < s.len() {
        digits_run_to_end(s, i + 1);
    }
}

/// The marker `S` with a season from 0 to 99 after it, written in two
/// places, gives that season.
pub proof fn season_marker_reads_back(season: int)
    requires
        0 <= season <= 99,
    ensures
        season_number_of(seq!['S'] + two_places(season)) == season,
{
    let digits = two_places(season);
    let mark = seq!['S'] + digits;
    two_places_reads_back(season);
    assert(mark.skip(1) =~= digits);
    assert(is_digit(digits.first()) && is_digit(digits.last()));
    bare_text_is_trimmed(digits);
}

/// The marker made of a spaced hyphen and an episode from 0 to 32767,
/// written in two places or more, gives that episode.
pub proof fn episode_marker_reads_back(episode: int)
    requires
        0 <= episode <= 32767,
    ensures
        episode_of(seq![' ', '-', ' '] + two_places(episode)) == Some(episode),
{
    let digits = two_places(episode);
    let marker = seq![' ', '-', ' '] + digits;
    two_places_reads_back(episode);
    assert(!is_digit(marker[0]) && !is_digit(marker[1]) && !is_digit(marker[2]));
    assert(marker[3] == digits[0]);
    assert(next_digit(marker, 3) == 3);
    assert(next_digit(marker, 2) == 3);
    assert(next_digit(marker, 1) == 3);
    assert(next_digit(marker, 0) == 3);
    assert forall|k: int| 3 <= k < marker.len() implies is_digit(#[trigger] marker[k]) by {
        assert(marker[k] == digits[k - 3]);
    }
    digits_run_to_end(marker, 3);
    assert(marker.subrange(3, marker.len() as int) =~= digits);
}

} // verus!
