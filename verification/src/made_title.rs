use crate::pattern::{all_matches, capture_groups, found_in, replaced_all, split_pieces};
use crate::text::{
    back_space, bare_text_is_trimmed, fields, fields_scan, fields_scan_runs, is_digit,
    nothing_wrapped_stays, one_field, separates, skip_space, trimmed, two_places,
    two_places_reads_back, unwrapped, unwrapped_from, white_space, wrapped_at, Cut, Wrap,
};
use crate::title_parser::{
    classified, concluded, episode_marker_reads_back, episode_of, fansub_of, group_text,
    is_announcement, name_pieces, non_empty, normalized, parted_by_language, pieces_between,
    plain_bracket, reading_of, season_from, season_info_of, season_marker_reads_back,
    season_number_of, season_split, text_or_empty, titles_of, without_announcements, ParseError,
    ParsedTitle, Titles, CHINESE_PATTERN, DIVIDER_PATTERN, ENGLISH_PATTERN, FANSUB_PATTERN,
    PREFIX_PATTERN, REGION_NOTE_PATTERN, SEASON_PATTERN, SPACED_HYPHEN_PATTERN, TITLE_PATTERN,
    UNDERSCORE_PATTERN,
};
use vstd::prelude::*;

verus! {

/// The tag of the titles made up here.
pub open spec fn made_tag() -> Seq<char> {
    seq!['T', 'a', 'g']
}

/// The name of the titles made up here.
pub open spec fn made_name() -> Seq<char> {
    seq!['N', 'a', 'm', 'e']
}

/// The season marker of a made-up title: `S` and the season in two places.
pub open spec fn made_season(season: int) -> Seq<char> {
    seq!['S'] + two_places(season)
}

/// The episode marker of a made-up title: a spaced hyphen and the episode
/// in two places.
pub open spec fn made_episode(episode: int) -> Seq<char> {
    seq![' ', '-', ' '] + two_places(episode)
}

/// Name and season of a made-up title.
pub open spec fn made_info(season: int) -> Seq<char> {
    made_name() + seq![' '] + made_season(season)
}

/// What leads up to the episode marker of a made-up title: the tag in
/// brackets, the name, the season marker.
pub open spec fn made_lead(season: int) -> Seq<char> {
    seq!['['] + made_tag() + seq![']', ' '] + made_info(season)
}

/// The title made up of a tag, a name, a season and an episode, as in
/// `[Tag] Name S02 - 07`.
pub open spec fn made_title(season: int, episode: int) -> Seq<char> {
    made_lead(season) + made_episode(episode)
}

/// The season of a made-up title is written in two digits.
proof fn made_season_spelled(season: int)
    requires
        0 <= season <= 99,
    ensures
        made_season(season).len() == 3,
        made_season(season)[0] == 'S',
        is_digit(made_season(season)[1]),
        is_digit(made_season(season)[2]),
        made_info(season).len() == 8,
        made_lead(season).len() == 14,
        made_lead(season) =~= seq![
            '[',
            'T',
            'a',
            'g',
            ']',
            ' ',
            'N',
            'a',
            'm',
            'e',
            ' ',
            'S',
            made_season(season)[1],
            made_season(season)[2],
        ],
{
    two_places_reads_back(season);
    let digits = two_places(season);
    assert(is_digit(digits[0]) && is_digit(digits[1]));
}

/// A made-up title is in the form that the patterns expect.
proof fn made_title_is_normal(season: int, episode: int)
    requires
        0 <= season <= 99,
        0 <= episode <= 99,
    ensures
        normalized(made_title(season, episode)) == made_title(season, episode),
{
    let title = made_title(season, episode);
    made_season_spelled(season);
    two_places_reads_back(episode);
    let digits = two_places(episode);
    assert(is_digit(digits[0]) && is_digit(digits[1]));
    assert(title.len() == 19);
    assert(title.first() == '[');
    assert(title.last() == digits[1]);
    bare_text_is_trimmed(title);
    let lead = made_lead(season);
    assert forall|i: int| 0 <= i < title.len() implies plain_bracket(#[trigger] title[i])
        == title[i] by {
        if i < 14 {
            assert(title[i] == lead[i]);
        } else if i < 17 {
            assert(title[i] == seq![' ', '-', ' '][i - 14]);
        } else {
            assert(title[i] == digits[i - 17]);
        }
    }
    assert(title.map_values(|c: char| plain_bracket(c)) =~= title);
}

/// Without its bracketed tag, what leads up to the episode marker of a
/// made-up title is a space, the name and the season marker.
proof fn made_lead_loses_tag(season: int)
    requires
        0 <= season <= 99,
    ensures
        unwrapped(made_lead(season), made_tag(), Wrap::Brackets) == seq![' '] + made_info(season),
{
    made_season_spelled(season);
    let lead = made_lead(season);
    assert(lead.subrange(1, 4) =~= made_tag());
    assert(wrapped_at(lead, made_tag(), Wrap::Brackets, 0));
    nothing_wrapped_stays(lead, made_tag(), Wrap::Brackets, 5);
    assert(lead.subrange(5, 14) =~= seq![' '] + made_info(season));
}

/// Name and season marker are the words of what is left.
proof fn made_info_in_words(season: int)
    requires
        0 <= season <= 99,
    ensures
        ({
            let bare = seq![' '] + made_info(season);
            &&& fields(bare, Cut::Slash) == seq![bare]
            &&& fields(bare, Cut::Space) == seq![made_name(), made_season(season)]
            &&& trimmed(bare) == made_info(season)
            &&& trimmed(made_name() + seq![' ']) == made_name()
            &&& trimmed(made_name()) == made_name()
            &&& fields(made_name(), Cut::Space) == seq![made_name()]
        }),
{
    made_season_spelled(season);
    let bare = seq![' '] + made_info(season);
    let mark = made_season(season);
    assert(bare =~= seq![' ', 'N', 'a', 'm', 'e', ' ', 'S', mark[1], mark[2]]);
    one_field(bare, Cut::Slash);
    assert(separates(Cut::Space, bare[0]));
    assert(separates(Cut::Space, bare[5]));
    fields_scan_runs(bare, Cut::Space, 1, 1, 5);
    fields_scan_runs(bare, Cut::Space, 6, 6, 9);
    assert(bare.subrange(1, 5) =~= made_name());
    assert(bare.subrange(6, 9) =~= mark);
    assert(fields_scan(bare, Cut::Space, 6, 9) =~= seq![mark]);
    assert(fields_scan(bare, Cut::Space, 1, 5) =~= seq![made_name()] + fields_scan(
        bare,
        Cut::Space,
        6,
        6,
    ));
    assert(fields_scan(bare, Cut::Space, 0, 0) =~= fields_scan(bare, Cut::Space, 1, 1));
    assert(fields(bare, Cut::Space) =~= seq![made_name(), mark]);
    assert(skip_space(bare, 1) == 1);
    assert(skip_space(bare, 0) == 1);
    assert(back_space(bare, 1, 9) == 9);
    assert(bare.subrange(1, 9) =~= made_info(season));
    let padded = made_name() + seq![' '];
    assert(skip_space(padded, 0) == 0);
    assert(back_space(padded, 0, 4) == 4);
    assert(back_space(padded, 0, 5) == 4);
    assert(padded.subrange(0, 4) =~= made_name());
    bare_text_is_trimmed(made_name());
    one_field(made_name(), Cut::Space);
}

/// Whether the patterns do on a made-up title what they are written for:
/// the brackets set the tag off, the title pattern cuts the title before
/// and after the episode marker, the season pattern finds the season marker
/// and nothing else, the name is English and nothing else, and no other
/// pattern finds anything.
pub open spec fn patterns_read_made_title(season: int, episode: int) -> bool {
    let title = made_title(season, episode);
    let bare = seq![' '] + made_info(season);
    let info = made_info(season);
    &&& fansub_of(title) == Some(made_tag())
    &&& capture_groups(TITLE_PATTERN@, title) is Some
    &&& group_text(capture_groups(TITLE_PATTERN@, title)->0, 1) == made_lead(season)
    &&& group_text(capture_groups(TITLE_PATTERN@, title)->0, 2) == made_episode(episode)
    &&& replaced_all(PREFIX_PATTERN@, bare, "/"@) == bare
    &&& !is_announcement(made_name())
    &&& !is_announcement(made_season(season))
    &&& replaced_all(FANSUB_PATTERN@, info, " "@) == info
    &&& all_matches(SEASON_PATTERN@, info) == seq![made_season(season)]
    &&& replaced_all(SEASON_PATTERN@, info, ""@) == made_name() + seq![' ']
    &&& replaced_all(REGION_NOTE_PATTERN@, made_name(), ""@) == made_name()
    &&& split_pieces(DIVIDER_PATTERN@, made_name()) == seq![made_name()]
    &&& !found_in(UNDERSCORE_PATTERN@, made_name())
    &&& !found_in(SPACED_HYPHEN_PATTERN@, made_name())
    &&& !found_in(CHINESE_PATTERN@, made_name())
    &&& found_in(ENGLISH_PATTERN@, made_name())
}

/// What a made-up title is to read as.
pub open spec fn made_reading(season: int, episode: int) -> ParsedTitle {
    ParsedTitle {
        title_zh: Seq::empty(),
        title_en: made_name(),
        title_jp: Seq::empty(),
        season,
        episode,
        fansub: made_tag(),
    }
}

/// A title made up of a tag, a name, a season and an episode reads back as
/// these, where the patterns do on it what they are written for. What the
/// patterns do is not defined here, so this is shown of the rest of the
/// reading only.
pub proof fn made_title_reads_back(season: int, episode: int)
    requires
        0 <= season <= 99,
        0 <= episode <= 99,
    ensures
        patterns_read_made_title(season, episode) ==> reading_of(made_title(season, episode))
            == Ok::<ParsedTitle, ParseError>(made_reading(season, episode)),
{
    if patterns_read_made_title(season, episode) {
        let title = made_title(season, episode);
        let bare = seq![' '] + made_info(season);
        let info = made_info(season);
        let name = made_name();
        let mark = made_season(season);
        made_title_is_normal(season, episode);
        made_lead_loses_tag(season);
        made_info_in_words(season);
        season_marker_reads_back(season);
        episode_marker_reads_back(episode);
        let groups = capture_groups(TITLE_PATTERN@, title)->0;
        // the stretch before the marker, freed of tag and announcements
        let pieces = pieces_between(bare);
        assert(pieces == seq![name, mark]);
        assert(pieces.drop_last() =~= seq![name]);
        assert(seq![name].drop_last() =~= Seq::<Seq<char>>::empty());
        assert(without_announcements(bare, Seq::<Seq<char>>::empty()) == bare);
        assert(without_announcements(bare, seq![name]) == bare);
        assert(without_announcements(bare, pieces) == bare);
        assert(season_info_of(made_lead(season), made_tag()) == info);
        // name and season
        assert(season_split(info) == Some((name, season)));
        // the titles in the name
        let divided = non_empty(seq![name]);
        assert(non_empty(Seq::<Seq<char>>::empty()) =~= Seq::<Seq<char>>::empty());
        assert(divided =~= seq![name]);
        assert(parted_by_language(name) == seq![name]);
        assert(name_pieces(name) == seq![name]);
        assert(classified(Seq::<Seq<char>>::empty()) == (Titles {
            zh: None,
            en: None,
            jp: None,
        }));
        assert(classified(seq![name]) == (Titles { zh: None, en: Some(name), jp: None }));
        assert(titles_of(name) == (Titles { zh: None, en: Some(name), jp: None }));
        assert(concluded(made_tag(), season, titles_of(name), made_episode(episode)) == Ok::<
            ParsedTitle,
            ParseError,
        >(made_reading(season, episode)));
    }
}

} // verus!
