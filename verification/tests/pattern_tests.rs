use ottobangumi::pattern::Pattern;
use ottobangumi::title_parser::{
    ANNOUNCEMENT_PATTERN, CHINESE_PATTERN, DIVIDER_PATTERN, ENGLISH_PATTERN, FANSUB_PATTERN,
    HYPHEN_PATTERN, JAPANESE_PATTERN, LEADING_CHINESE_PATTERN, PREFIX_PATTERN, REGION_NOTE_PATTERN,
    REGION_PATTERN, SEASON_PATTERN, SPACED_HYPHEN_PATTERN, TITLE_PATTERN, UNDERSCORE_PATTERN,
};

#[test]
fn patterns_of_the_grammar_compile() {
    let patterns = [
        TITLE_PATTERN,
        PREFIX_PATTERN,
        FANSUB_PATTERN,
        ANNOUNCEMENT_PATTERN,
        REGION_PATTERN,
        SEASON_PATTERN,
        REGION_NOTE_PATTERN,
        DIVIDER_PATTERN,
        UNDERSCORE_PATTERN,
        SPACED_HYPHEN_PATTERN,
        HYPHEN_PATTERN,
        LEADING_CHINESE_PATTERN,
        CHINESE_PATTERN,
        ENGLISH_PATTERN,
        JAPANESE_PATTERN,
    ];
    for pattern in patterns {
        assert!(Pattern::new(pattern).is_some(), "{}", pattern);
    }
}

#[test]
fn malformed_pattern_is_turned_down() {
    assert!(Pattern::new("(").is_none());
    assert!(Pattern::new("[a").is_none());
    assert!(Pattern::new(r"\w{100000}").is_none());
    assert!(Pattern::new("").is_some());
}
