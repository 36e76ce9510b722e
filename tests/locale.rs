use icu_provider_core::locale::{
    parse_language_identifier, parse_language_identifier_from_iter, split_subtags, LanguageIdentifier,
    ParserError, ParserMode,
};

fn parse_id(s: &str) -> LanguageIdentifier {
    parse_language_identifier(s.as_bytes(), ParserMode::LanguageIdentifier).unwrap()
}

fn text(l: &LanguageIdentifier) -> String {
    String::from_utf8(l.to_bytes()).unwrap()
}

#[test]
fn language() {
    let lang = parse_id("Pl");
    assert_eq!(text(&lang), "pl");
    assert_eq!(lang, parse_id("pL"));
}

#[test]
fn script() {
    let l = parse_id("und-latn");
    assert_eq!(text(&l), "und-Latn");
    assert_eq!(l, parse_id("und-lAtN"));
}

#[test]
fn region() {
    let l = parse_id("und-us");
    assert_eq!(text(&l), "und-US");
    assert_eq!(l, parse_id("und-US"));
}

#[test]
fn variant() {
    let l = parse_id("und-macOS");
    assert_eq!(text(&l), "und-macos");
    assert_eq!(l, parse_id("und-MACOS"));
}

#[test]
fn langid() {
    let l = parse_id("de_Arab_aT");
    assert_eq!(text(&l), "de-Arab-AT");
    assert_eq!(l, parse_id("de-Arab-AT"));
}

#[test]
fn und_is_zero_and_first() {
    let und = parse_id("und");
    assert_eq!(und, LanguageIdentifier::und());
    assert_eq!(text(&und), "und");
    assert_eq!(und.compare_to(&parse_id("af")), std::cmp::Ordering::Less);
    assert_eq!(parse_id("de").compare_to(&parse_id("en")), std::cmp::Ordering::Less);
    assert_eq!(parse_id("en").compare_to(&parse_id("en-US")), std::cmp::Ordering::Less);
    assert_eq!(parse_id("en-GB").compare_to(&parse_id("en-US")), std::cmp::Ordering::Less);
}

#[test]
fn numeric_region_and_long_language() {
    assert_eq!(text(&parse_id("es-419")), "es-419");
    assert_eq!(text(&parse_id("abcdefgh")), "abcdefgh");
}

#[test]
fn parse_errors() {
    assert_eq!(
        parse_language_identifier(b"", ParserMode::LanguageIdentifier),
        Err(ParserError::InvalidLanguage)
    );
    assert_eq!(
        parse_language_identifier(b"2Xs", ParserMode::LanguageIdentifier),
        Err(ParserError::InvalidLanguage)
    );
    assert_eq!(
        parse_language_identifier(b"root", ParserMode::LanguageIdentifier),
        Err(ParserError::InvalidLanguage)
    );
    assert_eq!(
        parse_language_identifier(b"en-$$", ParserMode::LanguageIdentifier),
        Err(ParserError::InvalidSubtag)
    );
    assert_eq!(
        parse_language_identifier(b"en-US-Latn", ParserMode::LanguageIdentifier),
        Err(ParserError::InvalidSubtag)
    );
}

#[test]
fn parse_modes() {
    assert_eq!(
        parse_language_identifier(b"en-US-u-ca-buddhist", ParserMode::Locale),
        Ok(parse_id("en-US"))
    );
    assert_eq!(
        parse_language_identifier(b"en-US-u-ca", ParserMode::LanguageIdentifier),
        Err(ParserError::InvalidSubtag)
    );
    assert_eq!(
        parse_language_identifier(b"en-US-$$", ParserMode::Partial),
        Ok(parse_id("en-US"))
    );
    assert_eq!(
        parse_language_identifier(b"en-US-$$", ParserMode::Locale),
        Err(ParserError::InvalidSubtag)
    );
}

#[test]
fn from_iter_leaves_the_stopping_subtag() {
    let parts = split_subtags(b"en-US-u-ca-buddhist");
    let mut next: usize = 0;
    let l = parse_language_identifier_from_iter(&parts, &mut next, ParserMode::Locale).unwrap();
    assert_eq!(l, parse_id("en-US"));
    assert_eq!(next, 2);
    let parts = split_subtags(b"x-de-AT-$$-y");
    let mut next: usize = 1;
    let l = parse_language_identifier_from_iter(&parts, &mut next, ParserMode::Partial).unwrap();
    assert_eq!(l, parse_id("de-AT"));
    assert_eq!(next, 3);
    let mut next: usize = 1;
    assert_eq!(
        parse_language_identifier_from_iter(&parts, &mut next, ParserMode::LanguageIdentifier),
        Err(ParserError::InvalidSubtag)
    );
    assert_eq!(next, 3);
    let parts = split_subtags(b"");
    let mut next: usize = 0;
    assert_eq!(
        parse_language_identifier_from_iter(&parts, &mut next, ParserMode::Locale),
        Err(ParserError::InvalidLanguage)
    );
    assert_eq!(next, 1);
}
