use avvai_core::auth::extract_bearer;
use avvai_core::auth::parse_allowed_emails;
use avvai_core::dictionary::clean_json_response;
use avvai_core::dictionary::normalise;
use avvai_core::lesson::card_id;
use avvai_core::lesson::lesson_filename_for_id;
use avvai_core::lesson::lesson_summaries;
use avvai_core::lesson::vocabulary_cards;
use avvai_core::lesson::ContentSection;
use avvai_core::lesson::Lesson;
use avvai_core::lesson::ProseSection;
use avvai_core::lesson::VocabularyEntry;
use avvai_core::lesson::VocabularySection;
use avvai_core::text::decimal_string;
use avvai_core::text::str_eq;
use avvai_core::text::str_eq_ignore_ascii_case;
use avvai_core::text::trim;

fn entry(word: &str, meaning: &str) -> VocabularyEntry {
    VocabularyEntry {
        word: word.to_string(),
        meaning: meaning.to_string(),
    }
}

fn lesson(id: &str, sections: Vec<ContentSection>) -> Lesson {
    Lesson {
        id: id.to_string(),
        title: format!("{id} title"),
        description: format!("{id} description"),
        source: None,
        sections,
    }
}

#[test]
fn vocabulary_cards_derive_ids_in_order() {
    let lessons = vec![
        lesson(
            "L1",
            vec![
                ContentSection::Prose(ProseSection {
                    title: None,
                    paragraphs: vec!["text".to_string()],
                }),
                ContentSection::Vocabulary(VocabularySection {
                    title: None,
                    entries: vec![entry("w0", "m0"), entry("w1", "m1")],
                }),
            ],
        ),
        lesson(
            "L2",
            vec![ContentSection::Vocabulary(VocabularySection {
                title: None,
                entries: vec![entry("x0", "y0")],
            })],
        ),
    ];
    let cards = vocabulary_cards(&lessons);
    assert_eq!(cards.len(), 3);
    assert_eq!(cards[0].id, "L1:vocab:0");
    assert_eq!(cards[0].front, "w0");
    assert_eq!(cards[0].back, "m0");
    assert_eq!(cards[1].id, "L1:vocab:1");
    assert_eq!(cards[1].front, "w1");
    assert_eq!(cards[2].id, "L2:vocab:0");
    assert_eq!(cards[2].back, "y0");
}

#[test]
fn lessons_without_vocabulary_derive_no_cards() {
    let lessons = vec![lesson("L1", Vec::new())];
    assert!(vocabulary_cards(&lessons).is_empty());
}

#[test]
fn card_ids_use_decimal_indexes() {
    assert_eq!(card_id("L10", 0), "L10:vocab:0");
    assert_eq!(card_id("L10", 12), "L10:vocab:12");
    assert_eq!(decimal_string(0), "0");
    assert_eq!(decimal_string(42), "42");
    assert_eq!(decimal_string(u64::MAX), "18446744073709551615");
}

#[test]
fn summaries_keep_lesson_order_and_strings() {
    let lessons = vec![lesson("a", Vec::new()), lesson("b", Vec::new())];
    let summaries = lesson_summaries(&lessons);
    assert_eq!(summaries.len(), 2);
    assert_eq!(summaries[0].id, "a");
    assert_eq!(summaries[0].title, "a title");
    assert_eq!(summaries[1].description, "b description");
}

#[test]
fn lesson_filenames_take_the_data_suffix() {
    assert_eq!(lesson_filename_for_id("intro"), "intro.json");
}

#[test]
fn normalise_trims_and_lowercases() {
    assert_eq!(normalise("  HeLLo \t"), "hello");
    assert_eq!(normalise("ALREADY"), "already");
    assert_eq!(normalise("   "), "");
    assert_eq!(normalise(""), "");
}

#[test]
fn trim_removes_unicode_whitespace() {
    assert_eq!(trim(" \u{00A0}\u{2003}word\u{3000} "), "word");
    assert_eq!(trim("word"), "word");
    assert_eq!(trim(""), "");
}

#[test]
fn string_comparisons() {
    assert!(str_eq("abc", "abc"));
    assert!(!str_eq("abc", "abd"));
    assert!(!str_eq("abc", "ab"));
    assert!(str_eq_ignore_ascii_case("Bearer", "bEARER"));
    assert!(!str_eq_ignore_ascii_case("Bearer", "Basic"));
}

#[test]
fn cleaning_strips_fences_and_keeps_the_json_object() {
    assert_eq!(
        clean_json_response("```json\n{\"word\": \"a\"}\n```"),
        "{\"word\": \"a\"}"
    );
    assert_eq!(clean_json_response("{\"a\": 1}"), "{\"a\": 1}");
    assert_eq!(
        clean_json_response("noise before {\"a\": 1} noise after"),
        "{\"a\": 1}"
    );
    assert_eq!(clean_json_response("``````"), "");
    assert_eq!(clean_json_response("no braces at all"), "no braces at all");
    assert_eq!(clean_json_response("} reversed {"), "} reversed {");
}

#[test]
fn bearer_tokens_are_extracted_case_insensitively() {
    assert_eq!(extract_bearer("Bearer abc"), Some("abc".to_string()));
    assert_eq!(extract_bearer("bearer abc"), Some("abc".to_string()));
    assert_eq!(extract_bearer("BEARER  abc  "), Some("abc".to_string()));
    assert_eq!(extract_bearer("  Bearer tok trailing"), Some("tok".to_string()));
    assert_eq!(extract_bearer("Basic abc"), None);
    assert_eq!(extract_bearer("Bearer"), None);
    assert_eq!(extract_bearer(""), None);
    assert_eq!(extract_bearer("   "), None);
}

#[test]
fn allowed_emails_are_trimmed_lowercased_and_filtered() {
    let emails = parse_allowed_emails(" A@B.com, ,c@D.com ,");
    assert_eq!(emails, ["a@b.com", "c@d.com"]);
    assert!(parse_allowed_emails("").is_empty());
    assert!(parse_allowed_emails(" , ,, ").is_empty());
    assert_eq!(parse_allowed_emails("one@x.org"), ["one@x.org"]);
}
