use emojito::class::Classifier;
use emojito::{find_emoji, find_emoji_ranges, find_emoji_ranges_with};

const SAMPLES: [&str; 14] = [
    "",
    "plain text, 123 #*",
    "Test 😘❤️! 😻💓 👨‍👩‍👦  kk 👨‍👩‍👧‍👦",
    "🇦🇩 🇪🇸Test ❤️ 😘 😻💓 👨‍👩‍👦  kk 👨‍👩‍👧‍👦",
    "🇦🇩 🇪🇸",
    "❤️",
    "🫘 🫶 🫡 🫠",
    "x👍🏽y",
    "👋🏻👋",
    "😀é😀",
    "😀\u{200d}é👩",
    "🏳\u{fe0f}é\u{200d}🌈",
    "🐿",
    "\u{200d}",
];

#[test]
fn find_all() {
    let content = "Test 😘❤️! 😻💓 👨‍👩‍👦  kk 👨‍👩‍👧‍👦";
    let emojis = find_emoji(content);
    assert_eq!(emojis.len(), 6);
    assert_eq!(emojis[0].name(), "face blowing a kiss");
    assert_eq!(emojis[5].name(), "family: man, woman, girl, boy");
}

#[test]
fn fun_with_flags() {
    let content = "🇦🇩 🇪🇸";
    let emojis = find_emoji(content);
    assert_eq!(emojis.len(), 2);
}

#[test]
fn test_ranges() {
    let content = "🇦🇩 🇪🇸Test ❤️ 😘 😻💓 👨‍👩‍👦  kk 👨‍👩‍👧‍👦";
    let emojis = find_emoji_ranges(content);
    for (emoji, range) in emojis {
        assert_eq!(&content[range.clone()], emoji.as_str());
    }
}

#[test]
fn test_read_heart() {
    let content = "❤️";
    let emojis = find_emoji(content);
    assert_eq!(emojis.len(), 1);
    assert_eq!(emojis[0].as_str(), content);
}

#[test]
fn test_new_emojis() {
    let content = "🫘 🫶 🫡 🫠";
    let emojis = find_emoji(content);
    assert_eq!(emojis.len(), 4);
}

#[test]
fn every_match_of_the_long_text_has_its_range() {
    let content = "Test 😘❤️! 😻💓 👨‍👩‍👦  kk 👨‍👩‍👧‍👦";
    let found = find_emoji_ranges(content);
    let names: Vec<&str> = found.iter().map(|(emoji, _)| emoji.name()).collect();
    assert_eq!(
        names,
        vec![
            "face blowing a kiss",
            "red heart",
            "smiling cat with heart-eyes",
            "beating heart",
            "family: man, woman, boy",
            "family: man, woman, girl, boy",
        ]
    );
    let ranges: Vec<(usize, usize)> = found.iter().map(|(_, range)| (range.start, range.end)).collect();
    assert_eq!(ranges, vec![(5, 9), (9, 15), (17, 21), (21, 25), (26, 44), (49, 74)]);
}

#[test]
fn each_flag_spans_its_two_code_points() {
    let content = "🇦🇩 🇪🇸";
    let found = find_emoji_ranges(content);
    assert_eq!(found.len(), 2);
    assert_eq!(found[0].0.name(), "flag: Andorra");
    assert_eq!(found[0].1, 0..8);
    assert_eq!(&content[found[0].1.clone()], "🇦🇩");
    assert_eq!(found[1].0.name(), "flag: Spain");
    assert_eq!(found[1].1, 9..17);
    assert_eq!(&content[found[1].1.clone()], "🇪🇸");
}

#[test]
fn heart_with_selector_is_one_match_over_the_whole_text() {
    let content = "\u{2764}\u{fe0f}";
    let found = find_emoji_ranges(content);
    assert_eq!(found.len(), 1);
    assert_eq!(found[0].0.as_str(), content);
    assert_eq!(found[0].0.name(), "red heart");
    assert_eq!(found[0].1, 0..6);
}

#[test]
fn empty_text_gives_nothing() {
    assert!(find_emoji("").is_empty());
    assert!(find_emoji_ranges("").is_empty());
}

#[test]
fn lone_joiner_gives_nothing() {
    assert!(find_emoji("\u{200d}").is_empty());
    assert!(find_emoji_ranges("\u{200d}").is_empty());
}

#[test]
fn lone_selector_gives_nothing() {
    assert!(find_emoji("\u{fe0f}").is_empty());
    assert!(find_emoji("\u{fe0e}").is_empty());
    assert!(find_emoji("a\u{fe0f}").is_empty());
}

#[test]
fn text_without_emoji_gives_nothing() {
    assert!(find_emoji("héllo wörld").is_empty());
    assert!(find_emoji_ranges("ordinary prose.").is_empty());
}

#[test]
fn text_that_is_one_emoji_is_one_match_over_all_of_it() {
    for content in ["😀", "👍🏽", "👨\u{200d}👩\u{200d}👦", "👩🏽\u{200d}🚀", "🇦🇩"] {
        let found = find_emoji_ranges(content);
        assert_eq!(found.len(), 1);
        assert_eq!(found[0].0.as_str(), content);
        assert_eq!(found[0].1, 0..content.len());
    }
}

#[test]
fn plain_characters_give_nothing_even_where_they_are_emoji() {
    // '#', '*' and the digits have the property Emoji, but no emoji presentation.
    for content in ["#", "*", "0123456789", "a#b*c", "call 911 *now*", "1\u{fe0f}\u{20e3}"] {
        assert!(find_emoji(content).is_empty());
        assert!(find_emoji_ranges(content).is_empty());
    }
}

#[test]
fn plain_character_closes_a_cluster() {
    let found = find_emoji_ranges("x👍🏽y");
    assert_eq!(found.len(), 1);
    assert_eq!(found[0].0.name(), "thumbs up: medium skin tone");
    assert_eq!(found[0].1, 1..9);
}

#[test]
fn modifier_stays_with_the_emoji_before_it() {
    let found = find_emoji_ranges("👋🏻👋");
    assert_eq!(found.len(), 2);
    assert_eq!(found[0].0.name(), "waving hand: light skin tone");
    assert_eq!(found[0].1, 0..8);
    assert_eq!(found[1].0.name(), "waving hand");
    assert_eq!(found[1].1, 8..12);
}

#[test]
fn emoji_side_by_side_are_found_one_by_one() {
    let found = find_emoji_ranges("😀😀");
    assert_eq!(found.len(), 2);
    assert_eq!(found[0].1, 0..4);
    assert_eq!(found[1].1, 4..8);
}

#[test]
fn character_without_properties_is_a_boundary() {
    let found = find_emoji_ranges("😀é😀");
    assert_eq!(found.len(), 2);
    assert_eq!(found[0].1, 0..4);
    assert_eq!(found[1].1, 6..10);
}

#[test]
fn pending_joiner_keeps_the_cluster_open_for_one_character() {
    // The face and the joiner fail the lookup together; the woman stands alone.
    let found = find_emoji_ranges("😀\u{200d}é👩");
    assert_eq!(found.len(), 1);
    assert_eq!(found[0].0.name(), "woman");
    assert_eq!(found[0].1, 9..13);
}

#[test]
fn components_in_a_row_stay_in_one_cluster() {
    // Each regional indicator is an emoji and a component, so two flags with
    // nothing between them gather into one cluster, which the table lacks.
    assert!(find_emoji("🇦🇩🇪🇸").is_empty());
    assert_eq!(find_emoji("🇦🇩 🇪🇸").len(), 2);
}

#[test]
fn starts_increase_and_ranges_do_not_overlap() {
    for content in SAMPLES {
        let found = find_emoji_ranges(content);
        for (_, range) in &found {
            assert!(range.start < range.end);
            assert!(range.end <= content.len());
        }
        for pair in found.windows(2) {
            assert!(pair[0].1.start < pair[1].1.start);
            assert!(pair[0].1.end <= pair[1].1.start);
        }
    }
}

#[test]
fn range_cuts_out_the_text_that_was_looked_up() {
    for content in SAMPLES {
        if content == "🏳\u{fe0f}é\u{200d}🌈" {
            continue;
        }
        for (emoji, range) in find_emoji_ranges(content) {
            let slice = &content[range.clone()];
            assert_eq!(emojis::get(slice), Some(emoji));
        }
    }
}

#[test]
fn range_of_a_cluster_with_a_gap_has_the_cluster_s_length() {
    // The 'é' follows a pending selector and is dropped; the joiner behind it
    // is attached all the same. The range has the length of the four
    // characters that were looked up, and so ends inside the rainbow.
    let content = "🏳\u{fe0f}é\u{200d}🌈";
    let found = find_emoji_ranges(content);
    assert_eq!(found.len(), 1);
    assert_eq!(found[0].0.name(), "rainbow flag");
    assert_eq!(found[0].0.as_str(), "🏳\u{fe0f}\u{200d}🌈");
    assert_eq!(found[0].1, 0..14);
    assert_eq!(content.len(), 16);
    assert!(!content.is_char_boundary(14));
}

#[test]
fn unqualified_form_is_found_with_the_qualified_record() {
    let content = "🐿";
    let found = find_emoji_ranges(content);
    assert_eq!(found.len(), 1);
    assert_eq!(found[0].0.name(), "chipmunk");
    assert_eq!(found[0].1, 0..4);
    assert_eq!(found[0].0.as_str(), "🐿\u{fe0f}");
    assert_ne!(&content[found[0].1.clone()], found[0].0.as_str());

    let heart = find_emoji_ranges("\u{2764}");
    assert_eq!(heart.len(), 1);
    assert_eq!(heart[0].0.as_str(), "\u{2764}\u{fe0f}");
    assert_eq!(heart[0].1, 0..3);
}

#[test]
fn both_variants_give_the_same_emoji() {
    for content in SAMPLES {
        let without = find_emoji(content);
        let with = find_emoji_ranges(content);
        assert_eq!(without.len(), with.len());
        for (emoji, (ranged, _)) in without.iter().zip(with.iter()) {
            assert_eq!(*emoji, *ranged);
        }
    }
}

#[test]
fn scanning_two_halves_is_not_scanning_the_whole() {
    let (a, b) = ("🇦", "🇩");
    let whole = format!("{}{}", a, b);
    assert!(find_emoji(a).is_empty());
    assert!(find_emoji(b).is_empty());
    let found = find_emoji(&whole);
    assert_eq!(found.len(), 1);
    assert_eq!(found[0].name(), "flag: Andorra");

    let (c, d) = ("👍", "🏽");
    let halves = find_emoji(c).len() + find_emoji(d).len();
    let joined = find_emoji(&format!("{}{}", c, d));
    assert_eq!(halves, 1);
    assert_eq!(joined.len(), 1);
    assert_eq!(find_emoji(c)[0].name(), "thumbs up");
    assert_eq!(joined[0].name(), "thumbs up: medium skin tone");
}

#[test]
fn one_classifier_serves_many_texts() {
    let classifier = Classifier::load();
    for content in SAMPLES {
        let with = find_emoji_ranges_with(&classifier, content);
        let fresh = find_emoji_ranges(content);
        assert_eq!(with.len(), fresh.len());
        for (a, b) in with.iter().zip(fresh.iter()) {
            assert_eq!(a.0, b.0);
            assert_eq!(a.1, b.1);
        }
    }
}

#[test]
fn same_text_gives_the_same_matches() {
    let content = "Test 😘❤️! 😻💓 👨‍👩‍👦  kk 👨‍👩‍👧‍👦";
    let first = find_emoji_ranges(content);
    let second = find_emoji_ranges(content);
    assert_eq!(first.len(), second.len());
    for (a, b) in first.iter().zip(second.iter()) {
        assert_eq!(a.0.as_str(), b.0.as_str());
        assert_eq!(a.1, b.1);
    }
}
