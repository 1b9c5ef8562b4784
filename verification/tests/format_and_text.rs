use map_preview::format::{str_equal, Language, PreviewFormat};
use map_preview::text::{cut_at, footer_title, mark_cut, normalize_id};

#[test]
fn format_tokens_are_fixed() {
    assert_eq!(PreviewFormat::OpenGraph.serialise(), "open_graph");
    assert_eq!(PreviewFormat::Square.serialise(), "square");
    assert_eq!(Language::De.serialise(), "de");
    assert_eq!(Language::En.serialise(), "en");
}

#[test]
fn format_tokens_parse_back() {
    for format in [PreviewFormat::OpenGraph, PreviewFormat::Square] {
        assert_eq!(PreviewFormat::parse(&format.serialise()), Some(format));
    }
    for lang in [Language::De, Language::En] {
        assert_eq!(Language::parse(&lang.serialise()), Some(lang));
    }
}

#[test]
fn unknown_tokens_are_rejected() {
    assert_eq!(PreviewFormat::parse("opengraph"), None);
    assert_eq!(PreviewFormat::parse("Square"), None);
    assert_eq!(PreviewFormat::parse(""), None);
    assert_eq!(Language::parse("fr"), None);
    assert_eq!(Language::parse("DE"), None);
}

#[test]
fn defaults_are_open_graph_and_german() {
    assert_eq!(PreviewFormat::default(), PreviewFormat::OpenGraph);
    assert_eq!(Language::default(), Language::De);
}

#[test]
fn format_sizes() {
    assert_eq!(PreviewFormat::OpenGraph.width(), 1200);
    assert_eq!(PreviewFormat::OpenGraph.height(), 630);
    assert_eq!(PreviewFormat::Square.width(), 1200);
    assert_eq!(PreviewFormat::Square.height(), 1200);
}

#[test]
fn english_table_only_for_english() {
    assert!(Language::En.should_use_english());
    assert!(!Language::De.should_use_english());
}

#[test]
fn str_equal_compares_characters() {
    assert!(str_equal("", ""));
    assert!(str_equal("Hörsaal", "Hörsaal"));
    assert!(!str_equal("Hörsaal", "Horsaal"));
    assert!(!str_equal("abc", "abcd"));
    assert!(!str_equal("abcd", "abc"));
}

#[test]
fn normalize_keeps_a_clean_key() {
    assert_eq!(normalize_id("5101.EG.001"), "5101.EG.001");
    assert_eq!(normalize_id(""), "");
}

#[test]
fn normalize_strips_white_space_and_control_characters() {
    assert_eq!(normalize_id(" 5101 .EG.\t001\n"), "5101.EG.001");
    assert_eq!(normalize_id("a\u{0}b\u{7f}c\u{85}d"), "abcd");
    assert_eq!(normalize_id("mi\u{a0}hs\u{2003}1"), "mihs1");
    assert_eq!(normalize_id(" \t\r\n"), "");
}

#[test]
fn normalize_keeps_other_characters() {
    assert_eq!(normalize_id("Hörsaal-1_é越"), "Hörsaal-1_é越");
}

#[test]
fn short_title_is_unchanged() {
    assert_eq!(footer_title("Hörsaal 1"), "Hörsaal 1");
    assert_eq!(footer_title(""), "");
    let name = "a".repeat(44);
    assert_eq!(footer_title(&name), name);
    let wide = "漢".repeat(44);
    assert_eq!(footer_title(&wide), wide);
}

#[test]
fn title_of_45_characters_is_cut_and_marked() {
    let name = "b".repeat(45);
    assert_eq!(footer_title(&name), format!("{}...", name));
}

#[test]
fn long_title_keeps_its_first_45_characters() {
    let name: String = ('a'..='z').cycle().take(60).collect();
    let first: String = name.chars().take(45).collect();
    assert_eq!(footer_title(&name), format!("{}...", first));
    assert_eq!(footer_title(&name).chars().count(), 48);
}

#[test]
fn title_with_multibyte_character_at_the_cut() {
    // 50 characters, the 45th of them two bytes long
    let mut name = "x".repeat(44);
    name.push('ö');
    name.push_str("yyyyy");
    assert_eq!(name.chars().count(), 50);
    let expected = format!("{}ö...", "x".repeat(44));
    assert_eq!(footer_title(&name), expected);
}

#[test]
fn wide_characters_count_one_each() {
    let name = "漢".repeat(46);
    let expected = format!("{}...", "漢".repeat(45));
    assert_eq!(footer_title(&name), expected);
    let name = "越".repeat(45);
    assert_eq!(footer_title(&name), format!("{}...", name));
}

#[test]
fn title_is_not_cut_inside_a_grapheme() {
    // 44 letters, then a letter with a combining mark as characters 45
    // and 46: the cluster does not fit and is left out whole
    let mut name = "x".repeat(44);
    name.push_str("y\u{0306}");
    name.push_str("zzzzz");
    let expected = format!("{}...", "x".repeat(44));
    assert_eq!(footer_title(&name), expected);
    // the same cluster one place earlier fits
    let mut name = "x".repeat(43);
    name.push_str("y\u{0306}");
    name.push_str("zzzzz");
    let expected = format!("{}y\u{0306}...", "x".repeat(43));
    assert_eq!(footer_title(&name), expected);
}

#[test]
fn characters_of_no_width_count_too() {
    // 30 letters, each with a combining mark: 60 characters; 22 whole
    // clusters are 44 characters, the 23rd would end at 46
    let name = "e\u{0301}".repeat(30);
    let expected = format!("{}...", "e\u{0301}".repeat(22));
    assert_eq!(footer_title(&name), expected);
}

#[test]
fn nothing_behind_the_45th_character_reaches_the_title() {
    let head = "Ä".repeat(45);
    let one = format!("{}first tail", head);
    let two = format!("{}another, longer tail", head);
    assert_eq!(footer_title(&one), footer_title(&two));
    assert_eq!(footer_title(&one), format!("{}...", head));
}

#[test]
fn emoji_sequence_stays_whole() {
    // a family of four is seven characters in one cluster
    let family = "\u{1F468}\u{200D}\u{1F469}\u{200D}\u{1F467}\u{200D}\u{1F466}";
    let name = format!("{}{}{}", "a".repeat(40), family, "b".repeat(10));
    assert_eq!(footer_title(&name), format!("{}...", "a".repeat(40)));
    let name = format!("{}{}{}", "a".repeat(38), family, "b".repeat(10));
    assert_eq!(footer_title(&name), format!("{}{}...", "a".repeat(38), family));
}

#[test]
fn cut_at_picks_the_largest_boundary() {
    let clusters: Vec<String> = ["ab", "c", "def", "g"].iter().map(|s| s.to_string()).collect();
    assert_eq!(cut_at(&clusters, 0), 0);
    assert_eq!(cut_at(&clusters, 1), 0);
    assert_eq!(cut_at(&clusters, 2), 2);
    assert_eq!(cut_at(&clusters, 3), 3);
    assert_eq!(cut_at(&clusters, 4), 3);
    assert_eq!(cut_at(&clusters, 5), 3);
    assert_eq!(cut_at(&clusters, 6), 6);
    assert_eq!(cut_at(&clusters, 7), 7);
    assert_eq!(cut_at(&clusters, 100), 7);
    assert_eq!(cut_at(&vec![], 45), 0);
    let wide: Vec<String> = vec!["漢".to_string(); 50];
    assert_eq!(cut_at(&wide, 45), 45);
}

#[test]
fn mark_cut_appends_three_full_stops() {
    assert_eq!(mark_cut("abc".to_string()), "abc...");
    assert_eq!(mark_cut(String::new()), "...");
}

#[test]
fn white_space_and_control_sets() {
    // every character is kept or dropped as the two Unicode sets say
    let white = |u: u32| {
        matches!(u, 0x09..=0x0d | 0x20 | 0x85 | 0xa0 | 0x1680 | 0x2000..=0x200a | 0x2028 | 0x2029
            | 0x202f | 0x205f | 0x3000)
    };
    let control = |u: u32| matches!(u, 0x00..=0x1f | 0x7f..=0x9f);
    for u in 0..=0x10ffffu32 {
        if let Some(c) = char::from_u32(u) {
            let mut buf = [0u8; 4];
            let text: &str = c.encode_utf8(&mut buf);
            let expected = if white(u) || control(u) { "" } else { text };
            assert_eq!(normalize_id(text), expected, "U+{:04X}", u);
        }
    }
}
