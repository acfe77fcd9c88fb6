use mem0_rust::config::{AppConfig, Language};
use mem0_rust::ids::{new_memory_id, uuid_to_text};
use mem0_rust::menu::{is_confirmed, next_flow, parse_choice, user_or_default, MenuChoice, MenuFlow};
use mem0_rust::query::parse_query_param;
use mem0_rust::text::{chars_of, nonblank, split_chars, starts_with, trim};

#[test]
fn default_config_is_english() {
    let c = AppConfig::default();
    assert_eq!(c.language, Language::English);
    assert!(!c.is_vietnamese());
}

#[test]
fn toggling_language_twice_restores_it() {
    let mut c = AppConfig::default();
    c.toggle_language();
    assert_eq!(c.language, Language::Vietnamese);
    assert!(c.is_vietnamese());
    c.toggle_language();
    assert_eq!(c.language, Language::English);
}

#[test]
fn query_param_found() {
    assert_eq!(parse_query_param("/api/facts?user_id=bob", "user_id"), Some("bob".to_string()));
    assert_eq!(parse_query_param("/api/facts?x=1&id=abc-1", "id"), Some("abc-1".to_string()));
}

#[test]
fn query_param_missing_query() {
    assert_eq!(parse_query_param("/api/facts", "user_id"), None);
    assert_eq!(parse_query_param("/api/facts?other=1", "user_id"), None);
}

#[test]
fn query_param_pair_needs_exactly_one_equals() {
    assert_eq!(parse_query_param("/x?user_id=a=b", "user_id"), None);
    assert_eq!(parse_query_param("/x?user_id", "user_id"), None);
    assert_eq!(parse_query_param("/x?user_id=", "user_id"), Some(String::new()));
}

#[test]
fn query_param_first_pair_wins_and_second_question_mark_ends_query() {
    assert_eq!(parse_query_param("/x?user_id=a&user_id=b", "user_id"), Some("a".to_string()));
    assert_eq!(parse_query_param("/x?a=1?user_id=b", "user_id"), None);
    assert_eq!(parse_query_param("/x??user_id=b", "user_id"), None);
}

#[test]
fn split_keeps_empty_pieces() {
    let v = chars_of("a,,b,");
    let parts = split_chars(&v, ',');
    let texts: Vec<String> = parts.iter().map(|p| p.iter().collect()).collect();
    assert_eq!(texts, vec!["a", "", "b", ""]);
    let empty = split_chars(&Vec::new(), ',');
    assert_eq!(empty.len(), 1);
}

#[test]
fn trim_removes_unicode_white_space() {
    assert_eq!(trim("  hello \n"), "hello");
    assert_eq!(trim("\u{3000}\u{a0}x y\u{2029}\t"), "x y");
    assert_eq!(trim(" \n\t "), "");
    assert_eq!(trim("a"), "a");
    for s in ["", " a ", "\u{85}b\u{200a}", "c\u{200b}"] {
        assert_eq!(trim(s), s.trim());
    }
}

#[test]
fn nonblank_reads_required_answers() {
    assert_eq!(nonblank("  fact text \n"), Some("fact text".to_string()));
    assert_eq!(nonblank(" \r\n"), None);
}

#[test]
fn starts_with_prefix() {
    assert!(starts_with("/api/facts/clear?user_id=a", "/api/facts"));
    assert!(!starts_with("/api", "/api/facts"));
    assert!(starts_with("x", ""));
}

#[test]
fn uuid_text_of_known_value() {
    assert_eq!(uuid_to_text(0x0123456789abcdef0123456789abcdef), "01234567-89ab-cdef-0123-456789abcdef");
    assert_eq!(uuid_to_text(0), "00000000-0000-0000-0000-000000000000");
    assert_eq!(uuid_to_text(u128::MAX), "ffffffff-ffff-ffff-ffff-ffffffffffff");
}

#[test]
fn new_ids_are_random_v4_uuids() {
    let a = new_memory_id();
    let b = new_memory_id();
    assert_ne!(a, b);
    for id in [a, b] {
        let chars: Vec<char> = id.chars().collect();
        assert_eq!(chars.len(), 36);
        for (i, c) in chars.iter().enumerate() {
            if [8, 13, 18, 23].contains(&i) {
                assert_eq!(*c, '-');
            } else {
                assert!(c.is_ascii_hexdigit() && !c.is_ascii_uppercase());
            }
        }
        assert_eq!(chars[14], '4');
        assert!("89ab".contains(chars[19]));
    }
}

#[test]
fn menu_choices() {
    assert_eq!(parse_choice("1\n"), MenuChoice::Dashboard);
    assert_eq!(parse_choice(" 3 \r\n"), MenuChoice::Search);
    assert_eq!(parse_choice("9"), MenuChoice::ToggleLanguage);
    assert_eq!(parse_choice("0\n"), MenuChoice::Exit);
    assert_eq!(parse_choice("10"), MenuChoice::Invalid);
    assert_eq!(parse_choice(""), MenuChoice::Invalid);
}

#[test]
fn blank_user_means_default() {
    assert_eq!(user_or_default("  \n"), "default");
    assert_eq!(user_or_default(" alice \n"), "alice");
}

#[test]
fn confirmation_answers() {
    assert!(is_confirmed("y\n"));
    assert!(is_confirmed(" YES "));
    assert!(is_confirmed("Y"));
    assert!(!is_confirmed("no"));
    assert!(!is_confirmed(""));
    assert!(!is_confirmed("yess"));
}

#[test]
fn menu_flow_after_each_option() {
    assert_eq!(next_flow(parse_choice("0\n"), true), MenuFlow::Stop);
    assert_eq!(next_flow(MenuChoice::McpServer, true), MenuFlow::Stop);
    assert_eq!(next_flow(MenuChoice::Dashboard, true), MenuFlow::BackToMenu);
    assert_eq!(next_flow(MenuChoice::ToggleLanguage, true), MenuFlow::BackToMenu);
    for c in [MenuChoice::Search, MenuChoice::Add, MenuChoice::Delete] {
        assert_eq!(next_flow(c, true), MenuFlow::PauseThenMenu);
        assert_eq!(next_flow(c, false), MenuFlow::BackToMenu);
    }
    for c in [MenuChoice::List, MenuChoice::Clear, MenuChoice::Help] {
        assert_eq!(next_flow(c, true), MenuFlow::PauseThenMenu);
    }
    assert_eq!(next_flow(parse_choice("x"), true), MenuFlow::PauseThenRetry);
}
