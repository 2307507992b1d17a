use derpywm::parse::{parse_number, parse_workspace, split_words};
use derpywm::{parse_event, Event, ScratchpadEvent, WindowEvent, WindowEventType, WorkspaceEvent};

fn window(id: &str, event_type: WindowEventType) -> Event {
    Event::Window(WindowEvent { window_id: id.to_string(), event_type })
}

fn names(items: &[&str]) -> Vec<String> {
    items.iter().map(|s| s.to_string()).collect()
}

#[test]
fn window_verbs() {
    assert_eq!(parse_event("CREATE 0x1", 1), window("0x1", WindowEventType::CreateNotify));
    assert_eq!(parse_event("MAP 0x1", 1), window("0x1", WindowEventType::MapNotify));
    assert_eq!(parse_event("DESTROY 0x1", 1), window("0x1", WindowEventType::DestroyNotify));
    assert_eq!(parse_event("FOCUS_IN 0x1", 1), window("0x1", WindowEventType::FocusIn));
    assert_eq!(parse_event("FOCUS_OUT 0x1", 1), window("0x1", WindowEventType::FocusOut));
}

#[test]
fn workspace_verbs() {
    assert_eq!(parse_event("WS_FOCUS 1", 3), Event::Workspace(WorkspaceEvent::Focus(0)));
    assert_eq!(parse_event("WS_FOCUS 3", 3), Event::Workspace(WorkspaceEvent::Focus(2)));
    assert_eq!(parse_event("WS_MOVE 2", 3), Event::Workspace(WorkspaceEvent::MoveWindow(1)));
    assert_eq!(parse_event("WS_CYCLE", 3), Event::Workspace(WorkspaceEvent::Cycle));
    assert_eq!(parse_event("WS_FULLSCREEN", 3), Event::Workspace(WorkspaceEvent::FullscreenToggle));
    for direction in ["LEFT", "RIGHT", "UP", "DOWN"] {
        assert_eq!(
            parse_event(&format!("WS_FOCUS_WINDOW {}", direction), 3),
            Event::Workspace(WorkspaceEvent::FocusWindow(direction.to_string()))
        );
    }
}

#[test]
fn scratchpad_verbs() {
    assert_eq!(
        parse_event("SP_ADD term", 1),
        Event::Scratchpad(ScratchpadEvent::AddWindow("term".to_string()))
    );
    assert_eq!(
        parse_event("SP_REMOVE term", 1),
        Event::Scratchpad(ScratchpadEvent::RemoveWindow("term".to_string()))
    );
    assert_eq!(
        parse_event("SP_TOGGLE term", 1),
        Event::Scratchpad(ScratchpadEvent::ToggleWindow("term".to_string()))
    );
}

#[test]
fn workspace_number_out_of_range_is_unknown() {
    assert_eq!(parse_event("WS_FOCUS 0", 3), Event::Unknown);
    assert_eq!(parse_event("WS_FOCUS 4", 3), Event::Unknown);
    assert_eq!(parse_event("WS_MOVE 0", 3), Event::Unknown);
    assert_eq!(parse_event("WS_MOVE 4", 3), Event::Unknown);
    assert_eq!(parse_event("WS_FOCUS 1", 0), Event::Unknown);
    assert_eq!(parse_event("WS_FOCUS 99999999999999999999999999", 3), Event::Unknown);
}

#[test]
fn workspace_number_that_is_no_number_is_unknown() {
    for arg in ["one", "-1", "1.0", "0x1", "1a", "+", "++1", "1+", "١"] {
        assert_eq!(parse_event(&format!("WS_FOCUS {}", arg), 3), Event::Unknown, "{}", arg);
        assert_eq!(parse_event(&format!("WS_MOVE {}", arg), 3), Event::Unknown, "{}", arg);
    }
}

#[test]
fn workspace_number_may_have_a_plus_and_zeros() {
    assert_eq!(parse_event("WS_FOCUS +2", 3), Event::Workspace(WorkspaceEvent::Focus(1)));
    assert_eq!(parse_event("WS_FOCUS 002", 3), Event::Workspace(WorkspaceEvent::Focus(1)));
    assert_eq!(parse_event("WS_MOVE +003", 3), Event::Workspace(WorkspaceEvent::MoveWindow(2)));
}

#[test]
fn missing_argument_is_unknown() {
    for verb in [
        "CREATE",
        "MAP",
        "DESTROY",
        "FOCUS_IN",
        "FOCUS_OUT",
        "WS_FOCUS",
        "WS_MOVE",
        "WS_FOCUS_WINDOW",
        "SP_ADD",
        "SP_REMOVE",
        "SP_TOGGLE",
    ] {
        assert_eq!(parse_event(verb, 3), Event::Unknown, "{}", verb);
        assert_eq!(parse_event(&format!("  {}  ", verb), 3), Event::Unknown, "{}", verb);
    }
}

#[test]
fn unknown_lines_are_unknown() {
    for line in ["", " ", "\t\n", "HELLO", "HELLO w1", "create w1", "CREATE_ w1", "WS_FOCUS_WINDOW AROUND",
        "WS_FOCUS_WINDOW left", "SP_SHOW t", "=", "WS_CYCLES"] {
        assert_eq!(parse_event(line, 3), Event::Unknown, "{:?}", line);
    }
}

#[test]
fn words_after_the_argument_are_not_read() {
    assert_eq!(parse_event("CREATE w1 w2 w3", 1), window("w1", WindowEventType::CreateNotify));
    assert_eq!(parse_event("WS_CYCLE now", 1), Event::Workspace(WorkspaceEvent::Cycle));
    assert_eq!(parse_event("WS_FULLSCREEN 1 2", 1), Event::Workspace(WorkspaceEvent::FullscreenToggle));
    assert_eq!(parse_event("WS_FOCUS 2 3", 3), Event::Workspace(WorkspaceEvent::Focus(1)));
}

#[test]
fn any_whitespace_separates_words() {
    assert_eq!(parse_event("  MAP \t w1\r\n", 1), window("w1", WindowEventType::MapNotify));
    assert_eq!(parse_event("MAP\u{a0}w1", 1), window("w1", WindowEventType::MapNotify));
    assert_eq!(parse_event("MAP\u{3000}w1\u{2003}", 1), window("w1", WindowEventType::MapNotify));
    assert_eq!(parse_event("\u{85}MAP\u{1680}w1", 1), window("w1", WindowEventType::MapNotify));
    assert_eq!(parse_event("MAP\u{200b}w1", 1), Event::Unknown);
}

#[test]
fn window_ids_and_names_are_taken_as_they_are() {
    assert_eq!(parse_event("CREATE ÄÖ-ü_1", 1), window("ÄÖ-ü_1", WindowEventType::CreateNotify));
    assert_eq!(
        parse_event("SP_ADD WS_CYCLE", 1),
        Event::Scratchpad(ScratchpadEvent::AddWindow("WS_CYCLE".to_string()))
    );
}

#[test]
fn words_are_split_like_std_does() {
    for line in [
        "",
        "   ",
        "a",
        " a",
        "a ",
        "a b",
        "  a  b  ",
        "a\tb\nc\rd\u{b}e\u{c}f",
        "x\u{85}y\u{a0}z\u{1680}w",
        "\u{2000}a\u{2001}b\u{2002}c\u{2003}d\u{2004}e\u{2005}f\u{2006}g\u{2007}h\u{2008}i\u{2009}j\u{200a}k",
        "a\u{2028}b\u{2029}c\u{202f}d\u{205f}e\u{3000}f",
        "a\u{200b}b\u{feff}c\u{180e}d\u{1f}e\u{1c}f",
        "héllo wörld ✓ 日本語",
    ] {
        let expected: Vec<String> = line.split_whitespace().map(|w| w.to_string()).collect();
        assert_eq!(split_words(line), expected, "{:?}", line);
    }
    assert_eq!(split_words("  a  bc "), names(&["a", "bc"]));
}

#[test]
fn every_character_is_classified_like_std_does() {
    for code in 0..=0x3100u32 {
        if let Some(c) = char::from_u32(code) {
            assert_eq!(derpywm::parse::is_whitespace(c), c.is_whitespace(), "{:x}", code);
        }
    }
    assert!(!derpywm::parse::is_whitespace('\u{feff}'));
    assert!(!derpywm::parse::is_whitespace(char::MAX));
}

#[test]
fn numbers_are_read_like_std_does() {
    let max = usize::MAX.to_string();
    let over = format!("{}0", max);
    for word in [
        "", "0", "1", "42", "007", "+7", "+", "-7", "-0", "+-1", "1 ", " 1", "1_000", "12a", "a12",
        "٣", "1.5", "0x10", &max, &over, "18446744073709551616", "99999999999999999999",
    ] {
        assert_eq!(parse_number(word), word.parse::<usize>().ok(), "{:?}", word);
    }
    assert_eq!(parse_number("123"), Some(123));
    assert_eq!(parse_number(&max), Some(usize::MAX));
}

#[test]
fn workspace_numbers_count_from_one() {
    assert_eq!(parse_workspace(&"1".to_string(), 4), Some(0));
    assert_eq!(parse_workspace(&"4".to_string(), 4), Some(3));
    assert_eq!(parse_workspace(&"5".to_string(), 4), None);
    assert_eq!(parse_workspace(&"0".to_string(), 4), None);
    assert_eq!(parse_workspace(&"x".to_string(), 4), None);
    let max = usize::MAX.to_string();
    assert_eq!(parse_workspace(&max, usize::MAX), Some(usize::MAX - 1));
}
