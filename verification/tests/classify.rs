use derpywm::{is_ignored, parse_window_type};

fn some(s: &str) -> Option<String> {
    Some(s.to_string())
}

#[test]
fn listed_types_are_ignored() {
    for typ in [
        "_NET_WM_WINDOW_TYPE_DOCK",
        "_NET_WM_WINDOW_TYPE_UTILITY",
        "_NET_WM_WINDOW_TYPE_DESKTOP",
        "_NET_WM_WINDOW_TYPE_SPLASH",
        "_NET_WM_WINDOW_TYPE_MENU",
        "_NET_WM_WINDOW_TYPE_TOOLBAR",
        "_NET_WM_WINDOW_TYPE_DIALOG",
    ] {
        assert!(is_ignored(&some(typ), false), "{}", typ);
        assert!(is_ignored(&some(typ), true), "{}", typ);
    }
}

#[test]
fn other_types_are_managed_whatever_the_flag() {
    for typ in [
        "_NET_WM_WINDOW_TYPE_NORMAL",
        "_NET_WM_WINDOW_TYPE_DOCK ",
        "_net_wm_window_type_dock",
        "_NET_WM_WINDOW_TYPE_DOCK, _NET_WM_WINDOW_TYPE_NORMAL",
        "",
    ] {
        assert!(!is_ignored(&some(typ), false), "{}", typ);
        assert!(!is_ignored(&some(typ), true), "{}", typ);
    }
}

#[test]
fn window_without_type_goes_by_its_flag() {
    assert!(is_ignored(&None, true));
    assert!(!is_ignored(&None, false));
}

#[test]
fn window_type_is_what_follows_the_equals_sign() {
    assert_eq!(
        parse_window_type("_NET_WM_WINDOW_TYPE(ATOM) = _NET_WM_WINDOW_TYPE_DOCK\n"),
        some("_NET_WM_WINDOW_TYPE_DOCK")
    );
    assert_eq!(parse_window_type("a=b"), some("b"));
    assert_eq!(parse_window_type("  a  =  b c  "), some("b c"));
    assert_eq!(parse_window_type("a=\u{3000}b\u{a0}"), some("b"));
    assert_eq!(parse_window_type("="), some(""));
    assert_eq!(parse_window_type("a="), some(""));
    assert_eq!(parse_window_type("a=   "), some(""));
    assert_eq!(parse_window_type("=b"), some("b"));
}

#[test]
fn listing_without_one_equals_sign_gives_no_type() {
    assert_eq!(parse_window_type(""), None);
    assert_eq!(parse_window_type("_NET_WM_WINDOW_TYPE:  not found.\n"), None);
    assert_eq!(parse_window_type("a=b=c"), None);
    assert_eq!(parse_window_type("a==b"), None);
    assert_eq!(parse_window_type("=="), None);
}

#[test]
fn window_type_is_read_like_trim_and_split_do() {
    for listing in [
        "",
        "x",
        "=",
        "a = b",
        " a = b ",
        "a=b=c",
        "\t_NET_WM_WINDOW_TYPE(ATOM) = _NET_WM_WINDOW_TYPE_DIALOG \n",
        "k =\u{2003}v\u{2003}w\u{2003}",
        "k = é",
    ] {
        let parts: Vec<&str> = listing.trim().split('=').collect();
        let expected = if parts.len() != 2 { None } else { Some(parts[1].trim().to_string()) };
        assert_eq!(parse_window_type(listing), expected, "{:?}", listing);
    }
}
