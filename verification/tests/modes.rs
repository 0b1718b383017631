use gospels::args::Mode;
use gospels::args::resolve_mode;

#[test]
fn day_alone_selects_day_mode() {
    let r = resolve_mode(Some("2024-01-01".to_string()), None, None);
    assert!(matches!(r, Some(Mode::Day(ref s)) if s == "2024-01-01"));
}

#[test]
fn month_alone_selects_month_mode() {
    let r = resolve_mode(None, Some("2024-01".to_string()), None);
    assert!(matches!(r, Some(Mode::Month(ref s)) if s == "2024-01"));
}

#[test]
fn both_day_and_month_select_nothing() {
    let r = resolve_mode(Some("2024-01-01".to_string()), Some("2024-01".to_string()), None);
    assert!(r.is_none());
}

#[test]
fn neither_argument_selects_nothing() {
    assert!(resolve_mode(None, None, None).is_none());
}

#[test]
fn range_alone_selects_nothing() {
    let range = Some(vec!["2024-01".to_string(), "2024-03".to_string()]);
    assert!(resolve_mode(None, None, range).is_none());
}

#[test]
fn range_beside_day_selects_nothing() {
    let range = Some(vec!["2024-01".to_string(), "2024-03".to_string()]);
    let r = resolve_mode(Some("2024-01-01".to_string()), None, range);
    assert!(r.is_none());
}
