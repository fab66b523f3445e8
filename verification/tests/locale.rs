use lucris::locale::{find_among, find_value, push_values_in, select_among, select_text, LocaleValue};
use lucris::text::{full_name, str_eq};

fn entry(locale: Option<&str>, value: Option<&str>) -> LocaleValue {
    LocaleValue { locale: locale.map(|s| s.to_string()), value: value.map(|s| s.to_string()) }
}

#[test]
fn only_swedish_requested_in_french_gives_swedish() {
    let entries = vec![entry(Some("sv_SE"), Some("Hej"))];
    assert_eq!(select_text(&entries, "fr_FR"), Some("Hej"));
}

#[test]
fn the_chain_in_its_order() {
    let entries = vec![
        entry(Some("de_DE"), Some("deutsch")),
        entry(Some("en"), Some("english")),
        entry(Some("en_GB"), Some("british")),
        entry(Some("fr_FR"), Some("francais")),
        entry(Some("fr_FR"), Some("encore")),
    ];
    assert_eq!(select_text(&entries, "fr_FR"), Some("francais"));
    assert_eq!(select_text(&entries, "nl_NL"), Some("british"));
    assert_eq!(select_text(&entries[..2].iter().map(copy).collect(), "nl_NL"), Some("english"));
    assert_eq!(select_text(&entries[..1].iter().map(copy).collect(), "nl_NL"), Some("deutsch"));
    assert_eq!(select_text(&Vec::new(), "nl_NL"), None);
}

fn copy(entry: &LocaleValue) -> LocaleValue {
    LocaleValue { locale: entry.locale.clone(), value: entry.value.clone() }
}

#[test]
fn entries_without_a_value_are_passed_over() {
    let entries = vec![
        entry(Some("fr_FR"), None),
        entry(None, None),
        entry(Some("en_GB"), None),
        entry(None, Some("unlabelled")),
        entry(Some("fr_FR"), Some("francais")),
    ];
    assert_eq!(find_value(&entries, Some("fr_FR")), Some("francais"));
    assert_eq!(find_value(&entries, Some("en_GB")), None);
    assert_eq!(find_value(&entries, None), Some("unlabelled"));
    assert_eq!(select_text(&entries, "fr_FR"), Some("francais"));
    assert_eq!(select_text(&entries, "en_GB"), Some("unlabelled"));
    let empty = vec![entry(Some("fr_FR"), None)];
    assert_eq!(select_text(&empty, "fr_FR"), None);
}

#[test]
fn locales_are_compared_exactly() {
    let entries = vec![entry(Some("EN_gb"), Some("shouting")), entry(Some("en_GB "), Some("x"))];
    assert_eq!(find_value(&entries, Some("en_GB")), None);
    assert_eq!(find_value(&entries, Some("EN_gb")), Some("shouting"));
    assert_eq!(select_text(&entries, "en_GB"), Some("shouting"));
}

#[test]
fn several_lists_are_read_as_one() {
    let first = vec![entry(Some("sv_SE"), Some("ett")), entry(Some("en"), Some("one"))];
    let second: Vec<LocaleValue> = Vec::new();
    let third = vec![entry(Some("en_GB"), Some("three")), entry(Some("sv_SE"), Some("tre"))];
    let lists = vec![&first, &second, &third];
    assert_eq!(find_among(&lists, Some("sv_SE")), Some("ett"));
    assert_eq!(find_among(&lists, Some("en_GB")), Some("three"));
    assert_eq!(find_among(&lists, Some("fr_FR")), None);
    assert_eq!(find_among(&lists, None), Some("ett"));
    assert_eq!(select_among(&lists, "fr_FR"), Some("three"));
    assert_eq!(select_among(&lists, "en"), Some("one"));
    assert_eq!(select_among(&Vec::new(), "en"), None);
    let mut out = vec!["before"];
    push_values_in(&first, "sv_SE", &mut out);
    push_values_in(&third, "sv_SE", &mut out);
    push_values_in(&third, "fr_FR", &mut out);
    assert_eq!(out, vec!["before", "ett", "tre"]);
}

#[test]
fn text_helpers() {
    assert!(str_eq("", ""));
    assert!(str_eq("en_GB", "en_GB"));
    assert!(!str_eq("en_GB", "en_GC"));
    assert!(!str_eq("en", "en_GB"));
    assert!(!str_eq("en_GB", "en"));
    assert!(str_eq("\u{e5}\u{3042}", "\u{e5}\u{3042}"));
    assert!(!str_eq("\u{e5}", "a"));
    assert_eq!(full_name("Ada", "Lovelace"), "Ada Lovelace");
    assert_eq!(full_name("", ""), " ");
}
