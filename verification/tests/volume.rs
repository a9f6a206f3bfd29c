use pipewire_quick_settings::control::parse_fraction;
use pipewire_quick_settings::control::parse_mute_response;
use pipewire_quick_settings::control::parse_volume_response;
use pipewire_quick_settings::control::split_lines;
use pipewire_quick_settings::json::Json;
use pipewire_quick_settings::sink::Sink;
use pipewire_quick_settings::text::parse_u32;
use pipewire_quick_settings::text::str_eq;
use pipewire_quick_settings::utils::value_as_u32;

fn plain_sink() -> Sink {
    Sink {
        id: 1,
        device: 2,
        port: 0,
        name: "alsa_output.foo".to_string(),
        description: "Speakers".to_string(),
        volume: 0,
        muted: false,
    }
}

#[test]
fn volume_line_parses_to_percentage() {
    assert_eq!(parse_volume_response("Volume: 0.50"), Some(50));
    assert_eq!(parse_volume_response("Volume: 0.50 [MUTED]"), Some(50));
    assert_eq!(parse_volume_response("Volume: 1.0"), Some(100));
    assert_eq!(parse_volume_response("Volume: 0"), Some(0));
    assert_eq!(parse_volume_response("Volume: 2"), Some(200));
}

#[test]
fn volume_truncates_toward_zero() {
    assert_eq!(parse_volume_response("Volume: 0.999"), Some(99));
    assert_eq!(parse_volume_response("Volume: 0.29"), Some(29));
    assert_eq!(parse_volume_response("Volume: 0.305"), Some(30));
    assert_eq!(parse_volume_response("Volume: .5"), Some(50));
    assert_eq!(parse_volume_response("Volume: 1."), Some(100));
}

#[test]
fn volume_scan_takes_first_line_with_a_number() {
    assert_eq!(parse_volume_response("noise\nVolume: 0.75\ntrailer"), Some(75));
    assert_eq!(parse_volume_response("Volume: abc\nVolume: 0.5"), Some(50));
    assert_eq!(parse_volume_response("Volume: 0.25\nVolume: 0.75"), Some(25));
    assert_eq!(parse_volume_response("Volume:\t0.60\r\n"), Some(60));
}

#[test]
fn text_without_volume_line_yields_nothing() {
    assert_eq!(parse_volume_response(""), None);
    assert_eq!(parse_volume_response("Volume:"), None);
    assert_eq!(parse_volume_response("Volume: ."), None);
    assert_eq!(parse_volume_response("volume: 0.5"), None);
    assert_eq!(parse_volume_response("Noise: 0.5"), None);
}

#[test]
fn mute_marker_is_found_anywhere() {
    assert!(parse_mute_response("Volume: 0.50 [MUTED]"));
    assert!(parse_mute_response("[MUTED]"));
    assert!(!parse_mute_response("Volume: 0.50"));
    assert!(!parse_mute_response("MUTED"));
    assert!(!parse_mute_response(""));
}

#[test]
fn levels_enrichment_applies_response_or_falls_back() {
    let s = plain_sink().with_levels(Some("Volume: 0.55 [MUTED]"));
    assert_eq!(s.volume, 55);
    assert!(s.muted);
    let s = plain_sink().with_levels(Some("garbage"));
    assert_eq!(s.volume, 0);
    assert!(!s.muted);
    let s = plain_sink().with_levels(None);
    assert_eq!(s.volume, 0);
    assert!(!s.muted);
    assert_eq!(s.id, 1);
    assert_eq!(s.name, "alsa_output.foo".to_string());
}

#[test]
fn fractions_parse_exactly() {
    assert_eq!(parse_fraction("0.5"), Some(50));
    assert_eq!(parse_fraction("12"), Some(1200));
    assert_eq!(parse_fraction("0.055"), Some(5));
    assert_eq!(parse_fraction(""), None);
    assert_eq!(parse_fraction("."), None);
    assert_eq!(parse_fraction("1.2.3"), None);
    assert_eq!(parse_fraction("-0.5"), None);
    assert_eq!(parse_fraction("1e3"), None);
    assert_eq!(parse_fraction("99999999999"), Some(u32::MAX));
}

#[test]
fn lines_split_at_line_feeds() {
    assert_eq!(split_lines(""), Vec::<String>::new());
    assert_eq!(split_lines("one"), vec!["one".to_string()]);
    assert_eq!(
        split_lines("one\ntwo\n"),
        vec!["one".to_string(), "two".to_string()]
    );
    assert_eq!(
        split_lines("a\r\nb\r"),
        vec!["a".to_string(), "b\r".to_string()]
    );
    assert_eq!(split_lines("\n"), vec!["".to_string()]);
}

#[test]
fn unsigned_decimal_strings_parse_as_the_original_does() {
    assert_eq!(parse_u32("123"), Some(123));
    assert_eq!(parse_u32("+7"), Some(7));
    assert_eq!(parse_u32("0"), Some(0));
    assert_eq!(parse_u32("4294967295"), Some(u32::MAX));
    assert_eq!(parse_u32("4294967296"), None);
    assert_eq!(parse_u32(""), None);
    assert_eq!(parse_u32("+"), None);
    assert_eq!(parse_u32("-1"), None);
    assert_eq!(parse_u32("12a"), None);
    assert_eq!(parse_u32("00042"), Some(42));
}

#[test]
fn values_read_as_u32_leniently() {
    assert_eq!(value_as_u32(&Json::UInt(5)), Some(5));
    assert_eq!(value_as_u32(&Json::UInt(4_294_967_295)), Some(u32::MAX));
    assert_eq!(value_as_u32(&Json::UInt(4_294_967_296)), None);
    assert_eq!(value_as_u32(&Json::Text("123".to_string())), Some(123));
    assert_eq!(value_as_u32(&Json::Text("abc".to_string())), None);
    assert_eq!(value_as_u32(&Json::IInt(-3)), None);
    assert_eq!(value_as_u32(&Json::Bool(true)), None);
    assert_eq!(value_as_u32(&Json::Null), None);
}

#[test]
fn string_views_compare_by_content() {
    assert!(str_eq("abc", "abc"));
    assert!(!str_eq("abc", "abd"));
    assert!(!str_eq("abc", "ab"));
    assert!(str_eq("", ""));
}
