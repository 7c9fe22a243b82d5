use xcbgen::names::{convert_extension_name, convert_name, sanitize};
use xcbgen::strutil::{fmt_u32, parse_bool, parse_u32};

#[test]
fn convert_query_extension() {
    assert_eq!(convert_name("QueryExtension"), "query_extension");
}

#[test]
fn convert_acronym_runs() {
    assert_eq!(
        convert_name("XF86VidModeGetGammaRamp"),
        "xf86_vid_mode_get_gamma_ramp"
    );
}

#[test]
fn convert_decnet_irregular() {
    assert_eq!(convert_name("DECnet"), "decnet");
}

#[test]
fn convert_mixed_words() {
    assert_eq!(convert_name("GetAtomName"), "get_atom_name");
    assert_eq!(convert_name("CreateGC"), "create_gc");
    assert_eq!(convert_name("already_snake"), "already_snake");
    assert_eq!(convert_name(""), "");
    assert_eq!(convert_name("A"), "a");
}

#[test]
fn convert_skips_other_characters() {
    assert_eq!(convert_name("Get-Atom Name"), "get_atom_name");
}

#[test]
fn convert_idempotent_on_output() {
    let once = convert_name("QueryExtension");
    assert_eq!(convert_name(&once), once);
    let once = convert_name("GetAtomName");
    assert_eq!(convert_name(&once), once);
    let once = convert_name("DECnet");
    assert_eq!(convert_name(&once), once);
}

#[test]
fn convert_extension_special_cases() {
    assert_eq!(convert_extension_name("XPrint"), "x_print");
    assert_eq!(convert_extension_name("XCMisc"), "xc_misc");
    assert_eq!(convert_extension_name("BigRequests"), "big_requests");
    assert_eq!(convert_extension_name("RandR"), "randr");
    assert_eq!(convert_extension_name("SHAPE"), "shape");
}

#[test]
fn sanitize_reserved_words() {
    assert_eq!(sanitize("type"), "type_");
    assert_eq!(sanitize("match"), "match_");
    assert_eq!(sanitize("window"), "window");
}

#[test]
fn parse_u32_accepts_decimal() {
    assert_eq!(parse_u32("0"), Some(0));
    assert_eq!(parse_u32("127"), Some(127));
    assert_eq!(parse_u32("+7"), Some(7));
    assert_eq!(parse_u32("4294967295"), Some(u32::MAX));
}

#[test]
fn parse_u32_rejects_bad_input() {
    assert_eq!(parse_u32(""), None);
    assert_eq!(parse_u32("+"), None);
    assert_eq!(parse_u32("-1"), None);
    assert_eq!(parse_u32("12a"), None);
    assert_eq!(parse_u32("4294967296"), None);
    assert_eq!(parse_u32(" 3"), None);
}

#[test]
fn parse_u32_matches_std() {
    for s in ["0", "42", "+9", "4294967295", "4294967296", "", "x", "-0"] {
        assert_eq!(parse_u32(s), s.parse::<u32>().ok(), "input {s:?}");
    }
}

#[test]
fn fmt_u32_decimal() {
    assert_eq!(fmt_u32(0), "0");
    assert_eq!(fmt_u32(10), "10");
    assert_eq!(fmt_u32(127), "127");
    assert_eq!(fmt_u32(u32::MAX), "4294967295");
}

#[test]
fn parse_bool_exact() {
    assert_eq!(parse_bool("true"), Some(true));
    assert_eq!(parse_bool("false"), Some(false));
    assert_eq!(parse_bool("True"), None);
    assert_eq!(parse_bool(""), None);
}

#[test]
fn idempotence_boundary_at_digit_runs() {
    // an acronym run holding digits converts to a word that re-splits:
    // conversion is idempotent only for digit-free identifiers
    let once = convert_name("XF86VidMode");
    assert_eq!(once, "xf86_vid_mode");
    assert_eq!(convert_name(&once), "xf_86_vid_mode");
}

#[test]
fn digits_attach_to_following_word() {
    assert_eq!(convert_name("Direct2d"), "direct_2d");
    assert_eq!(convert_name("CreateWindow2"), "create_window_2");
}
