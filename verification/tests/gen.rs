use xcbgen::ast::GenError;
use xcbgen::emit::gen_modules;

fn run(inputs: &[(&str, &str)]) -> Result<String, GenError> {
    let owned: Vec<(String, String)> = inputs
        .iter()
        .map(|(n, t)| (String::from(*n), String::from(*t)))
        .collect();
    gen_modules(&owned)
}

fn count(haystack: &str, needle: &str) -> usize {
    haystack.matches(needle).count()
}

#[test]
fn tiny_module_exact_output() {
    let xml = vec![
        "<xcb>\
<xidtype name=\"WINDOW\"/>\
<request name=\"NoOperation\" opcode=\"127\"/>\
</xcb>",
    ]
    .join("\n");
    let out = run(&[("tiny", xml.as_str())]).unwrap();
    let expected = vec![
        "pub mod tiny {",
        "    use super::*;",
        "    pub type xcb_window_t = u32;",
        "    #[repr(C)]",
        "    #[derive(Copy, Clone)]",
        "    pub struct xcb_window_iterator_t {",
        "        pub data: *mut xcb_window_t,",
        "        pub rem: c_int,",
        "        pub index: c_int,",
        "    }",
        "    extern \"C\" {",
        "        pub fn xcb_window_next(",
        "            i: *mut xcb_window_iterator_t,",
        "        );",
        "        pub fn xcb_window_end(",
        "            i: xcb_window_iterator_t,",
        "        ) -> xcb_generic_iterator_t;",
        "    }",
        "    pub const XCB_NO_OPERATION: u32 = 127;",
        "    #[repr(C)]",
        "    #[derive(Copy, Clone)]",
        "    pub struct xcb_no_operation_request_t {",
        "        pub major_opcode: u8,",
        "        pub pad0: [u8; 1],",
        "        pub length: u16,",
        "    }",
        "    extern \"C\" {",
        "        pub fn xcb_no_operation_checked(",
        "            c: *mut xcb_connection_t,",
        "        ) -> xcb_void_cookie_t;",
        "        pub fn xcb_no_operation(",
        "            c: *mut xcb_connection_t,",
        "        ) -> xcb_void_cookie_t;",
        "    }",
        "}",
    ]
    .join("\n") + "\n";
    assert_eq!(out, expected);
}

#[test]
fn core_request_borrows_first_field_into_header() {
    let xml = vec![
        "<xcb>\
<xidtype name=\"WINDOW\"/>\
<request name=\"DestroyWindow\" opcode=\"4\">\
<pad bytes=\"1\"/>\
<field name=\"window\" type=\"WINDOW\"/>\
</request>\
</xcb>",
    ]
    .join("\n");
    let out = run(&[("xproto", xml.as_str())]).unwrap();
    // the first declared field (a pad byte) sits between opcode and length
    let expect = vec![
        "    pub struct xcb_destroy_window_request_t {",
        "        pub major_opcode: u8,",
        "        pub pad0: u8,",
        "        pub length: u16,",
        "        pub window: xcb_window_t,",
        "    }",
    ]
    .join("\n") + "\n";
    assert!(out.contains(&expect), "output was:\n{out}");
}

#[test]
fn extension_request_keeps_all_fields_after_header() {
    let xml = vec![
        "<xcb extension-name=\"Shape\" major-version=\"1\" minor-version=\"1\">\
<request name=\"QueryVersion\" opcode=\"0\">\
<reply>\
<pad bytes=\"1\"/>\
<field name=\"major_version\" type=\"CARD16\"/>\
<field name=\"minor_version\" type=\"CARD16\"/>\
</reply>\
</request>\
</xcb>",
    ]
    .join("\n");
    let out = run(&[("shape", xml.as_str())]).unwrap();
    assert!(out.contains("pub const XCB_SHAPE_MAJOR_VERSION: u32 = 1;\n"));
    assert!(out.contains("pub const XCB_SHAPE_MINOR_VERSION: u32 = 1;\n"));
    assert!(out.contains("pub static xcb_shape_id: xcb_extension_t;\n"));
    let expect_req = vec![
        "    pub struct xcb_shape_query_version_request_t {",
        "        pub major_opcode: u8,",
        "        pub minor_opcode: u8,",
        "        pub length: u16,",
        "    }",
    ]
    .join("\n") + "\n";
    assert!(out.contains(&expect_req), "output was:\n{out}");
    let expect_reply = vec![
        "    pub struct xcb_shape_query_version_reply_t {",
        "        pub response_type: u8,",
        "        pub pad0: u8,",
        "        pub sequence: u16,",
        "        pub length: u32,",
        "        pub major_version: xcb_card16_t,",
    ]
    .join("\n") + "\n";
    // CARD16 is a built-in, so it renders as u16, not a user type
    assert!(!out.contains(&expect_reply));
    assert!(out.contains("        pub major_version: u16,\n"));
    // a request with a reply gets its own cookie type and a reply fetch
    assert!(out.contains("pub struct xcb_shape_query_version_cookie_t {\n"));
    assert!(out.contains("pub fn xcb_shape_query_version_reply(\n"));
    assert!(out.contains("pub fn xcb_shape_query_version_unchecked(\n"));
}

#[test]
fn void_requests_share_one_cookie_type() {
    let xml = vec![
        "<xcb>\
<request name=\"First\" opcode=\"1\"/>\
<request name=\"Second\" opcode=\"2\"/>\
</xcb>",
    ]
    .join("\n");
    let out = run(&[("m", xml.as_str())]).unwrap();
    // no per-request cookie structure is declared
    assert_eq!(count(&out, "_cookie_t {"), 0);
    // all four call declarations return the shared void cookie type
    assert_eq!(count(&out, ") -> xcb_void_cookie_t;"), 4);
}

#[test]
fn enum_and_id_with_same_name_collapse_to_one_alias() {
    let xml = vec![
        "<xcb>\
<xidtype name=\"CURSOR\"/>\
<enum name=\"Cursor\">\
<item name=\"None\"><value>0</value></item>\
<item name=\"Big\"><bit>3</bit></item>\
</enum>\
</xcb>",
    ]
    .join("\n");
    let out = run(&[("m", xml.as_str())]).unwrap();
    assert_eq!(count(&out, "pub type xcb_cursor_t = u32;"), 1);
    assert!(out.contains("pub const XCB_CURSOR_NONE: xcb_cursor_t = 0;\n"));
    assert!(out.contains("pub const XCB_CURSOR_BIG: xcb_cursor_t = 8;\n"));
}

#[test]
fn enum_without_id_gets_its_own_alias() {
    let xml = vec![
        "<xcb>\
<enum name=\"Mode\">\
<item name=\"Off\"><value>0</value></item>\
</enum>\
</xcb>",
    ]
    .join("\n");
    let out = run(&[("m", xml.as_str())]).unwrap();
    assert_eq!(count(&out, "pub type xcb_mode_t = u32;"), 1);
    assert!(out.contains("pub const XCB_MODE_OFF: xcb_mode_t = 0;\n"));
}

#[test]
fn generic_event_full_sequence_not_packed() {
    // fields total 22 bytes: 10 + 22 = 32 reached at the last boundary,
    // largest alignment 4, so the structure is not packed
    let xml = vec![
        "<xcb extension-name=\"Test\">\
<event name=\"Move\" number=\"1\" xge=\"true\">\
<field name=\"a\" type=\"CARD16\"/>\
<field name=\"b\" type=\"CARD32\"/>\
<field name=\"c\" type=\"CARD32\"/>\
<field name=\"d\" type=\"CARD32\"/>\
<field name=\"e\" type=\"CARD32\"/>\
<field name=\"f\" type=\"CARD32\"/>\
<field name=\"g\" type=\"CARD32\"/>\
</event>\
</xcb>",
    ]
    .join("\n");
    let out = run(&[("t", xml.as_str())]).unwrap();
    let expect = vec![
        "    #[repr(C)]",
        "    #[derive(Copy, Clone)]",
        "    pub struct xcb_test_move_event_t {",
        "        pub response_type: u8,",
        "        pub extension: u8,",
        "        pub sequence: u16,",
        "        pub length: u32,",
        "        pub event_type: u16,",
        "        pub a: u16,",
        "        pub b: u32,",
        "        pub c: u32,",
        "        pub d: u32,",
        "        pub e: u32,",
        "        pub f: u32,",
        "        pub full_sequence: u32,",
        "        pub g: u32,",
        "    }",
    ]
    .join("\n") + "\n";
    assert!(out.contains(&expect), "output was:\n{out}");
    assert!(!out.contains("packed"));
}

#[test]
fn generic_event_full_sequence_packed_with_wide_alignment() {
    // 2 + 4 + 8 + 8 = 22 bytes, boundary at 32, largest alignment 8: packed
    let xml = vec![
        "<xcb extension-name=\"Test\">\
<event name=\"Wide\" number=\"2\" xge=\"true\">\
<field name=\"a\" type=\"CARD16\"/>\
<field name=\"b\" type=\"CARD32\"/>\
<field name=\"c\" type=\"CARD64\"/>\
<field name=\"d\" type=\"CARD64\"/>\
</event>\
</xcb>",
    ]
    .join("\n");
    let out = run(&[("t", xml.as_str())]).unwrap();
    assert!(out.contains("#[repr(C, packed)]\n"));
    assert!(out.contains("        pub d: u64,\n        pub full_sequence: u32,\n    }\n"));
}

#[test]
fn generic_event_without_boundary_has_no_full_sequence() {
    let xml = vec![
        "<xcb extension-name=\"Test\">\
<event name=\"Short\" number=\"3\" xge=\"true\">\
<field name=\"a\" type=\"CARD32\"/>\
</event>\
</xcb>",
    ]
    .join("\n");
    let out = run(&[("t", xml.as_str())]).unwrap();
    assert!(!out.contains("full_sequence"));
    assert!(!out.contains("packed"));
}

#[test]
fn plain_event_splices_sequence_number() {
    let xml = vec![
        "<xcb>\
<event name=\"KeyPress\" number=\"2\">\
<field name=\"detail\" type=\"BYTE\"/>\
<field name=\"time\" type=\"CARD32\"/>\
</event>\
<event name=\"Silent\" number=\"3\" no-sequence-number=\"true\">\
<field name=\"detail\" type=\"BYTE\"/>\
</event>\
</xcb>",
    ]
    .join("\n");
    let out = run(&[("m", xml.as_str())]).unwrap();
    let expect = vec![
        "    pub struct xcb_key_press_event_t {",
        "        pub response_type: u8,",
        "        pub detail: u8,",
        "        pub sequence: u16,",
        "        pub time: u32,",
        "    }",
    ]
    .join("\n") + "\n";
    assert!(out.contains(&expect), "output was:\n{out}");
    let expect_silent = vec![
        "    pub struct xcb_silent_event_t {",
        "        pub response_type: u8,",
        "        pub detail: u8,",
        "    }",
    ]
    .join("\n") + "\n";
    assert!(out.contains(&expect_silent), "output was:\n{out}");
}

#[test]
fn event_copy_aliases_original_across_modules() {
    let core = vec![
        "<xcb>\
<event name=\"KeyPress\" number=\"2\">\
<field name=\"detail\" type=\"BYTE\"/>\
</event>\
</xcb>",
    ]
    .join("\n");
    let ext = vec![
        "<xcb extension-name=\"Test\">\
<import>core</import>\
<eventcopy name=\"KeyRelease\" number=\"3\" ref=\"KeyPress\"/>\
</xcb>",
    ]
    .join("\n");
    let out = run(&[("core", core.as_str()), ("ext", ext.as_str())]).unwrap();
    assert!(out.contains("pub type xcb_test_key_release_event_t = xcb_key_press_event_t;\n"));
    // the referenced original is emitted once, under exactly that name
    assert_eq!(count(&out, "pub struct xcb_key_press_event_t {"), 1);
}

#[test]
fn error_header_fields_back_off() {
    let xml = vec![
        "<xcb>\
<error name=\"Empty\" number=\"1\"/>\
<error name=\"One\" number=\"2\">\
<field name=\"first\" type=\"CARD32\"/>\
</error>\
<error name=\"Three\" number=\"3\">\
<field name=\"a\" type=\"CARD32\"/>\
<field name=\"b\" type=\"CARD16\"/>\
<field name=\"c\" type=\"BYTE\"/>\
</error>\
</xcb>",
    ]
    .join("\n");
    let out = run(&[("m", xml.as_str())]).unwrap();
    let expect_empty = vec![
        "    pub struct xcb_empty_error_t {",
        "        pub response_type: u8,",
        "        pub error_code: u8,",
        "        pub sequence: u16,",
        "        pub bad_value: u32,",
        "        pub minor_opcode: u16,",
        "        pub major_opcode: u8,",
        "    }",
    ]
    .join("\n") + "\n";
    assert!(out.contains(&expect_empty), "output was:\n{out}");
    let expect_one = vec![
        "    pub struct xcb_one_error_t {",
        "        pub response_type: u8,",
        "        pub error_code: u8,",
        "        pub sequence: u16,",
        "        pub minor_opcode: u16,",
        "        pub major_opcode: u8,",
        "        pub first: u32,",
        "    }",
    ]
    .join("\n") + "\n";
    assert!(out.contains(&expect_one), "output was:\n{out}");
    let expect_three = vec![
        "    pub struct xcb_three_error_t {",
        "        pub response_type: u8,",
        "        pub error_code: u8,",
        "        pub sequence: u16,",
        "        pub a: u32,",
        "        pub b: u16,",
        "        pub c: u8,",
        "    }",
    ]
    .join("\n") + "\n";
    assert!(out.contains(&expect_three), "output was:\n{out}");
}

#[test]
fn error_generic_sentinel_normalized() {
    let xml = vec![
        "<xcb extension-name=\"glx\">\
<error name=\"Generic\" number=\"-1\"/>\
</xcb>",
    ]
    .join("\n");
    let out = run(&[("glx", xml.as_str())]).unwrap();
    assert!(out.contains("pub const XCB_GLX_GENERIC: u32 = 255;\n"));
}

#[test]
fn error_copy_aliases_original() {
    let xml = vec![
        "<xcb>\
<error name=\"Window\" number=\"3\">\
<field name=\"bad\" type=\"CARD32\"/>\
</error>\
<errorcopy name=\"Pixmap\" number=\"4\" ref=\"Window\"/>\
</xcb>",
    ]
    .join("\n");
    let out = run(&[("m", xml.as_str())]).unwrap();
    assert!(out.contains("pub type xcb_pixmap_error_t = xcb_window_error_t;\n"));
}

#[test]
fn request_parameters_follow_field_kinds() {
    let xml = vec![
        "<xcb>\
<xidtype name=\"WINDOW\"/>\
<request name=\"Configure\" opcode=\"12\">\
<field name=\"window\" type=\"WINDOW\"/>\
<pad bytes=\"2\"/>\
<list name=\"data\" type=\"CARD32\"/>\
<list name=\"fixed\" type=\"CARD32\"><value>4</value></list>\
<switch name=\"aux\"/>\
<fd name=\"shm\"/>\
</request>\
</xcb>",
    ]
    .join("\n");
    let out = run(&[("m", xml.as_str())]).unwrap();
    let expect = vec![
        "        pub fn xcb_configure_checked(",
        "            c: *mut xcb_connection_t,",
        "            window: xcb_window_t,",
        "            data_len: u32,",
        "            data: *const u32,",
        "            fixed: *const u32,",
        "            aux: *const c_void,",
        "            shm: i32,",
        "        ) -> xcb_void_cookie_t;",
    ]
    .join("\n") + "\n";
    assert!(out.contains(&expect), "output was:\n{out}");
    // fixed-length lists become array members; dynamic lists, switches and
    // file descriptors are left out of the fixed layout
    let expect_struct = vec![
        "    pub struct xcb_configure_request_t {",
        "        pub major_opcode: u8,",
        "        pub window: xcb_window_t,",
        "        pub length: u16,",
        "        pub pad0: [u8; 2],",
        "        pub fixed: [u32; 4],",
        "    }",
    ]
    .join("\n") + "\n";
    assert!(out.contains(&expect_struct), "output was:\n{out}");
}

#[test]
fn eventstruct_aggregates_and_sorts_by_number() {
    let xml = vec![
        "<xcb extension-name=\"Test\">\
<event name=\"Later\" number=\"9\">\
<field name=\"x\" type=\"CARD32\"/>\
</event>\
<event name=\"Early\" number=\"4\">\
<field name=\"y\" type=\"CARD32\"/>\
</event>\
<event name=\"Generic\" number=\"5\" xge=\"true\"/>\
<event name=\"Outside\" number=\"40\">\
<field name=\"z\" type=\"CARD32\"/>\
</event>\
<eventstruct name=\"Evs\">\
<allowed extension=\"Test\" opcode-min=\"0\" opcode-max=\"20\"/>\
</eventstruct>\
</xcb>",
    ]
    .join("\n");
    let out = run(&[("t", xml.as_str())]).unwrap();
    let expect = vec![
        "    pub union xcb_test_evs_t {",
        "        pub early: xcb_test_early_event_t,",
        "        pub later: xcb_test_later_event_t,",
        "        pub event_header: xcb_raw_generic_event_t,",
        "    }",
    ]
    .join("\n") + "\n";
    assert!(out.contains(&expect), "output was:\n{out}");
}

#[test]
fn modules_emitted_in_sorted_order() {
    let a = "<xcb/>";
    let out = run(&[("zeta", a), ("alpha", a)]).unwrap();
    let za = out.find("pub mod zeta").unwrap();
    let al = out.find("pub mod alpha").unwrap();
    assert!(al < za);
}

#[test]
fn imports_are_reexported_and_checked() {
    let core = "<xcb/>";
    let ext = "<xcb><import>core</import></xcb>";
    let out = run(&[("core", core), ("ext", ext)]).unwrap();
    assert!(out.contains("    use super::core::*;\n"));
    let missing = run(&[("ext", ext)]);
    assert!(matches!(missing, Err(GenError::UnknownImport { .. })));
}

#[test]
fn unresolved_reference_is_reported_with_its_name() {
    let xml = vec![
        "<xcb>\
<struct name=\"S\">\
<field name=\"f\" type=\"MYSTERY\"/>\
</struct>\
</xcb>",
    ]
    .join("\n");
    let out = run(&[("m", xml.as_str())]);
    match out {
        Err(GenError::UnresolvedType { name }) => assert_eq!(name, "MYSTERY"),
        other => panic!("expected an unresolved type error, got {other:?}"),
    }
}

#[test]
fn malformed_document_is_rejected() {
    let out = run(&[("m", "<xcb><unclosed></xcb>")]);
    assert!(matches!(out, Err(GenError::Document { .. })));
    let not_xcb = run(&[("m", "<other/>")]);
    assert!(matches!(not_xcb, Err(GenError::BadDocument { .. })));
}

#[test]
fn missing_attributes_are_rejected() {
    let out = run(&[("m", "<xcb><xidtype/></xcb>")]);
    match out {
        Err(GenError::MissingAttribute { element, attribute }) => {
            assert_eq!(element, "xidtype");
            assert_eq!(attribute, "name");
        }
        other => panic!("expected a missing-attribute error, got {other:?}"),
    }
    let bad_num = run(&[("m", "<xcb><request name=\"R\" opcode=\"many\"/></xcb>")]);
    match bad_num {
        Err(GenError::BadNumber { text }) => assert_eq!(text, "many"),
        other => panic!("expected a bad-number error, got {other:?}"),
    }
    let bad_bool = run(&[
        ("m", "<xcb><event name=\"E\" number=\"1\" xge=\"yes\"/></xcb>"),
    ]);
    match bad_bool {
        Err(GenError::BadBool { text }) => assert_eq!(text, "yes"),
        other => panic!("expected a bad-boolean error, got {other:?}"),
    }
}

#[test]
fn typedef_and_struct_render_with_iterators() {
    let xml = vec![
        "<xcb>\
<typedef newname=\"KEYCODE\" oldname=\"CARD8\"/>\
<struct name=\"POINT\">\
<field name=\"x\" type=\"INT16\"/>\
<field name=\"y\" type=\"INT16\"/>\
</struct>\
<union name=\"BOTH\">\
<field name=\"a\" type=\"CARD32\"/>\
<field name=\"b\" type=\"INT32\"/>\
</union>\
</xcb>",
    ]
    .join("\n");
    let out = run(&[("m", xml.as_str())]).unwrap();
    assert!(out.contains("pub type xcb_keycode_t = u8;\n"));
    assert!(out.contains("pub struct xcb_keycode_iterator_t {\n"));
    assert!(out.contains("pub struct xcb_point_t {\n        pub x: i16,\n        pub y: i16,\n    }\n"));
    assert!(out.contains("pub union xcb_both_t {\n"));
    assert!(out.contains("pub fn xcb_point_next(\n"));
    assert!(out.contains("pub fn xcb_point_end(\n"));
}

#[test]
fn list_with_expression_length_gets_pointer_only() {
    let xml = vec![
        "<xcb>\
<request name=\"Draw\" opcode=\"8\">\
<field name=\"len\" type=\"CARD16\"/>\
<list name=\"points\" type=\"CARD32\"><fieldref>len</fieldref></list>\
</request>\
</xcb>",
    ]
    .join("\n");
    let out = run(&[("m", xml.as_str())]).unwrap();
    // a run-time length expression yields no extra count parameter
    assert!(out.contains("            points: *const u32,\n"));
    assert!(!out.contains("points_len"));
}

#[test]
fn later_module_with_same_name_replaces_earlier() {
    let first = "<xcb><xidtype name=\"A\"/></xcb>";
    let second = "<xcb><xidtype name=\"B\"/></xcb>";
    let out = run(&[("m", first), ("m", second)]).unwrap();
    assert!(!out.contains("xcb_a_t"));
    assert!(out.contains("pub type xcb_b_t = u32;\n"));
    assert_eq!(count(&out, "pub mod m {"), 1);
}

#[test]
fn later_type_with_same_name_replaces_earlier() {
    let xml = "<xcb>\
<typedef newname=\"T\" oldname=\"CARD8\"/>\
<typedef newname=\"T\" oldname=\"CARD32\"/>\
</xcb>";
    let out = run(&[("m", xml)]).unwrap();
    assert_eq!(count(&out, "pub type xcb_t_t = u32;"), 1);
    assert!(!out.contains("pub type xcb_t_t = u8;"));
}

#[test]
fn eventstruct_matches_generic_flag_and_follows_copies() {
    let xml = vec![
        "<xcb extension-name=\"Test\">\
<event name=\"Plain\" number=\"1\">\
<field name=\"x\" type=\"CARD32\"/>\
</event>\
<event name=\"Wide\" number=\"2\" xge=\"true\"/>\
<eventcopy name=\"WideToo\" number=\"3\" ref=\"Wide\"/>\
<eventstruct name=\"Gens\" xge=\"true\">\
<allowed extension=\"Test\" opcode-min=\"0\" opcode-max=\"10\"/>\
</eventstruct>\
</xcb>",
    ]
    .join("\n");
    let out = run(&[("t", xml.as_str())]).unwrap();
    // the plain event does not match; the copy of a generic event resolves
    // through its reference, whose direct body carries the flag, so both
    // the original and the copy are aggregated, in number order
    let expect = vec![
        "    pub union xcb_test_gens_t {",
        "        pub wide: xcb_test_wide_event_t,",
        "        pub wide_too: xcb_test_wide_too_event_t,",
        "        pub event_header: xcb_raw_generic_event_t,",
        "    }",
    ]
    .join("\n") + "\n";
    assert!(out.contains(&expect), "output was:\n{out}");
}
