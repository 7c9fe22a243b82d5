use xcbgen::ast::{builtin_types, Ast, Field, FieldType, Length, Module, Type};

fn empty_module() -> Module {
    Module {
        extension_name: None,
        major_version: None,
        minor_version: None,
        imports: Vec::new(),
        types: Vec::new(),
        requests: Vec::new(),
        events: Vec::new(),
        errors: Vec::new(),
    }
}

fn scalar(name: &str, ty: &str) -> Field {
    Field {
        name: String::from(name),
        type_: FieldType::Name(String::from(ty)),
    }
}

#[test]
fn resolve_builtin_primitive() {
    let ast = Ast {
        global_types: builtin_types(),
        modules: vec![(String::from("core"), empty_module())],
    };
    let (name, module) = &ast.modules[0];
    assert_eq!(name, "core");
    assert_eq!(ast.resolve_type_name(module, "CARD8").unwrap(), "u8");
    assert_eq!(ast.resolve_type_name(module, "BOOL").unwrap(), "u8");
    assert_eq!(ast.resolve_type_name(module, "double").unwrap(), "f64");
    assert!(ast.resolve_type_name(module, "NOPE").is_err());
}

#[test]
fn resolve_own_type_and_prefix() {
    let mut core = empty_module();
    core.types.push((String::from("WINDOW"), Type::Id));
    let mut ext = empty_module();
    ext.extension_name = Some(String::from("Shape"));
    ext.types.push((String::from("Op"), Type::Id));
    let ast = Ast {
        global_types: builtin_types(),
        modules: vec![
            (String::from("shape"), ext),
            (String::from("xproto"), core),
        ],
    };
    let core_ref = &ast.modules[1].1;
    let ext_ref = &ast.modules[0].1;
    assert_eq!(
        ast.resolve_type_name(core_ref, "WINDOW").unwrap(),
        "xcb_window_t"
    );
    assert_eq!(ast.resolve_type_name(ext_ref, "Op").unwrap(), "xcb_shape_op_t");
}

#[test]
fn resolve_transitive_through_imports() {
    // module a imports b, b imports c, and only c declares T
    let mut c = empty_module();
    c.types.push((String::from("T"), Type::Id));
    let mut b = empty_module();
    b.imports.push(String::from("c"));
    let mut a = empty_module();
    a.imports.push(String::from("b"));
    let ast = Ast {
        global_types: builtin_types(),
        modules: vec![
            (String::from("a"), a),
            (String::from("b"), b),
            (String::from("c"), c),
        ],
    };
    let a_ref = &ast.modules[0].1;
    assert_eq!(ast.resolve_type_name(a_ref, "T").unwrap(), "xcb_t_t");
    let found = ast.find_module_for_type(a_ref, "T", ast.modules.len()).unwrap();
    assert_eq!(found.types[0].0, "T");
}

#[test]
fn resolve_module_qualified() {
    let mut c = empty_module();
    c.extension_name = Some(String::from("Render"));
    c.types.push((String::from("PICTURE"), Type::Id));
    let ast = Ast {
        global_types: builtin_types(),
        modules: vec![(String::from("render"), c), (String::from("xproto"), empty_module())],
    };
    let core_ref = &ast.modules[1].1;
    assert_eq!(
        ast.resolve_type_name(core_ref, "render:PICTURE").unwrap(),
        "xcb_render_picture_t"
    );
}

#[test]
fn layout_struct_sums_and_aligns() {
    // a structure of two 4-byte, 4-aligned fields is 8 bytes, 4-aligned
    let mut m = empty_module();
    m.types.push((
        String::from("PAIR"),
        Type::Struct {
            fields: vec![scalar("x", "CARD32"), scalar("y", "CARD32")],
        },
    ));
    let ast = Ast {
        global_types: builtin_types(),
        modules: vec![(String::from("m"), m)],
    };
    let mr = &ast.modules[0].1;
    assert_eq!(ast.get_type_size_align(mr, "PAIR", 10), Some((8, 4)));
}

#[test]
fn layout_union_takes_maximum() {
    // a union of a 1-byte and a 4-byte member is 4 bytes, 4-aligned
    let mut m = empty_module();
    m.types.push((
        String::from("EITHER"),
        Type::Union {
            fields: vec![scalar("a", "BYTE"), scalar("b", "CARD32")],
        },
    ));
    let ast = Ast {
        global_types: builtin_types(),
        modules: vec![(String::from("m"), m)],
    };
    let mr = &ast.modules[0].1;
    assert_eq!(ast.get_type_size_align(mr, "EITHER", 10), Some((4, 4)));
}

#[test]
fn layout_follows_aliases_and_lists() {
    let mut m = empty_module();
    m.types.push((
        String::from("ALIAS"),
        Type::TypeDef {
            value: String::from("CARD16"),
        },
    ));
    m.types.push((
        String::from("BLOCK"),
        Type::Struct {
            fields: vec![
                Field {
                    name: String::from("data"),
                    type_: FieldType::List(String::from("ALIAS"), Length::Fixed(3)),
                },
                Field {
                    name: String::from("pad0"),
                    type_: FieldType::Padding(2),
                },
                Field {
                    name: String::from("dyn_part"),
                    type_: FieldType::List(String::from("CARD32"), Length::Absent),
                },
                Field {
                    name: String::from("fd"),
                    type_: FieldType::Fd,
                },
            ],
        },
    ));
    let ast = Ast {
        global_types: builtin_types(),
        modules: vec![(String::from("m"), m)],
    };
    let mr = &ast.modules[0].1;
    assert_eq!(ast.get_type_size_align(mr, "ALIAS", 10), Some((2, 2)));
    // 3 * 2 bytes of list + 2 bytes of padding; dynamic parts contribute nothing
    assert_eq!(ast.get_type_size_align(mr, "BLOCK", 10), Some((8, 2)));
}

#[test]
fn layout_handles_and_enums_are_words() {
    let mut m = empty_module();
    m.types.push((String::from("WINDOW"), Type::Id));
    m.types.push((
        String::from("Mode"),
        Type::Enum {
            items: vec![(String::from("On"), 1)],
        },
    ));
    let ast = Ast {
        global_types: builtin_types(),
        modules: vec![(String::from("m"), m)],
    };
    let mr = &ast.modules[0].1;
    assert_eq!(ast.get_type_size_align(mr, "WINDOW", 10), Some((4, 4)));
    assert_eq!(ast.get_type_size_align(mr, "Mode", 10), Some((4, 4)));
    assert_eq!(ast.get_type_size_align(mr, "MISSING", 10), None);
}
