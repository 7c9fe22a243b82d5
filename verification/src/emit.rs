//! The declaration emitter: renders the module set into target-language
//! declarations, one module body at a time, in a fixed order — extension
//! header, types, requests, events, errors.  Every piece of output text is
//! pinned down by a specification function; a reference that resolves
//! nowhere aborts the run with the offending identifier.

use vstd::prelude::*;

verus! {

use vstd::string::StrSliceExecFns;
use vstd::string::StringExecFns;
use crate::ast::Ast;
use crate::ast::Field;
use crate::ast::GenError;
use crate::ast::Module;
use crate::ast::SpecAst;
use crate::ast::SpecField;
use crate::ast::SpecFieldType;
use crate::ast::SpecLength;
use crate::ast::SpecModule;
use crate::ast::spec_resolve_type_name;
use crate::names::convert_name_spec;
use crate::strutil::dec_str;
use crate::strutil::fmt_u32;

/// The iterator helper pair that every named type receives: an iterator
/// record and the transport-provided advance and finalize declarations.
pub open spec fn spec_gen_iterator(prefix: Seq<char>, name: Seq<char>) -> Seq<char> {
    "    #[repr(C)]\n    #[derive(Copy, Clone)]\n    pub struct xcb_"@ + prefix + name
        + "_iterator_t {\n        pub data: *mut xcb_"@ + prefix + name
        + "_t,\n        pub rem: c_int,\n        pub index: c_int,\n    }\n    extern \"C\" {\n        pub fn xcb_"@
        + prefix + name + "_next(\n            i: *mut xcb_"@ + prefix + name
        + "_iterator_t,\n        );\n        pub fn xcb_"@ + prefix + name
        + "_end(\n            i: xcb_"@ + prefix + name
        + "_iterator_t,\n        ) -> xcb_generic_iterator_t;\n    }\n"@
}

/// Emits the iterator record and its two transport declarations for one
/// named type.
pub fn gen_iterator(w: &mut String, prefix: &str, name: &str)
    ensures
        final(w)@ == old(w)@ + spec_gen_iterator(prefix@, name@),
{
    w.append("    #[repr(C)]\n    #[derive(Copy, Clone)]\n    pub struct xcb_");
    w.append(prefix);
    w.append(name);
    w.append("_iterator_t {\n        pub data: *mut xcb_");
    w.append(prefix);
    w.append(name);
    w.append(
        "_t,\n        pub rem: c_int,\n        pub index: c_int,\n    }\n    extern \"C\" {\n        pub fn xcb_",
    );
    w.append(prefix);
    w.append(name);
    w.append("_next(\n            i: *mut xcb_");
    w.append(prefix);
    w.append(name);
    w.append("_iterator_t,\n        );\n        pub fn xcb_");
    w.append(prefix);
    w.append(name);
    w.append("_end(\n            i: xcb_");
    w.append(prefix);
    w.append(name);
    w.append("_iterator_t,\n        ) -> xcb_generic_iterator_t;\n    }\n");
    proof {
        assert(w@ =~= old(w)@ + spec_gen_iterator(prefix@, name@));
    }
}

/// One struct member line.
pub open spec fn spec_field_line(name: Seq<char>, ty: Seq<char>) -> Seq<char> {
    "        pub "@ + name + ": "@ + ty + ",\n"@
}

/// The member text one field contributes to a fixed-layout aggregate:
/// `None` on an unresolvable type reference, an empty contribution for a
/// variable-length list, a switch, or a file descriptor.
pub open spec fn spec_gen_one_field(ast: SpecAst, m: SpecModule, f: SpecField) -> Option<
    Option<Seq<char>>,
> {
    match f.ty {
        SpecFieldType::Name(t) => match spec_resolve_type_name(ast, m, t) {
            Some(r) => Some(Some(spec_field_line(f.name, r))),
            None => None,
        },
        SpecFieldType::Padding(p) => Some(
            Some(
                spec_field_line(
                    f.name,
                    if p == 1 {
                        "u8"@
                    } else {
                        "[u8; "@ + dec_str(p as int) + "]"@
                    },
                ),
            ),
        ),
        SpecFieldType::List(t, l) => match l {
            SpecLength::Fixed(c) => match spec_resolve_type_name(ast, m, t) {
                Some(r) => Some(
                    Some(spec_field_line(f.name, "["@ + r + "; "@ + dec_str(c as int) + "]"@)),
                ),
                None => None,
            },
            SpecLength::FieldRef => Some(None),
            SpecLength::Absent => Some(None),
        },
        SpecFieldType::Switch => Some(None),
        SpecFieldType::Fd => Some(None),
    }
}

/// The member text of a whole field list, in order.
pub open spec fn spec_gen_fields(ast: SpecAst, m: SpecModule, fields: Seq<SpecField>) -> Option<
    Seq<char>,
>
    decreases fields.len(),
{
    if fields.len() == 0 {
        Some(Seq::empty())
    } else {
        match spec_gen_one_field(ast, m, fields[0]) {
            None => None,
            Some(piece) => match spec_gen_fields(ast, m, fields.drop_first()) {
                None => None,
                Some(rest) => match piece {
                    Some(t) => Some(t + rest),
                    None => Some(rest),
                },
            },
        }
    }
}

/// Emits the fixed-layout members of a structure, union, request, reply,
/// event or error.  Fields whose type is a variable-length list, a switch,
/// or a file descriptor are not representable as fixed members and are
/// omitted.
pub fn gen_fields(w: &mut String, module: &Module, ast: &Ast, fields: &[Field]) -> (r: Result<
    (),
    GenError,
>)
    ensures
        match r {
            Ok(_) => match spec_gen_fields(
                ast.deep_view(),
                module.deep_view(),
                fields.deep_view(),
            ) {
                Some(t) => final(w)@ == old(w)@ + t,
                None => false,
            },
            Err(_) => spec_gen_fields(ast.deep_view(), module.deep_view(), fields.deep_view())
                is None,
        },
{
    let ghost av = ast.deep_view();
    let ghost mv = module.deep_view();
    let ghost fv = fields.deep_view();
    let ghost out0 = w@;
    let ghost mut done: Seq<char> = Seq::empty();
    proof {
        assert(fv.skip(0) =~= fv);
        assert(w@ =~= out0 + done);
    }
    let mut i: usize = 0;
    while i < fields.len()
        invariant
            i <= fields.len(),
            av == ast.deep_view(),
            mv == module.deep_view(),
            fv == fields.deep_view(),
            fv.len() == fields.len(),
            w@ == out0 + done,
            spec_gen_fields(av, mv, fv) == match spec_gen_fields(av, mv, fv.skip(i as int)) {
                Some(rest) => Some(done + rest),
                None => None::<Seq<char>>,
            },
        decreases fields.len() - i,
    {
        proof {
            assert(fv.skip(i as int)[0] == fv[i as int]);
            assert(fv[i as int] == fields@[i as int].deep_view());
            assert(fv.skip(i as int).drop_first() =~= fv.skip(i as int + 1));
        }
        let ghost pre = w@;
        match &fields[i].type_ {
            crate::ast::FieldType::Name(t) => {
                match ast.resolve_type_name(module, t.as_str()) {
                    Ok(rt) => {
                        w.append("        pub ");
                        w.append(fields[i].name.as_str());
                        w.append(": ");
                        w.append(rt.as_str());
                        w.append(",\n");
                        proof {
                            assert(w@ =~= pre + spec_field_line(fv[i as int].name, rt@));
                            done = done + spec_field_line(fv[i as int].name, rt@);
                        }
                    },
                    Err(e) => {
                        return Err(e);
                    },
                }
            },
            crate::ast::FieldType::Padding(p) => {
                w.append("        pub ");
                w.append(fields[i].name.as_str());
                w.append(": ");
                if *p == 1 {
                    w.append("u8");
                } else {
                    w.append("[u8; ");
                    let digits = fmt_u32(*p);
                    w.append(digits.as_str());
                    w.append("]");
                }
                w.append(",\n");
                proof {
                    let ty = if fv[i as int].ty->Padding_0 == 1 {
                        "u8"@
                    } else {
                        "[u8; "@ + dec_str(fv[i as int].ty->Padding_0 as int) + "]"@
                    };
                    assert(w@ =~= pre + spec_field_line(fv[i as int].name, ty));
                    done = done + spec_field_line(fv[i as int].name, ty);
                }
            },
            crate::ast::FieldType::List(t, l) => {
                match l {
                    crate::ast::Length::Fixed(c) => {
                        match ast.resolve_type_name(module, t.as_str()) {
                            Ok(rt) => {
                                w.append("        pub ");
                                w.append(fields[i].name.as_str());
                                w.append(": ");
                                w.append("[");
                                w.append(rt.as_str());
                                w.append("; ");
                                let digits = fmt_u32(*c);
                                w.append(digits.as_str());
                                w.append("]");
                                w.append(",\n");
                                proof {
                                    let ty = "["@ + rt@ + "; "@ + dec_str(*c as int) + "]"@;
                                    assert(w@ =~= pre + spec_field_line(fv[i as int].name, ty));
                                    done = done + spec_field_line(fv[i as int].name, ty);
                                }
                            },
                            Err(e) => {
                                return Err(e);
                            },
                        }
                    },
                    _ => {},
                }
            },
            crate::ast::FieldType::Switch => {},
            crate::ast::FieldType::Fd => {},
        }
        i = i + 1;
    }
    proof {
        assert(fv.skip(fields.len() as int) =~= Seq::<SpecField>::empty());
    }
    Ok(())
}

// ---------------------------------------------------------------------------
// Type declarations.

/// The underlying 4-byte alias of an opaque handle or enumeration.
pub open spec fn spec_alias_line(prefix: Seq<char>, cn: Seq<char>) -> Seq<char> {
    "    pub type xcb_"@ + prefix + cn + "_t = u32;\n"@
}

/// Whether some opaque-handle declaration of the module converts to this
/// name; a same-named enumeration then emits no alias of its own.
pub open spec fn spec_is_id_name(
    types: Seq<(Seq<char>, crate::ast::SpecType)>,
    n: Seq<char>,
) -> bool {
    exists|k: int|
        0 <= k < types.len() && (#[trigger] types[k]).1 is Id && convert_name_spec(types[k].0) == n
}

/// The value constants of an enumeration, one per item, named after the
/// enumeration and the item, upper-cased.
pub open spec fn spec_enum_items_text(
    prefix: Seq<char>,
    cn: Seq<char>,
    items: Seq<(Seq<char>, u32)>,
) -> Seq<char>
    decreases items.len(),
{
    if items.len() == 0 {
        Seq::empty()
    } else {
        let const_name = crate::strutil::upper_chars(
            "xcb_"@ + prefix + cn + "_"@ + convert_name_spec(items[0].0),
        );
        "    pub const "@ + const_name + ": xcb_"@ + prefix + cn + "_t = "@ + dec_str(
            items[0].1 as int,
        ) + ";\n"@ + spec_enum_items_text(prefix, cn, items.drop_first())
    }
}

/// The first module in the set whose extension name matches.
pub open spec fn spec_find_ext_module(
    modules: Seq<(Seq<char>, SpecModule)>,
    ext: Seq<char>,
) -> Option<SpecModule>
    decreases modules.len(),
{
    if modules.len() == 0 {
        None
    } else if modules[0].1.extension_name == Some(ext) {
        Some(modules[0].1)
    } else {
        spec_find_ext_module(modules.drop_first(), ext)
    }
}

/// The generic-event flag of the first event with this name; `false` when
/// the carrier is itself a copy, as the aggregation rule has it.
pub open spec fn spec_event_xge_in(events: Seq<crate::ast::SpecEvent>, name: Seq<char>) -> bool
    decreases events.len(),
{
    if events.len() == 0 {
        false
    } else if events[0].name == name {
        match events[0].inner {
            crate::ast::SpecEventInner::Event { xge, .. } => xge,
            crate::ast::SpecEventInner::Copy(_) => false,
        }
    } else {
        spec_event_xge_in(events.drop_first(), name)
    }
}

/// The generic-event flag of one event, following a copy reference to its
/// declaring module; `None` when the reference resolves nowhere.
pub open spec fn spec_event_xge(ast: SpecAst, m: SpecModule, e: crate::ast::SpecEvent) -> Option<
    bool,
> {
    match e.inner {
        crate::ast::SpecEventInner::Event { xge, .. } => Some(xge),
        crate::ast::SpecEventInner::Copy(rf) => match crate::ast::spec_find_event_module(
            ast,
            m,
            rf,
            ast.modules.len() as int,
        ) {
            Some(rm) => Some(spec_event_xge_in(rm.events, rf)),
            None => None,
        },
    }
}

/// The events an aggregate gathers: those of the extension's declaring
/// module whose resolved generic-event flag matches and whose number lies
/// in the half-open opcode range.
pub open spec fn spec_collect_es_events(
    ast: SpecAst,
    m: SpecModule,
    events: Seq<crate::ast::SpecEvent>,
    es: crate::ast::SpecEventStruct,
) -> Option<Seq<(u32, Seq<char>)>>
    decreases events.len(),
{
    if events.len() == 0 {
        Some(Seq::empty())
    } else {
        match spec_event_xge(ast, m, events[0]) {
            None => None,
            Some(x) => match spec_collect_es_events(ast, m, events.drop_first(), es) {
                None => None,
                Some(rest) => if x == es.xge && events[0].number >= es.opcode_min
                    && events[0].number < es.opcode_max {
                    Some(seq![(events[0].number, events[0].name)] + rest)
                } else {
                    Some(rest)
                },
            },
        }
    }
}

/// Stable insertion by event number: an equal number goes after the
/// entries already present.
pub open spec fn spec_insert_by_number(
    s: Seq<(u32, Seq<char>)>,
    e: (u32, Seq<char>),
) -> Seq<(u32, Seq<char>)>
    decreases s.len(),
{
    if s.len() == 0 {
        seq![e]
    } else if e.0 < s[0].0 {
        seq![e] + s
    } else {
        seq![s[0]] + spec_insert_by_number(s.drop_first(), e)
    }
}

/// Stable sort by event number.
pub open spec fn spec_sort_by_number(s: Seq<(u32, Seq<char>)>) -> Seq<(u32, Seq<char>)>
    decreases s.len(),
{
    if s.len() == 0 {
        Seq::empty()
    } else {
        spec_insert_by_number(spec_sort_by_number(s.drop_last()), s.last())
    }
}

/// One member per aggregated event.
pub open spec fn spec_es_members_text(prefix: Seq<char>, members: Seq<(u32, Seq<char>)>) -> Seq<
    char,
>
    decreases members.len(),
{
    if members.len() == 0 {
        Seq::empty()
    } else {
        let en = convert_name_spec(members[0].1);
        "        pub "@ + en + ": xcb_"@ + prefix + en + "_event_t,\n"@ + spec_es_members_text(
            prefix,
            members.drop_first(),
        )
    }
}

/// The declaration text of one named type.
pub open spec fn spec_gen_type(
    ast: SpecAst,
    owner: SpecModule,
    prefix: Seq<char>,
    tname: Seq<char>,
    t: crate::ast::SpecType,
) -> Option<Seq<char>> {
    let cn = convert_name_spec(tname);
    match t {
        crate::ast::SpecType::Id => Some(spec_alias_line(prefix, cn) + spec_gen_iterator(prefix, cn)),
        crate::ast::SpecType::Enum(items) => Some(
            (if spec_is_id_name(owner.types, cn) {
                Seq::empty()
            } else {
                spec_alias_line(prefix, cn)
            }) + spec_enum_items_text(prefix, cn, items),
        ),
        crate::ast::SpecType::TypeDef(v) => match spec_resolve_type_name(ast, owner, v) {
            Some(ft) => Some(
                "    pub type xcb_"@ + prefix + cn + "_t = "@ + ft + ";\n"@ + spec_gen_iterator(
                    prefix,
                    cn,
                ),
            ),
            None => None,
        },
        crate::ast::SpecType::Struct(fs) => match spec_gen_fields(ast, owner, fs) {
            Some(body) => Some(
                "    #[repr(C)]\n    #[derive(Copy, Clone)]\n    pub struct xcb_"@ + prefix + cn
                    + "_t {\n"@ + body + "    }\n"@ + spec_gen_iterator(prefix, cn),
            ),
            None => None,
        },
        crate::ast::SpecType::Union(fs) => match spec_gen_fields(ast, owner, fs) {
            Some(body) => Some(
                "    #[repr(C)]\n    #[derive(Copy, Clone)]\n    pub union xcb_"@ + prefix + cn
                    + "_t {\n"@ + body + "    }\n"@ + spec_gen_iterator(prefix, cn),
            ),
            None => None,
        },
        crate::ast::SpecType::EventStruct(es) => {
            let collected = match spec_find_ext_module(ast.modules, es.extension) {
                Some(sm) => spec_collect_es_events(ast, sm, sm.events, es),
                None => Some(Seq::empty()),
            };
            match collected {
                None => None,
                Some(c) => Some(
                    "    #[repr(C)]\n    #[derive(Copy, Clone)]\n    pub union xcb_"@ + prefix + cn
                        + "_t {\n"@ + spec_es_members_text(prefix, spec_sort_by_number(c))
                        + "        pub event_header: xcb_raw_generic_event_t,\n    }\n"@
                        + spec_gen_iterator(prefix, cn),
                ),
            }
        },
    }
}

/// The whole types section of a module, in key order.
pub open spec fn spec_gen_types(
    ast: SpecAst,
    owner: SpecModule,
    prefix: Seq<char>,
    types: Seq<(Seq<char>, crate::ast::SpecType)>,
) -> Option<Seq<char>>
    decreases types.len(),
{
    if types.len() == 0 {
        Some(Seq::empty())
    } else {
        match spec_gen_type(ast, owner, prefix, types[0].0, types[0].1) {
            None => None,
            Some(t) => match spec_gen_types(ast, owner, prefix, types.drop_first()) {
                None => None,
                Some(rest) => Some(t + rest),
            },
        }
    }
}

pub fn module_has_id_name(module: &Module, name: &str) -> (r: bool)
    ensures
        r == spec_is_id_name(module.deep_view().types, name@),
{
    let ghost tv = module.deep_view().types;
    let mut i: usize = 0;
    while i < module.types.len()
        invariant
            i <= module.types.len(),
            tv == module.deep_view().types,
            tv.len() == module.types.len(),
            forall|k: int|
                0 <= k < i ==> !((#[trigger] tv[k]).1 is Id && convert_name_spec(tv[k].0) == name@),
        decreases module.types.len() - i,
    {
        proof {
            assert(tv[i as int] == module.types@[i as int].deep_view());
        }
        match &module.types[i].1 {
            crate::ast::Type::Id => {
                let cn = crate::names::convert_name(module.types[i].0.as_str());
                if crate::strutil::str_eq(cn.as_str(), name) {
                    return true;
                }
            },
            _ => {},
        }
        i = i + 1;
    }
    false
}

pub fn find_ext_module<'a>(ast: &'a Ast, ext: &str) -> (r: Option<&'a Module>)
    ensures
        match r {
            Some(m) => spec_find_ext_module(ast.deep_view().modules, ext@) == Some(m.deep_view()),
            None => spec_find_ext_module(ast.deep_view().modules, ext@) is None,
        },
{
    let ghost mv = ast.deep_view().modules;
    proof {
        assert(mv.skip(0) =~= mv);
    }
    let mut i: usize = 0;
    while i < ast.modules.len()
        invariant
            i <= ast.modules.len(),
            mv == ast.deep_view().modules,
            mv.len() == ast.modules.len(),
            spec_find_ext_module(mv.skip(i as int), ext@) == spec_find_ext_module(mv, ext@),
        decreases ast.modules.len() - i,
    {
        proof {
            assert(mv.skip(i as int)[0] == mv[i as int]);
            assert(mv[i as int] == ast.modules@[i as int].deep_view());
            assert(mv.skip(i as int).drop_first() =~= mv.skip(i as int + 1));
        }
        let matches_ext = match &ast.modules[i].1.extension_name {
            Some(e) => crate::strutil::str_eq(e.as_str(), ext),
            None => false,
        };
        if matches_ext {
            return Some(&ast.modules[i].1);
        }
        i = i + 1;
    }
    proof {
        assert(mv.skip(ast.modules.len() as int) =~= Seq::<(Seq<char>, SpecModule)>::empty());
    }
    None
}

pub fn event_xge_in(m: &Module, name: &str) -> (r: bool)
    ensures
        r == spec_event_xge_in(m.deep_view().events, name@),
{
    let ghost ev = m.deep_view().events;
    proof {
        assert(ev.skip(0) =~= ev);
    }
    let mut i: usize = 0;
    while i < m.events.len()
        invariant
            i <= m.events.len(),
            ev == m.deep_view().events,
            ev.len() == m.events.len(),
            spec_event_xge_in(ev.skip(i as int), name@) == spec_event_xge_in(ev, name@),
        decreases m.events.len() - i,
    {
        proof {
            assert(ev.skip(i as int)[0] == ev[i as int]);
            assert(ev[i as int] == m.events@[i as int].deep_view());
            assert(ev.skip(i as int).drop_first() =~= ev.skip(i as int + 1));
        }
        if crate::strutil::str_eq(m.events[i].name.as_str(), name) {
            match &m.events[i].inner {
                crate::ast::EventInner::Event { xge, .. } => {
                    return *xge;
                },
                crate::ast::EventInner::Copy { .. } => {
                    return false;
                },
            }
        }
        i = i + 1;
    }
    proof {
        assert(ev.skip(m.events.len() as int) =~= Seq::<crate::ast::SpecEvent>::empty());
    }
    false
}

fn collect_es_events(ast: &Ast, sm: &Module, es: &crate::ast::EventStruct) -> (r: Result<
    Vec<(u32, String)>,
    GenError,
>)
    ensures
        match r {
            Ok(v) => spec_collect_es_events(
                ast.deep_view(),
                sm.deep_view(),
                sm.deep_view().events,
                es.deep_view(),
            ) == Some(v.deep_view()),
            Err(_) => spec_collect_es_events(
                ast.deep_view(),
                sm.deep_view(),
                sm.deep_view().events,
                es.deep_view(),
            ) is None,
        },
{
    let ghost av = ast.deep_view();
    let ghost smv = sm.deep_view();
    let ghost ev = smv.events;
    proof {
        assert(ev.skip(0) =~= ev);
    }
    let mut out: Vec<(u32, String)> = Vec::new();
    let mut i: usize = 0;
    while i < sm.events.len()
        invariant
            i <= sm.events.len(),
            av == ast.deep_view(),
            smv == sm.deep_view(),
            ev == smv.events,
            ev.len() == sm.events.len(),
            spec_collect_es_events(av, smv, ev, es.deep_view()) == match spec_collect_es_events(
                av,
                smv,
                ev.skip(i as int),
                es.deep_view(),
            ) {
                Some(rest) => Some(out.deep_view() + rest),
                None => None::<Seq<(u32, Seq<char>)>>,
            },
        decreases sm.events.len() - i,
    {
        let ghost pre = out.deep_view();
        proof {
            assert(ev.skip(i as int)[0] == ev[i as int]);
            assert(ev[i as int] == sm.events@[i as int].deep_view());
            assert(ev.skip(i as int).drop_first() =~= ev.skip(i as int + 1));
        }
        let event = &sm.events[i];
        let event_xge: bool;
        match &event.inner {
            crate::ast::EventInner::Event { xge, .. } => {
                event_xge = *xge;
            },
            crate::ast::EventInner::Copy { ref_ } => {
                match ast.find_module_for_event(sm, ref_.as_str(), ast.modules.len()) {
                    Some(rm) => {
                        event_xge = event_xge_in(rm, ref_.as_str());
                    },
                    None => {
                        return Err(crate::ast::GenError::UnresolvedEvent { name: ref_.clone() });
                    },
                }
            },
        }
        if event_xge == es.xge && event.number >= es.opcode_min && event.number < es.opcode_max {
            out.push((event.number, event.name.clone()));
            proof {
                assert(out.deep_view() =~= pre + seq![(ev[i as int].number, ev[i as int].name)]);
            }
        }
        i = i + 1;
    }
    proof {
        assert(ev.skip(sm.events.len() as int) =~= Seq::<crate::ast::SpecEvent>::empty());
    }
    Ok(out)
}

proof fn lemma_insert_by_number_at(s: Seq<(u32, Seq<char>)>, e: (u32, Seq<char>), i: int)
    requires
        0 <= i <= s.len(),
        forall|k: int| 0 <= k < i ==> !(e.0 < (#[trigger] s[k]).0),
        i < s.len() ==> e.0 < s[i].0,
    ensures
        spec_insert_by_number(s, e) == s.take(i) + seq![e] + s.skip(i),
    decreases i,
{
    if i == 0 {
        if s.len() == 0 {
            assert(spec_insert_by_number(s, e) =~= s.take(0) + seq![e] + s.skip(0));
        } else {
            assert(seq![e] + s =~= s.take(0) + seq![e] + s.skip(0));
        }
    } else {
        let rest = s.drop_first();
        assert(forall|k: int| 0 <= k < i - 1 ==> (#[trigger] rest[k]) == s[k + 1]);
        lemma_insert_by_number_at(rest, e, i - 1);
        assert(seq![s[0]] + (rest.take(i - 1) + seq![e] + rest.skip(i - 1)) =~= s.take(i) + seq![e]
            + s.skip(i));
    }
}

fn sort_by_number(v: &Vec<(u32, String)>) -> (r: Vec<(u32, String)>)
    ensures
        r.deep_view() == spec_sort_by_number(v.deep_view()),
{
    let ghost sv = v.deep_view();
    let mut out: Vec<(u32, String)> = Vec::new();
    proof {
        assert(sv.take(0) =~= Seq::<(u32, Seq<char>)>::empty());
        assert(out.deep_view() =~= spec_sort_by_number(sv.take(0)));
    }
    let mut i: usize = 0;
    while i < v.len()
        invariant
            i <= v.len(),
            sv == v.deep_view(),
            sv.len() == v.len(),
            out.deep_view() == spec_sort_by_number(sv.take(i as int)),
            out.len() == i,
        decreases v.len() - i,
    {
        let ghost before = out.deep_view();
        let e = (v[i].0, v[i].1.clone());
        proof {
            assert(e.deep_view() == sv[i as int]);
        }
        let mut pos: usize = 0;
        while pos < out.len() && !(e.0 < out[pos].0)
            invariant
                pos <= out.len(),
                before == out.deep_view(),
                before.len() == out.len(),
                forall|k: int| 0 <= k < pos ==> !(e.0 < (#[trigger] before[k]).0),
            decreases out.len() - pos,
        {
            proof {
                assert(before[pos as int].0 == out@[pos as int].0);
            }
            pos = pos + 1;
        }
        proof {
            if pos < out.len() {
                assert(before[pos as int].0 == out@[pos as int].0);
            }
        }
        out.insert(pos, e);
        proof {
            lemma_insert_by_number_at(before, sv[i as int], pos as int);
            assert(out.deep_view() =~= before.take(pos as int) + seq![sv[i as int]] + before.skip(
                pos as int,
            ));
            assert(sv.take(i + 1).drop_last() =~= sv.take(i as int));
            assert(sv.take(i + 1).last() == sv[i as int]);
        }
        i = i + 1;
    }
    proof {
        assert(sv.take(v.len() as int) =~= sv);
    }
    out
}

/// Emits the declaration of one named type.
#[verifier::rlimit(100)]
#[verifier::spinoff_prover]
fn gen_type(
    w: &mut String,
    ast: &Ast,
    owner: &Module,
    prefix: &str,
    tname: &str,
    t: &crate::ast::Type,
) -> (r: Result<(), GenError>)
    ensures
        match r {
            Ok(_) => match spec_gen_type(
                ast.deep_view(),
                owner.deep_view(),
                prefix@,
                tname@,
                t.deep_view(),
            ) {
                Some(txt) => final(w)@ == old(w)@ + txt,
                None => false,
            },
            Err(_) => spec_gen_type(
                ast.deep_view(),
                owner.deep_view(),
                prefix@,
                tname@,
                t.deep_view(),
            ) is None,
        },
{
    let ghost av = ast.deep_view();
    let ghost ov = owner.deep_view();
    let ghost out0 = w@;
    let cn = crate::names::convert_name(tname);
    match t {
        crate::ast::Type::Id => {
            w.append("    pub type xcb_");
            w.append(prefix);
            w.append(cn.as_str());
            w.append("_t = u32;\n");
            gen_iterator(w, prefix, cn.as_str());
            proof {
                assert(w@ =~= out0 + (spec_alias_line(prefix@, cn@) + spec_gen_iterator(
                    prefix@,
                    cn@,
                )));
            }
            Ok(())
        },
        crate::ast::Type::Enum { items } => {
            let ghost head: Seq<char> = if spec_is_id_name(ov.types, cn@) {
                Seq::empty()
            } else {
                spec_alias_line(prefix@, cn@)
            };
            if !module_has_id_name(owner, cn.as_str()) {
                w.append("    pub type xcb_");
                w.append(prefix);
                w.append(cn.as_str());
                w.append("_t = u32;\n");
            }
            proof {
                assert(w@ =~= out0 + head);
            }
            let ghost iv = items.deep_view();
            let ghost base = w@;
            let ghost mut done: Seq<char> = Seq::empty();
            proof {
                assert(iv.skip(0) =~= iv);
                assert(w@ =~= base + done);
            }
            let mut j: usize = 0;
            while j < items.len()
                invariant
                    j <= items.len(),
                    iv == items.deep_view(),
                    iv.len() == items.len(),
                    w@ == base + done,
                    spec_enum_items_text(prefix@, cn@, iv) == done + spec_enum_items_text(
                        prefix@,
                        cn@,
                        iv.skip(j as int),
                    ),
                decreases items.len() - j,
            {
                proof {
                    assert(iv.skip(j as int)[0] == iv[j as int]);
                    assert(iv[j as int] == items@[j as int].deep_view());
                    assert(iv.skip(j as int).drop_first() =~= iv.skip(j as int + 1));
                }
                let ghost pre = w@;
                let item_cn = crate::names::convert_name(items[j].0.as_str());
                let mut full = String::from_str("xcb_");
                full.append(prefix);
                full.append(cn.as_str());
                full.append("_");
                full.append(item_cn.as_str());
                let const_name = crate::strutil::ascii_upper(full.as_str());
                w.append("    pub const ");
                w.append(const_name.as_str());
                w.append(": xcb_");
                w.append(prefix);
                w.append(cn.as_str());
                w.append("_t = ");
                let digits = fmt_u32(items[j].1);
                w.append(digits.as_str());
                w.append(";\n");
                proof {
                    let piece = "    pub const "@ + crate::strutil::upper_chars(
                        "xcb_"@ + prefix@ + cn@ + "_"@ + convert_name_spec(iv[j as int].0),
                    ) + ": xcb_"@ + prefix@ + cn@ + "_t = "@ + dec_str(iv[j as int].1 as int)
                        + ";\n"@;
                    assert(const_name@ =~= crate::strutil::upper_chars(
                        "xcb_"@ + prefix@ + cn@ + "_"@ + convert_name_spec(iv[j as int].0),
                    ));
                    assert(w@ =~= pre + piece);
                    done = done + piece;
                }
                j = j + 1;
            }
            proof {
                assert(iv.skip(items.len() as int) =~= Seq::<(Seq<char>, u32)>::empty());
                assert(w@ =~= out0 + (head + spec_enum_items_text(prefix@, cn@, iv)));
            }
            Ok(())
        },
        crate::ast::Type::TypeDef { value } => {
            match ast.resolve_type_name(owner, value.as_str()) {
                Ok(ft) => {
                    w.append("    pub type xcb_");
                    w.append(prefix);
                    w.append(cn.as_str());
                    w.append("_t = ");
                    w.append(ft.as_str());
                    w.append(";\n");
                    gen_iterator(w, prefix, cn.as_str());
                    proof {
                        assert(w@ =~= out0 + ("    pub type xcb_"@ + prefix@ + cn@ + "_t = "@ + ft@
                            + ";\n"@ + spec_gen_iterator(prefix@, cn@)));
                    }
                    Ok(())
                },
                Err(e) => Err(e),
            }
        },
        crate::ast::Type::Struct { fields } => {
            w.append("    #[repr(C)]\n    #[derive(Copy, Clone)]\n    pub struct xcb_");
            w.append(prefix);
            w.append(cn.as_str());
            w.append("_t {\n");
            let ghost mid = w@;
            match gen_fields(w, owner, ast, fields.as_slice()) {
                Ok(_) => {
                    w.append("    }\n");
                    gen_iterator(w, prefix, cn.as_str());
                    proof {
                        let body = spec_gen_fields(av, ov, fields.deep_view()).unwrap();
                        assert(w@ =~= out0 + (
                        "    #[repr(C)]\n    #[derive(Copy, Clone)]\n    pub struct xcb_"@
                            + prefix@ + cn@ + "_t {\n"@ + body + "    }\n"@ + spec_gen_iterator(
                            prefix@,
                            cn@,
                        )));
                    }
                    Ok(())
                },
                Err(e) => Err(e),
            }
        },
        crate::ast::Type::Union { fields } => {
            w.append("    #[repr(C)]\n    #[derive(Copy, Clone)]\n    pub union xcb_");
            w.append(prefix);
            w.append(cn.as_str());
            w.append("_t {\n");
            match gen_fields(w, owner, ast, fields.as_slice()) {
                Ok(_) => {
                    w.append("    }\n");
                    gen_iterator(w, prefix, cn.as_str());
                    proof {
                        let body = spec_gen_fields(av, ov, fields.deep_view()).unwrap();
                        assert(w@ =~= out0 + (
                        "    #[repr(C)]\n    #[derive(Copy, Clone)]\n    pub union xcb_"@ + prefix@
                            + cn@ + "_t {\n"@ + body + "    }\n"@ + spec_gen_iterator(
                            prefix@,
                            cn@,
                        )));
                    }
                    Ok(())
                },
                Err(e) => Err(e),
            }
        },
        crate::ast::Type::EventStruct(es) => {
            let collected: Vec<(u32, String)>;
            match find_ext_module(ast, es.extension.as_str()) {
                Some(sm) => {
                    match collect_es_events(ast, sm, es) {
                        Ok(v) => {
                            collected = v;
                        },
                        Err(e) => {
                            return Err(e);
                        },
                    }
                },
                None => {
                    collected = Vec::new();
                    proof {
                        assert(collected.deep_view() =~= Seq::<(u32, Seq<char>)>::empty());
                    }
                },
            }
            let sorted = sort_by_number(&collected);
            w.append("    #[repr(C)]\n    #[derive(Copy, Clone)]\n    pub union xcb_");
            w.append(prefix);
            w.append(cn.as_str());
            w.append("_t {\n");
            let ghost sv = sorted.deep_view();
            let ghost base = w@;
            let ghost mut done: Seq<char> = Seq::empty();
            proof {
                assert(sv.skip(0) =~= sv);
                assert(w@ =~= base + done);
            }
            let mut j: usize = 0;
            while j < sorted.len()
                invariant
                    j <= sorted.len(),
                    sv == sorted.deep_view(),
                    sv.len() == sorted.len(),
                    w@ == base + done,
                    spec_es_members_text(prefix@, sv) == done + spec_es_members_text(
                        prefix@,
                        sv.skip(j as int),
                    ),
                decreases sorted.len() - j,
            {
                proof {
                    assert(sv.skip(j as int)[0] == sv[j as int]);
                    assert(sv[j as int] == sorted@[j as int].deep_view());
                    assert(sv.skip(j as int).drop_first() =~= sv.skip(j as int + 1));
                }
                let ghost pre = w@;
                let en = crate::names::convert_name(sorted[j].1.as_str());
                w.append("        pub ");
                w.append(en.as_str());
                w.append(": xcb_");
                w.append(prefix);
                w.append(en.as_str());
                w.append("_event_t,\n");
                proof {
                    let piece = "        pub "@ + convert_name_spec(sv[j as int].1) + ": xcb_"@
                        + prefix@ + convert_name_spec(sv[j as int].1) + "_event_t,\n"@;
                    assert(w@ =~= pre + piece);
                    done = done + piece;
                }
                j = j + 1;
            }
            proof {
                assert(sv.skip(sorted.len() as int) =~= Seq::<(u32, Seq<char>)>::empty());
            }
            w.append("        pub event_header: xcb_raw_generic_event_t,\n    }\n");
            gen_iterator(w, prefix, cn.as_str());
            proof {
                assert(w@ =~= out0 + (
                "    #[repr(C)]\n    #[derive(Copy, Clone)]\n    pub union xcb_"@ + prefix@ + cn@
                    + "_t {\n"@ + spec_es_members_text(prefix@, sv)
                    + "        pub event_header: xcb_raw_generic_event_t,\n    }\n"@
                    + spec_gen_iterator(prefix@, cn@)));
            }
            Ok(())
        },
    }
}

/// Emits every type declaration of a module, in key order.
fn gen_types(w: &mut String, ast: &Ast, owner: &Module, prefix: &str) -> (r: Result<(), GenError>)
    ensures
        match r {
            Ok(_) => match spec_gen_types(
                ast.deep_view(),
                owner.deep_view(),
                prefix@,
                owner.deep_view().types,
            ) {
                Some(txt) => final(w)@ == old(w)@ + txt,
                None => false,
            },
            Err(_) => spec_gen_types(
                ast.deep_view(),
                owner.deep_view(),
                prefix@,
                owner.deep_view().types,
            ) is None,
        },
{
    let ghost av = ast.deep_view();
    let ghost ov = owner.deep_view();
    let ghost tv = ov.types;
    let ghost out0 = w@;
    let ghost mut done: Seq<char> = Seq::empty();
    proof {
        assert(tv.skip(0) =~= tv);
        assert(w@ =~= out0 + done);
    }
    let mut i: usize = 0;
    while i < owner.types.len()
        invariant
            i <= owner.types.len(),
            av == ast.deep_view(),
            ov == owner.deep_view(),
            tv == ov.types,
            tv.len() == owner.types.len(),
            w@ == out0 + done,
            spec_gen_types(av, ov, prefix@, tv) == match spec_gen_types(
                av,
                ov,
                prefix@,
                tv.skip(i as int),
            ) {
                Some(rest) => Some(done + rest),
                None => None::<Seq<char>>,
            },
        decreases owner.types.len() - i,
    {
        proof {
            assert(tv.skip(i as int)[0] == tv[i as int]);
            assert(tv[i as int] == owner.types@[i as int].deep_view());
            assert(tv.skip(i as int).drop_first() =~= tv.skip(i as int + 1));
        }
        let ghost pre = w@;
        match gen_type(w, ast, owner, prefix, owner.types[i].0.as_str(), &owner.types[i].1) {
            Ok(_) => {
                proof {
                    done = done + spec_gen_type(av, ov, prefix@, tv[i as int].0, tv[i as int].1)
                        .unwrap();
                }
            },
            Err(e) => {
                return Err(e);
            },
        }
        i = i + 1;
    }
    proof {
        assert(tv.skip(owner.types.len() as int) =~= Seq::<(Seq<char>, crate::ast::SpecType)>::empty());
    }
    Ok(())
}

// ---------------------------------------------------------------------------
// Requests.

/// The transport-call parameter one field contributes: a value for a
/// scalar, a count (when no length is given) and a pointer for a list, an
/// opaque pointer for a switch, an integer for a file descriptor, nothing
/// for padding.
pub open spec fn spec_request_args(ast: SpecAst, m: SpecModule, fields: Seq<SpecField>) -> Option<
    Seq<char>,
>
    decreases fields.len(),
{
    if fields.len() == 0 {
        Some(Seq::empty())
    } else {
        let f = fields[0];
        let piece = match f.ty {
            SpecFieldType::Name(t) => match spec_resolve_type_name(ast, m, t) {
                Some(r) => Some("            "@ + f.name + ": "@ + r + ",\n"@),
                None => None,
            },
            SpecFieldType::List(t, l) => match spec_resolve_type_name(ast, m, t) {
                Some(r) => Some(
                    (if l is Absent {
                        "            "@ + f.name + "_len: u32,\n"@
                    } else {
                        Seq::empty()
                    }) + "            "@ + f.name + ": *const "@ + r + ",\n"@,
                ),
                None => None,
            },
            SpecFieldType::Switch => Some("            "@ + f.name + ": *const c_void,\n"@),
            SpecFieldType::Fd => Some("            "@ + f.name + ": i32,\n"@),
            SpecFieldType::Padding(_) => Some(Seq::empty()),
        };
        match piece {
            None => None,
            Some(p) => match spec_request_args(ast, m, fields.drop_first()) {
                None => None,
                Some(rest) => Some(p + rest),
            },
        }
    }
}

/// The members of a request structure: for the core protocol the first
/// declared field (or an implicit pad) sits between the opcode byte and
/// the length half-word; an extension request keeps all fields after its
/// three-byte header.
pub open spec fn spec_request_struct_body(
    ast: SpecAst,
    m: SpecModule,
    fields: Seq<SpecField>,
) -> Option<Seq<char>> {
    if m.extension_name is Some {
        match spec_gen_fields(ast, m, fields) {
            Some(b) => Some(
                "        pub major_opcode: u8,\n        pub minor_opcode: u8,\n        pub length: u16,\n"@
                    + b,
            ),
            None => None,
        }
    } else {
        let first_part = if fields.len() >= 1 {
            spec_gen_fields(ast, m, fields.take(1))
        } else {
            Some("        pub pad0: [u8; 1],\n"@)
        };
        let rest_part = if fields.len() >= 1 {
            spec_gen_fields(ast, m, fields.skip(1))
        } else {
            Some(Seq::empty())
        };
        match (first_part, rest_part) {
            (Some(a), Some(b)) => Some(
                "        pub major_opcode: u8,\n"@ + a + "        pub length: u16,\n"@ + b,
            ),
            _ => None,
        }
    }
}

/// The members of a reply structure, after its fixed response, pad or
/// first field, sequence and length header.
pub open spec fn spec_reply_body(ast: SpecAst, m: SpecModule, fields: Seq<SpecField>) -> Option<
    Seq<char>,
> {
    let first_part = if fields.len() >= 1 {
        spec_gen_fields(ast, m, fields.take(1))
    } else {
        Some("        pub pad0: [u8; 1],\n"@)
    };
    let rest_part = if fields.len() >= 1 {
        spec_gen_fields(ast, m, fields.skip(1))
    } else {
        Some(Seq::empty())
    };
    match (first_part, rest_part) {
        (Some(a), Some(b)) => Some(
            "        pub response_type: u8,\n"@ + a
                + "        pub sequence: u16,\n        pub length: u32,\n"@ + b,
        ),
        _ => None,
    }
}

/// The reply structure and per-request cookie structure of a request that
/// has a reply.
pub open spec fn spec_reply_cookie_text(rn: Seq<char>, rb: Seq<char>) -> Seq<char> {
    "    #[repr(C)]\n    #[derive(Copy, Clone)]\n    pub struct "@ + rn + "_reply_t {\n"@ + rb
        + "    }\n"@ + "    #[repr(C)]\n    #[derive(Copy, Clone)]\n    pub struct "@ + rn
        + "_cookie_t {\n        pub sequence: c_uint,\n    }\n"@
}

/// The transport-call declarations of a request: a checked and an
/// unchecked variant returning the request's cookie type — the shared void
/// cookie when there is no reply — and, when a reply exists, the reply
/// fetch taking the cookie and an error out-parameter.
pub open spec fn spec_request_calls(rn: Seq<char>, has_reply: bool, args: Seq<char>) -> Seq<char> {
    let cookie_type: Seq<char> = if has_reply {
        rn
    } else {
        "xcb_void"@
    };
    let suffix1: Seq<char> = if has_reply {
        Seq::empty()
    } else {
        "_checked"@
    };
    let suffix2: Seq<char> = if has_reply {
        "_unchecked"@
    } else {
        Seq::empty()
    };
    "    extern \"C\" {\n"@ + "        pub fn "@ + rn + suffix1 + "(\n"@ + args
        + "        ) -> "@ + cookie_type + "_cookie_t;\n"@ + "        pub fn "@ + rn + suffix2
        + "(\n"@ + args + "        ) -> "@ + cookie_type + "_cookie_t;\n"@ + (if has_reply {
        "        pub fn "@ + rn
            + "_reply(\n            c: *mut xcb_connection_t,\n            cookie: "@
            + cookie_type
            + "_cookie_t,\n            e: *mut *mut xcb_generic_error_t,\n        ) -> *mut "@
            + rn + "_reply_t;\n"@
    } else {
        Seq::<char>::empty()
    }) + "    }\n"@
}

/// Everything one request emits: its opcode constant, its request
/// structure, a reply and cookie structure when it has a reply — requests
/// without one share the void cookie type instead — and the checked and
/// unchecked transport calls, plus the reply fetch when a reply exists.
pub open spec fn spec_gen_request(
    ast: SpecAst,
    m: SpecModule,
    prefix: Seq<char>,
    req: crate::ast::SpecRequest,
) -> Option<Seq<char>> {
    let request_name = "xcb_"@ + prefix + convert_name_spec(req.name);
    let opcode_line = "    pub const "@ + crate::strutil::upper_chars(request_name) + ": u32 = "@
        + dec_str(req.opcode as int) + ";\n"@;
    match spec_request_struct_body(ast, m, req.fields) {
        None => None,
        Some(body) => {
            let struct_text = "    #[repr(C)]\n    #[derive(Copy, Clone)]\n    pub struct "@
                + request_name + "_request_t {\n"@ + body + "    }\n"@;
            let reply_cookie = match req.reply {
                Some(rf) => match spec_reply_body(ast, m, rf) {
                    None => None,
                    Some(rb) => Some(spec_reply_cookie_text(request_name, rb)),
                },
                None => Some(Seq::empty()),
            };
            match reply_cookie {
                None => None,
                Some(rc) => match spec_request_args(ast, m, req.fields) {
                    None => None,
                    Some(args0) => Some(
                        opcode_line + struct_text + rc + spec_request_calls(
                            request_name,
                            req.reply is Some,
                            "            c: *mut xcb_connection_t,\n"@ + args0,
                        ),
                    ),
                },
            }
        },
    }
}

/// The whole requests section, in description order.
pub open spec fn spec_gen_requests(
    ast: SpecAst,
    m: SpecModule,
    prefix: Seq<char>,
    requests: Seq<crate::ast::SpecRequest>,
) -> Option<Seq<char>>
    decreases requests.len(),
{
    if requests.len() == 0 {
        Some(Seq::empty())
    } else {
        match spec_gen_request(ast, m, prefix, requests[0]) {
            None => None,
            Some(t) => match spec_gen_requests(ast, m, prefix, requests.drop_first()) {
                None => None,
                Some(rest) => Some(t + rest),
            },
        }
    }
}

fn gen_request_args(args: &mut String, module: &Module, ast: &Ast, fields: &[Field]) -> (r: Result<
    (),
    GenError,
>)
    ensures
        match r {
            Ok(_) => match spec_request_args(
                ast.deep_view(),
                module.deep_view(),
                fields.deep_view(),
            ) {
                Some(t) => final(args)@ == old(args)@ + t,
                None => false,
            },
            Err(_) => spec_request_args(ast.deep_view(), module.deep_view(), fields.deep_view())
                is None,
        },
{
    let ghost av = ast.deep_view();
    let ghost mv = module.deep_view();
    let ghost fv = fields.deep_view();
    let ghost out0 = args@;
    let ghost mut done: Seq<char> = Seq::empty();
    proof {
        assert(fv.skip(0) =~= fv);
        assert(args@ =~= out0 + done);
    }
    let mut i: usize = 0;
    while i < fields.len()
        invariant
            i <= fields.len(),
            av == ast.deep_view(),
            mv == module.deep_view(),
            fv == fields.deep_view(),
            fv.len() == fields.len(),
            args@ == out0 + done,
            spec_request_args(av, mv, fv) == match spec_request_args(av, mv, fv.skip(i as int)) {
                Some(rest) => Some(done + rest),
                None => None::<Seq<char>>,
            },
        decreases fields.len() - i,
    {
        proof {
            assert(fv.skip(i as int)[0] == fv[i as int]);
            assert(fv[i as int] == fields@[i as int].deep_view());
            assert(fv.skip(i as int).drop_first() =~= fv.skip(i as int + 1));
        }
        let ghost pre = args@;
        match &fields[i].type_ {
            crate::ast::FieldType::Name(t) => {
                match ast.resolve_type_name(module, t.as_str()) {
                    Ok(rt) => {
                        args.append("            ");
                        args.append(fields[i].name.as_str());
                        args.append(": ");
                        args.append(rt.as_str());
                        args.append(",\n");
                        proof {
                            let piece = "            "@ + fv[i as int].name + ": "@ + rt@ + ",\n"@;
                            assert(args@ =~= pre + piece);
                            done = done + piece;
                        }
                    },
                    Err(e) => {
                        return Err(e);
                    },
                }
            },
            crate::ast::FieldType::List(t, l) => {
                match ast.resolve_type_name(module, t.as_str()) {
                    Ok(rt) => {
                        let is_absent = match l {
                            crate::ast::Length::Absent => true,
                            _ => false,
                        };
                        if is_absent {
                            args.append("            ");
                            args.append(fields[i].name.as_str());
                            args.append("_len: u32,\n");
                        }
                        args.append("            ");
                        args.append(fields[i].name.as_str());
                        args.append(": *const ");
                        args.append(rt.as_str());
                        args.append(",\n");
                        proof {
                            let piece = (if fv[i as int].ty->List_1 is Absent {
                                "            "@ + fv[i as int].name + "_len: u32,\n"@
                            } else {
                                Seq::<char>::empty()
                            }) + "            "@ + fv[i as int].name + ": *const "@ + rt@ + ",\n"@;
                            assert(args@ =~= pre + piece);
                            done = done + piece;
                        }
                    },
                    Err(e) => {
                        return Err(e);
                    },
                }
            },
            crate::ast::FieldType::Switch => {
                args.append("            ");
                args.append(fields[i].name.as_str());
                args.append(": *const c_void,\n");
                proof {
                    let piece = "            "@ + fv[i as int].name + ": *const c_void,\n"@;
                    assert(args@ =~= pre + piece);
                    done = done + piece;
                }
            },
            crate::ast::FieldType::Fd => {
                args.append("            ");
                args.append(fields[i].name.as_str());
                args.append(": i32,\n");
                proof {
                    let piece = "            "@ + fv[i as int].name + ": i32,\n"@;
                    assert(args@ =~= pre + piece);
                    done = done + piece;
                }
            },
            crate::ast::FieldType::Padding(_) => {},
        }
        i = i + 1;
    }
    proof {
        assert(fv.skip(fields.len() as int) =~= Seq::<SpecField>::empty());
    }
    Ok(())
}

/// Emits the members of a request structure.
fn gen_request_struct_body(
    w: &mut String,
    ast: &Ast,
    m: &Module,
    fields: &Vec<Field>,
) -> (r: Result<(), GenError>)
    ensures
        match r {
            Ok(_) => match spec_request_struct_body(
                ast.deep_view(),
                m.deep_view(),
                fields.deep_view(),
            ) {
                Some(t) => final(w)@ == old(w)@ + t,
                None => false,
            },
            Err(_) => spec_request_struct_body(
                ast.deep_view(),
                m.deep_view(),
                fields.deep_view(),
            ) is None,
        },
{
    let ghost av = ast.deep_view();
    let ghost mv = m.deep_view();
    let ghost fv = fields.deep_view();
    let is_ext = match &m.extension_name {
        Some(_) => true,
        None => false,
    };
    if is_ext {
        w.append(
            "        pub major_opcode: u8,\n        pub minor_opcode: u8,\n        pub length: u16,\n",
        );
        match gen_fields(w, m, ast, fields.as_slice()) {
            Ok(_) => Ok(()),
            Err(e) => Err(e),
        }
    } else {
        w.append("        pub major_opcode: u8,\n");
        if fields.len() >= 1 {
            let first = vstd::slice::slice_subrange(fields.as_slice(), 0, 1);
            proof {
                assert(first.deep_view() =~= fv.take(1));
            }
            match gen_fields(w, m, ast, first) {
                Ok(_) => {},
                Err(e) => {
                    return Err(e);
                },
            }
        } else {
            w.append("        pub pad0: [u8; 1],\n");
        }
        w.append("        pub length: u16,\n");
        if fields.len() >= 1 {
            let rest = vstd::slice::slice_subrange(fields.as_slice(), 1, fields.len());
            proof {
                assert(rest.deep_view() =~= fv.skip(1));
            }
            match gen_fields(w, m, ast, rest) {
                Ok(_) => {},
                Err(e) => {
                    return Err(e);
                },
            }
        }
        Ok(())
    }
}

/// Emits the members of a reply structure.
fn gen_reply_fields(w: &mut String, ast: &Ast, m: &Module, fields: &Vec<Field>) -> (r: Result<
    (),
    GenError,
>)
    ensures
        match r {
            Ok(_) => match spec_reply_body(ast.deep_view(), m.deep_view(), fields.deep_view()) {
                Some(t) => final(w)@ == old(w)@ + t,
                None => false,
            },
            Err(_) => spec_reply_body(ast.deep_view(), m.deep_view(), fields.deep_view()) is None,
        },
{
    let ghost av = ast.deep_view();
    let ghost mv = m.deep_view();
    let ghost fv = fields.deep_view();
    w.append("        pub response_type: u8,\n");
    if fields.len() >= 1 {
        let first = vstd::slice::slice_subrange(fields.as_slice(), 0, 1);
        proof {
            assert(first.deep_view() =~= fv.take(1));
        }
        match gen_fields(w, m, ast, first) {
            Ok(_) => {},
            Err(e) => {
                return Err(e);
            },
        }
    } else {
        w.append("        pub pad0: [u8; 1],\n");
    }
    w.append("        pub sequence: u16,\n        pub length: u32,\n");
    if fields.len() >= 1 {
        let rest = vstd::slice::slice_subrange(fields.as_slice(), 1, fields.len());
        proof {
            assert(rest.deep_view() =~= fv.skip(1));
        }
        match gen_fields(w, m, ast, rest) {
            Ok(_) => {},
            Err(e) => {
                return Err(e);
            },
        }
    }
    Ok(())
}

/// Emits the checked and unchecked transport calls of one request, and
/// the reply fetch when a reply exists.
#[verifier::rlimit(100)]
#[verifier::spinoff_prover]
fn gen_request_calls(w: &mut String, request_name: &str, has_reply: bool, args: &str)
    ensures
        final(w)@ == old(w)@ + spec_request_calls(request_name@, has_reply, args@),
{
    w.append("    extern \"C\" {\n");
    w.append("        pub fn ");
    w.append(request_name);
    if !has_reply {
        w.append("_checked");
    }
    w.append("(\n");
    w.append(args);
    w.append("        ) -> ");
    if has_reply {
        w.append(request_name);
    } else {
        w.append("xcb_void");
    }
    w.append("_cookie_t;\n");
    w.append("        pub fn ");
    w.append(request_name);
    if has_reply {
        w.append("_unchecked");
    }
    w.append("(\n");
    w.append(args);
    w.append("        ) -> ");
    if has_reply {
        w.append(request_name);
    } else {
        w.append("xcb_void");
    }
    w.append("_cookie_t;\n");
    if has_reply {
        w.append("        pub fn ");
        w.append(request_name);
        w.append("_reply(\n            c: *mut xcb_connection_t,\n            cookie: ");
        w.append(request_name);
        w.append("_cookie_t,\n            e: *mut *mut xcb_generic_error_t,\n        ) -> *mut ");
        w.append(request_name);
        w.append("_reply_t;\n");
    }
    w.append("    }\n");
    proof {
        if has_reply {
            assert(w@ =~= old(w)@ + spec_request_calls(request_name@, has_reply, args@));
        } else {
            assert(w@ =~= old(w)@ + spec_request_calls(request_name@, has_reply, args@));
        }
    }
}

/// Emits everything one request contributes.
#[verifier::rlimit(100)]
#[verifier::spinoff_prover]
fn gen_request(
    w: &mut String,
    ast: &Ast,
    m: &Module,
    prefix: &str,
    req: &crate::ast::Request,
) -> (r: Result<(), GenError>)
    ensures
        match r {
            Ok(_) => match spec_gen_request(ast.deep_view(), m.deep_view(), prefix@, req.deep_view()) {
                Some(txt) => final(w)@ == old(w)@ + txt,
                None => false,
            },
            Err(_) => spec_gen_request(ast.deep_view(), m.deep_view(), prefix@, req.deep_view())
                is None,
        },
{
    let ghost av = ast.deep_view();
    let ghost mv = m.deep_view();
    let ghost rv = req.deep_view();
    let ghost out0 = w@;
    let cn = crate::names::convert_name(req.name.as_str());
    let mut request_name = String::from_str("xcb_");
    request_name.append(prefix);
    request_name.append(cn.as_str());
    let ghost rn = "xcb_"@ + prefix@ + convert_name_spec(rv.name);
    proof {
        assert(request_name@ =~= rn);
    }
    let upper = crate::strutil::ascii_upper(request_name.as_str());
    w.append("    pub const ");
    w.append(upper.as_str());
    w.append(": u32 = ");
    let digits = fmt_u32(req.opcode);
    w.append(digits.as_str());
    w.append(";\n");
    let ghost opcode_line = "    pub const "@ + crate::strutil::upper_chars(rn) + ": u32 = "@
        + dec_str(rv.opcode as int) + ";\n"@;
    proof {
        assert(w@ =~= out0 + opcode_line);
    }
    w.append("    #[repr(C)]\n    #[derive(Copy, Clone)]\n    pub struct ");
    w.append(request_name.as_str());
    w.append("_request_t {\n");
    match gen_request_struct_body(w, ast, m, &req.fields) {
        Ok(_) => {},
        Err(e) => {
            return Err(e);
        },
    }
    w.append("    }\n");
    let ghost struct_text = "    #[repr(C)]\n    #[derive(Copy, Clone)]\n    pub struct "@ + rn
        + "_request_t {\n"@ + spec_request_struct_body(av, mv, rv.fields).unwrap() + "    }\n"@;
    proof {
        assert(w@ =~= out0 + opcode_line + struct_text);
    }
    let has_reply = match &req.reply {
        Some(_) => true,
        None => false,
    };
    match &req.reply {
        Some(reply) => {
            w.append("    #[repr(C)]\n    #[derive(Copy, Clone)]\n    pub struct ");
            w.append(request_name.as_str());
            w.append("_reply_t {\n");
            match gen_reply_fields(w, ast, m, &reply.fields) {
                Ok(_) => {},
                Err(e) => {
                    return Err(e);
                },
            }
            w.append("    }\n");
            w.append("    #[repr(C)]\n    #[derive(Copy, Clone)]\n    pub struct ");
            w.append(request_name.as_str());
            w.append("_cookie_t {\n        pub sequence: c_uint,\n    }\n");
        },
        None => {},
    }
    let ghost rc: Seq<char> = if rv.reply is Some {
        spec_reply_cookie_text(rn, spec_reply_body(av, mv, rv.reply.unwrap()).unwrap())
    } else {
        Seq::empty()
    };
    proof {
        assert(w@ =~= out0 + opcode_line + struct_text + rc);
    }
    let mut args = String::from_str("            c: *mut xcb_connection_t,\n");
    match gen_request_args(&mut args, m, ast, req.fields.as_slice()) {
        Ok(_) => {},
        Err(e) => {
            return Err(e);
        },
    }
    let ghost argsv = "            c: *mut xcb_connection_t,\n"@ + spec_request_args(
        av,
        mv,
        rv.fields,
    ).unwrap();
    proof {
        assert(args@ =~= argsv);
    }
    gen_request_calls(w, request_name.as_str(), has_reply, args.as_str());
    proof {
        assert(w@ =~= out0 + (opcode_line + struct_text + rc + spec_request_calls(
            rn,
            rv.reply is Some,
            argsv,
        )));
    }
    Ok(())
}

/// Emits the whole requests section, in description order.
fn gen_requests(w: &mut String, ast: &Ast, m: &Module, prefix: &str) -> (r: Result<(), GenError>)
    ensures
        match r {
            Ok(_) => match spec_gen_requests(
                ast.deep_view(),
                m.deep_view(),
                prefix@,
                m.deep_view().requests,
            ) {
                Some(txt) => final(w)@ == old(w)@ + txt,
                None => false,
            },
            Err(_) => spec_gen_requests(
                ast.deep_view(),
                m.deep_view(),
                prefix@,
                m.deep_view().requests,
            ) is None,
        },
{
    let ghost av = ast.deep_view();
    let ghost mv = m.deep_view();
    let ghost qv = mv.requests;
    let ghost out0 = w@;
    let ghost mut done: Seq<char> = Seq::empty();
    proof {
        assert(qv.skip(0) =~= qv);
        assert(w@ =~= out0 + done);
    }
    let mut i: usize = 0;
    while i < m.requests.len()
        invariant
            i <= m.requests.len(),
            av == ast.deep_view(),
            mv == m.deep_view(),
            qv == mv.requests,
            qv.len() == m.requests.len(),
            w@ == out0 + done,
            spec_gen_requests(av, mv, prefix@, qv) == match spec_gen_requests(
                av,
                mv,
                prefix@,
                qv.skip(i as int),
            ) {
                Some(rest) => Some(done + rest),
                None => None::<Seq<char>>,
            },
        decreases m.requests.len() - i,
    {
        proof {
            assert(qv.skip(i as int)[0] == qv[i as int]);
            assert(qv[i as int] == m.requests@[i as int].deep_view());
            assert(qv.skip(i as int).drop_first() =~= qv.skip(i as int + 1));
        }
        match gen_request(w, ast, m, prefix, &m.requests[i]) {
            Ok(_) => {
                proof {
                    done = done + spec_gen_request(av, mv, prefix@, qv[i as int]).unwrap();
                }
            },
            Err(e) => {
                return Err(e);
            },
        }
        i = i + 1;
    }
    proof {
        assert(qv.skip(m.requests.len() as int) =~= Seq::<crate::ast::SpecRequest>::empty());
    }
    Ok(())
}

// ---------------------------------------------------------------------------
// Events and errors.

/// The number of type declarations across the whole module set; layout
/// recursion can never need more steps than this on an acyclic set, so it
/// serves as the layout fuel (saturated to the machine word).
pub open spec fn spec_total_types(modules: Seq<(Seq<char>, SpecModule)>) -> int
    decreases modules.len(),
{
    if modules.len() == 0 {
        0
    } else {
        spec_total_types(modules.drop_last()) + modules.last().1.types.len()
    }
}

pub open spec fn spec_layout_fuel(ast: SpecAst) -> int {
    if spec_total_types(ast.modules) + 1 <= usize::MAX {
        spec_total_types(ast.modules) + 1
    } else {
        usize::MAX as int
    }
}

pub fn layout_fuel(ast: &Ast) -> (r: usize)
    ensures
        r as int == spec_layout_fuel(ast.deep_view()),
{
    let ghost mv = ast.deep_view().modules;
    let mut total: usize = 1;
    let mut i: usize = 0;
    proof {
        assert(mv.take(0) =~= Seq::<(Seq<char>, SpecModule)>::empty());
    }
    while i < ast.modules.len()
        invariant
            i <= ast.modules.len(),
            mv == ast.deep_view().modules,
            mv.len() == ast.modules.len(),
            total as int == if spec_total_types(mv.take(i as int)) + 1 <= usize::MAX {
                spec_total_types(mv.take(i as int)) + 1
            } else {
                usize::MAX as int
            },
        decreases ast.modules.len() - i,
    {
        proof {
            assert(mv[i as int] == ast.modules@[i as int].deep_view());
            assert(mv.take(i + 1).drop_last() =~= mv.take(i as int));
            assert(mv.take(i + 1).last() == mv[i as int]);
            assert(spec_total_types(mv.take(i as int)) >= 0) by {
                lemma_total_types_nonneg(mv.take(i as int));
            }
        }
        total = total.saturating_add(ast.modules[i].1.types.len());
        i = i + 1;
    }
    proof {
        assert(mv.take(ast.modules.len() as int) =~= mv);
    }
    total
}

proof fn lemma_total_types_nonneg(modules: Seq<(Seq<char>, SpecModule)>)
    ensures
        spec_total_types(modules) >= 0,
    decreases modules.len(),
{
    if modules.len() > 0 {
        lemma_total_types_nonneg(modules.drop_last());
    }
}

/// The generic-event packing walk: a running byte offset starts at the
/// ten-byte sub-header; the insertion point for `full_sequence` is set
/// just after the field at which the offset first reaches 32, and the
/// largest field alignment is carried along.
pub open spec fn spec_event_layout_from(
    ast: SpecAst,
    m: SpecModule,
    fields: Seq<SpecField>,
    index: int,
    offset: int,
    fsi: Option<int>,
    align: u32,
) -> Option<(Option<int>, u32)>
    decreases fields.len(),
{
    if fields.len() == 0 {
        Some((fsi, align))
    } else {
        match crate::ast::spec_field_size_align(ast, m, fields[0].ty, spec_layout_fuel(ast)) {
            None => None,
            Some(p) => if offset + p.0 > u32::MAX {
                None
            } else {
                spec_event_layout_from(
                    ast,
                    m,
                    fields.drop_first(),
                    index + 1,
                    offset + p.0,
                    if offset + p.0 == 32 && fsi is None {
                        Some(index + 1)
                    } else {
                        fsi
                    },
                    if p.1 > align {
                        p.1
                    } else {
                        align
                    },
                )
            },
        }
    }
}

pub open spec fn spec_event_layout(ast: SpecAst, m: SpecModule, fields: Seq<SpecField>) -> Option<
    (Option<int>, u32),
> {
    spec_event_layout_from(ast, m, fields, 0, 10, None, 0)
}

/// The members of a direct event body: a generic event carries the
/// five-part extended header and, when an insertion point was found, the
/// `full_sequence` word spliced in at it; a plain event with a sequence
/// number takes its first field (or an implicit pad) between the response
/// byte and the sequence half-word.
pub open spec fn spec_event_body(
    ast: SpecAst,
    m: SpecModule,
    xge: bool,
    sequence: bool,
    fields: Seq<SpecField>,
    fsi: Option<int>,
) -> Option<Seq<char>> {
    if xge {
        let hdr =
            "        pub response_type: u8,\n        pub extension: u8,\n        pub sequence: u16,\n        pub length: u32,\n        pub event_type: u16,\n"@;
        match fsi {
            Some(k) => match (spec_gen_fields(ast, m, fields.take(k)), spec_gen_fields(
                ast,
                m,
                fields.skip(k),
            )) {
                (Some(a), Some(b)) => Some(hdr + a + "        pub full_sequence: u32,\n"@ + b),
                _ => None,
            },
            None => match spec_gen_fields(ast, m, fields) {
                Some(a) => Some(hdr + a),
                None => None,
            },
        }
    } else if sequence {
        let first_part = if fields.len() >= 1 {
            spec_gen_fields(ast, m, fields.take(1))
        } else {
            Some("        pub pad0: [u8; 1],\n"@)
        };
        let rest_part = if fields.len() >= 1 {
            spec_gen_fields(ast, m, fields.skip(1))
        } else {
            Some(Seq::empty())
        };
        match (first_part, rest_part) {
            (Some(a), Some(b)) => Some(
                "        pub response_type: u8,\n"@ + a + "        pub sequence: u16,\n"@ + b,
            ),
            _ => None,
        }
    } else {
        match spec_gen_fields(ast, m, fields) {
            Some(a) => Some("        pub response_type: u8,\n"@ + a),
            None => None,
        }
    }
}

/// Everything one event emits: its number constant and either its direct
/// structure — packed exactly when an insertion point was found and the
/// largest field alignment is 8 or more — or, for a copy, a type alias to
/// the referenced event's canonical structure name.
pub open spec fn spec_gen_event(
    ast: SpecAst,
    m: SpecModule,
    prefix: Seq<char>,
    e: crate::ast::SpecEvent,
) -> Option<Seq<char>> {
    let event_name = "xcb_"@ + prefix + convert_name_spec(e.name);
    let number_line = "    pub const "@ + crate::strutil::upper_chars(event_name) + ": u32 = "@
        + dec_str(e.number as int) + ";\n"@;
    match e.inner {
        crate::ast::SpecEventInner::Event { xge, sequence, fields } => {
            let layout = if xge {
                spec_event_layout(ast, m, fields)
            } else {
                Some((None::<int>, 0u32))
            };
            match layout {
                None => None,
                Some((fsi, align)) => {
                    let repr = if fsi is Some && align >= 8 {
                        "    #[repr(C, packed)]\n"@
                    } else {
                        "    #[repr(C)]\n"@
                    };
                    match spec_event_body(ast, m, xge, sequence, fields, fsi) {
                        None => None,
                        Some(b) => Some(
                            number_line + repr + "    #[derive(Copy, Clone)]\n    pub struct "@
                                + event_name + "_event_t {\n"@ + b + "    }\n"@,
                        ),
                    }
                },
            }
        },
        crate::ast::SpecEventInner::Copy(rf) => match crate::ast::spec_find_event_module(
            ast,
            m,
            rf,
            ast.modules.len() as int,
        ) {
            Some(rm) => Some(
                number_line + "    pub type "@ + event_name + "_event_t = "@ + ("xcb_"@
                    + crate::ast::spec_prefix(rm) + convert_name_spec(rf) + "_event_t"@) + ";\n"@,
            ),
            None => None,
        },
    }
}

pub open spec fn spec_gen_events(
    ast: SpecAst,
    m: SpecModule,
    prefix: Seq<char>,
    events: Seq<crate::ast::SpecEvent>,
) -> Option<Seq<char>>
    decreases events.len(),
{
    if events.len() == 0 {
        Some(Seq::empty())
    } else {
        match spec_gen_event(ast, m, prefix, events[0]) {
            None => None,
            Some(t) => match spec_gen_events(ast, m, prefix, events.drop_first()) {
                None => None,
                Some(rest) => Some(t + rest),
            },
        }
    }
}

/// Everything one error emits: its number constant and either its direct
/// structure — whose positional `bad_value`, `minor_opcode` and
/// `major_opcode` header fields back off as the error supplies its own
/// leading fields — or, for a copy, a type alias to the referenced
/// error's canonical structure name.
pub open spec fn spec_gen_error(
    ast: SpecAst,
    m: SpecModule,
    prefix: Seq<char>,
    er: crate::ast::SpecErr,
) -> Option<Seq<char>> {
    let error_name = "xcb_"@ + prefix + convert_name_spec(er.name);
    let number_line = "    pub const "@ + crate::strutil::upper_chars(error_name) + ": u32 = "@
        + dec_str(er.number as int) + ";\n"@;
    match er.inner {
        crate::ast::SpecErrInner::Error(fields) => match spec_gen_fields(ast, m, fields) {
            Some(b) => Some(
                number_line + "    #[repr(C)]\n    #[derive(Copy, Clone)]\n    pub struct "@
                    + error_name + "_error_t {\n"@
                    + "        pub response_type: u8,\n        pub error_code: u8,\n        pub sequence: u16,\n"@
                    + (if fields.len() < 1 {
                    "        pub bad_value: u32,\n"@
                } else {
                    Seq::<char>::empty()
                }) + (if fields.len() < 2 {
                    "        pub minor_opcode: u16,\n"@
                } else {
                    Seq::<char>::empty()
                }) + (if fields.len() < 3 {
                    "        pub major_opcode: u8,\n"@
                } else {
                    Seq::<char>::empty()
                }) + b + "    }\n"@,
            ),
            None => None,
        },
        crate::ast::SpecErrInner::Copy(rf) => match crate::ast::spec_find_error_module(
            ast,
            m,
            rf,
            ast.modules.len() as int,
        ) {
            Some(rm) => Some(
                number_line + "    pub type "@ + error_name + "_error_t = "@ + ("xcb_"@
                    + crate::ast::spec_prefix(rm) + convert_name_spec(rf) + "_error_t"@) + ";\n"@,
            ),
            None => None,
        },
    }
}

pub open spec fn spec_gen_errors(
    ast: SpecAst,
    m: SpecModule,
    prefix: Seq<char>,
    errors: Seq<crate::ast::SpecErr>,
) -> Option<Seq<char>>
    decreases errors.len(),
{
    if errors.len() == 0 {
        Some(Seq::empty())
    } else {
        match spec_gen_error(ast, m, prefix, errors[0]) {
            None => None,
            Some(t) => match spec_gen_errors(ast, m, prefix, errors.drop_first()) {
                None => None,
                Some(rest) => Some(t + rest),
            },
        }
    }
}

fn compute_event_layout(ast: &Ast, m: &Module, fields: &Vec<Field>) -> (r: Option<
    (Option<usize>, u32),
>)
    ensures
        match r {
            Some(l) => spec_event_layout(ast.deep_view(), m.deep_view(), fields.deep_view())
                == Some(
                (
                    match l.0 {
                        Some(k) => Some(k as int),
                        None => None,
                    },
                    l.1,
                ),
            ) && (l.0 is Some ==> l.0.unwrap() <= fields.len()),
            None => spec_event_layout(ast.deep_view(), m.deep_view(), fields.deep_view()) is None,
        },
{
    let ghost av = ast.deep_view();
    let ghost mv = m.deep_view();
    let ghost fv = fields.deep_view();
    let fuel = layout_fuel(ast);
    let mut offset: u32 = 10;
    let mut fsi: Option<usize> = None;
    let mut align: u32 = 0;
    let mut i: usize = 0;
    proof {
        assert(fv.skip(0) =~= fv);
    }
    while i < fields.len()
        invariant
            i <= fields.len(),
            av == ast.deep_view(),
            mv == m.deep_view(),
            fv == fields.deep_view(),
            fv.len() == fields.len(),
            fuel as int == spec_layout_fuel(av),
            fsi is Some ==> fsi.unwrap() <= i,
            spec_event_layout(av, mv, fv) == spec_event_layout_from(
                av,
                mv,
                fv.skip(i as int),
                i as int,
                offset as int,
                match fsi {
                    Some(k) => Some(k as int),
                    None => None,
                },
                align,
            ),
        decreases fields.len() - i,
    {
        proof {
            assert(fv.skip(i as int)[0] == fv[i as int]);
            assert(fv[i as int] == fields@[i as int].deep_view());
            assert(fv.skip(i as int).drop_first() =~= fv.skip(i as int + 1));
        }
        match ast.get_field_size_align(m, &fields[i].type_, fuel) {
            Some(p) => {
                match offset.checked_add(p.0) {
                    Some(off2) => {
                        if off2 == 32 && fsi.is_none() {
                            fsi = Some(i + 1);
                        }
                        offset = off2;
                        align = if p.1 > align {
                            p.1
                        } else {
                            align
                        };
                    },
                    None => {
                        return None;
                    },
                }
            },
            None => {
                return None;
            },
        }
        i = i + 1;
    }
    proof {
        assert(fv.skip(fields.len() as int) =~= Seq::<SpecField>::empty());
    }
    Some((fsi, align))
}

/// Emits the members of one direct event body.
#[verifier::rlimit(100)]
#[verifier::spinoff_prover]
fn gen_event_body(
    w: &mut String,
    ast: &Ast,
    m: &Module,
    xge: bool,
    sequence: bool,
    fields: &Vec<Field>,
    fsi: Option<usize>,
) -> (r: Result<(), GenError>)
    requires
        fsi is Some ==> fsi.unwrap() <= fields@.len(),
    ensures
        match r {
            Ok(_) => match spec_event_body(
                ast.deep_view(),
                m.deep_view(),
                xge,
                sequence,
                fields.deep_view(),
                match fsi {
                    Some(k) => Some(k as int),
                    None => None,
                },
            ) {
                Some(t) => final(w)@ == old(w)@ + t,
                None => false,
            },
            Err(_) => spec_event_body(
                ast.deep_view(),
                m.deep_view(),
                xge,
                sequence,
                fields.deep_view(),
                match fsi {
                    Some(k) => Some(k as int),
                    None => None,
                },
            ) is None,
        },
{
    let ghost av = ast.deep_view();
    let ghost mv = m.deep_view();
    if xge {
        w.append(
            "        pub response_type: u8,\n        pub extension: u8,\n        pub sequence: u16,\n        pub length: u32,\n        pub event_type: u16,\n",
        );
        match fsi {
            Some(k) => {
                let first = vstd::slice::slice_subrange(fields.as_slice(), 0, k);
                proof {
                    assert(first.deep_view() =~= fields.deep_view().take(k as int));
                }
                match gen_fields(w, m, ast, first) {
                    Ok(_) => {},
                    Err(e2) => {
                        return Err(e2);
                    },
                }
                w.append("        pub full_sequence: u32,\n");
                let rest = vstd::slice::slice_subrange(fields.as_slice(), k, fields.len());
                proof {
                    assert(rest.deep_view() =~= fields.deep_view().skip(k as int));
                }
                match gen_fields(w, m, ast, rest) {
                    Ok(_) => {},
                    Err(e2) => {
                        return Err(e2);
                    },
                }
            },
            None => {
                match gen_fields(w, m, ast, fields.as_slice()) {
                    Ok(_) => {},
                    Err(e2) => {
                        return Err(e2);
                    },
                }
            },
        }
    } else {
        w.append("        pub response_type: u8,\n");
        if sequence {
            if fields.len() >= 1 {
                let first = vstd::slice::slice_subrange(fields.as_slice(), 0, 1);
                proof {
                    assert(first.deep_view() =~= fields.deep_view().take(1));
                }
                match gen_fields(w, m, ast, first) {
                    Ok(_) => {},
                    Err(e2) => {
                        return Err(e2);
                    },
                }
            } else {
                w.append("        pub pad0: [u8; 1],\n");
            }
            w.append("        pub sequence: u16,\n");
            if fields.len() >= 1 {
                let rest = vstd::slice::slice_subrange(fields.as_slice(), 1, fields.len());
                proof {
                    assert(rest.deep_view() =~= fields.deep_view().skip(1));
                }
                match gen_fields(w, m, ast, rest) {
                    Ok(_) => {},
                    Err(e2) => {
                        return Err(e2);
                    },
                }
            }
        } else {
            match gen_fields(w, m, ast, fields.as_slice()) {
                Ok(_) => {},
                Err(e2) => {
                    return Err(e2);
                },
            }
        }
    }

    Ok(())
}

/// Emits everything one event contributes.
#[verifier::rlimit(100)]
#[verifier::spinoff_prover]
fn gen_event(
    w: &mut String,
    ast: &Ast,
    m: &Module,
    prefix: &str,
    e: &crate::ast::Event,
) -> (r: Result<(), GenError>)
    ensures
        match r {
            Ok(_) => match spec_gen_event(ast.deep_view(), m.deep_view(), prefix@, e.deep_view()) {
                Some(txt) => final(w)@ == old(w)@ + txt,
                None => false,
            },
            Err(_) => spec_gen_event(ast.deep_view(), m.deep_view(), prefix@, e.deep_view())
                is None,
        },
{
    let ghost av = ast.deep_view();
    let ghost mv = m.deep_view();
    let ghost evv = e.deep_view();
    let ghost out0 = w@;
    let cn = crate::names::convert_name(e.name.as_str());
    let mut event_name = String::from_str("xcb_");
    event_name.append(prefix);
    event_name.append(cn.as_str());
    let ghost en = "xcb_"@ + prefix@ + convert_name_spec(evv.name);
    proof {
        assert(event_name@ =~= en);
    }
    let upper = crate::strutil::ascii_upper(event_name.as_str());
    w.append("    pub const ");
    w.append(upper.as_str());
    w.append(": u32 = ");
    let digits = fmt_u32(e.number);
    w.append(digits.as_str());
    w.append(";\n");
    let ghost number_line = "    pub const "@ + crate::strutil::upper_chars(en) + ": u32 = "@
        + dec_str(evv.number as int) + ";\n"@;
    proof {
        assert(w@ =~= out0 + number_line);
    }
    match &e.inner {
        crate::ast::EventInner::Event { xge, sequence, fields } => {
            let fsi: Option<usize>;
            let align: u32;
            if *xge {
                match compute_event_layout(ast, m, fields) {
                    Some(l) => {
                        fsi = l.0;
                        align = l.1;
                    },
                    None => {
                        return Err(GenError::UnsizedType { name: e.name.clone() });
                    },
                }
            } else {
                fsi = None;
                align = 0;
            }
            if fsi.is_some() && align >= 8 {
                w.append("    #[repr(C, packed)]\n");
            } else {
                w.append("    #[repr(C)]\n");
            }
            w.append("    #[derive(Copy, Clone)]\n    pub struct ");
            w.append(event_name.as_str());
            w.append("_event_t {\n");
            let ghost bhead = w@;
            match gen_event_body(w, ast, m, *xge, *sequence, fields, fsi) {
                Ok(_) => {},
                Err(e2) => {
                    return Err(e2);
                },
            }
            let ghost sfsi: Option<int> = match fsi {
                Some(k) => Some(k as int),
                None => None,
            };
            proof {
                assert(w@ =~= bhead + spec_event_body(
                    av,
                    mv,
                    evv.inner->Event_xge,
                    evv.inner->Event_sequence,
                    evv.inner->Event_fields,
                    sfsi,
                ).unwrap());
            }
            w.append("    }\n");
            proof {
                let repr: Seq<char> = if sfsi is Some && align >= 8 {
                    "    #[repr(C, packed)]\n"@
                } else {
                    "    #[repr(C)]\n"@
                };
                let b = spec_event_body(
                    av,
                    mv,
                    evv.inner->Event_xge,
                    evv.inner->Event_sequence,
                    evv.inner->Event_fields,
                    sfsi,
                ).unwrap();
                assert(w@ =~= out0 + (number_line + repr
                    + "    #[derive(Copy, Clone)]\n    pub struct "@ + en + "_event_t {\n"@ + b
                    + "    }\n"@));
            }
            Ok(())
        },
        crate::ast::EventInner::Copy { ref_ } => {
            match ast.find_module_for_event(m, ref_.as_str(), ast.modules.len()) {
                Some(rm) => {
                    let rp = crate::ast::module_prefix(rm);
                    let rcn = crate::names::convert_name(ref_.as_str());
                    let mut ref_name = String::from_str("xcb_");
                    ref_name.append(rp.as_str());
                    ref_name.append(rcn.as_str());
                    ref_name.append("_event_t");
                    w.append("    pub type ");
                    w.append(event_name.as_str());
                    w.append("_event_t = ");
                    w.append(ref_name.as_str());
                    w.append(";\n");
                    proof {
                        assert(ref_name@ =~= "xcb_"@ + crate::ast::spec_prefix(rm.deep_view())
                            + convert_name_spec(evv.inner->Copy_0) + "_event_t"@);
                        assert(w@ =~= out0 + (number_line + "    pub type "@ + en
                            + "_event_t = "@ + ref_name@ + ";\n"@));
                    }
                    Ok(())
                },
                None => Err(GenError::UnresolvedEvent { name: ref_.clone() }),
            }
        },
    }
}

fn gen_events(w: &mut String, ast: &Ast, m: &Module, prefix: &str) -> (r: Result<(), GenError>)
    ensures
        match r {
            Ok(_) => match spec_gen_events(
                ast.deep_view(),
                m.deep_view(),
                prefix@,
                m.deep_view().events,
            ) {
                Some(txt) => final(w)@ == old(w)@ + txt,
                None => false,
            },
            Err(_) => spec_gen_events(
                ast.deep_view(),
                m.deep_view(),
                prefix@,
                m.deep_view().events,
            ) is None,
        },
{
    let ghost av = ast.deep_view();
    let ghost mv = m.deep_view();
    let ghost ev = mv.events;
    let ghost out0 = w@;
    let ghost mut done: Seq<char> = Seq::empty();
    proof {
        assert(ev.skip(0) =~= ev);
        assert(w@ =~= out0 + done);
    }
    let mut i: usize = 0;
    while i < m.events.len()
        invariant
            i <= m.events.len(),
            av == ast.deep_view(),
            mv == m.deep_view(),
            ev == mv.events,
            ev.len() == m.events.len(),
            w@ == out0 + done,
            spec_gen_events(av, mv, prefix@, ev) == match spec_gen_events(
                av,
                mv,
                prefix@,
                ev.skip(i as int),
            ) {
                Some(rest) => Some(done + rest),
                None => None::<Seq<char>>,
            },
        decreases m.events.len() - i,
    {
        proof {
            assert(ev.skip(i as int)[0] == ev[i as int]);
            assert(ev[i as int] == m.events@[i as int].deep_view());
            assert(ev.skip(i as int).drop_first() =~= ev.skip(i as int + 1));
        }
        match gen_event(w, ast, m, prefix, &m.events[i]) {
            Ok(_) => {
                proof {
                    done = done + spec_gen_event(av, mv, prefix@, ev[i as int]).unwrap();
                }
            },
            Err(e) => {
                return Err(e);
            },
        }
        i = i + 1;
    }
    proof {
        assert(ev.skip(m.events.len() as int) =~= Seq::<crate::ast::SpecEvent>::empty());
    }
    Ok(())
}

/// Emits everything one error contributes.
#[verifier::rlimit(100)]
#[verifier::spinoff_prover]
fn gen_error(
    w: &mut String,
    ast: &Ast,
    m: &Module,
    prefix: &str,
    er: &crate::ast::Error,
) -> (r: Result<(), GenError>)
    ensures
        match r {
            Ok(_) => match spec_gen_error(ast.deep_view(), m.deep_view(), prefix@, er.deep_view()) {
                Some(txt) => final(w)@ == old(w)@ + txt,
                None => false,
            },
            Err(_) => spec_gen_error(ast.deep_view(), m.deep_view(), prefix@, er.deep_view())
                is None,
        },
{
    let ghost av = ast.deep_view();
    let ghost mv = m.deep_view();
    let ghost erv = er.deep_view();
    let ghost out0 = w@;
    let cn = crate::names::convert_name(er.name.as_str());
    let mut error_name = String::from_str("xcb_");
    error_name.append(prefix);
    error_name.append(cn.as_str());
    let ghost en = "xcb_"@ + prefix@ + convert_name_spec(erv.name);
    proof {
        assert(error_name@ =~= en);
    }
    let upper = crate::strutil::ascii_upper(error_name.as_str());
    w.append("    pub const ");
    w.append(upper.as_str());
    w.append(": u32 = ");
    let digits = fmt_u32(er.number);
    w.append(digits.as_str());
    w.append(";\n");
    let ghost number_line = "    pub const "@ + crate::strutil::upper_chars(en) + ": u32 = "@
        + dec_str(erv.number as int) + ";\n"@;
    proof {
        assert(w@ =~= out0 + number_line);
    }
    match &er.inner {
        crate::ast::ErrorInner::Error { fields } => {
            w.append("    #[repr(C)]\n    #[derive(Copy, Clone)]\n    pub struct ");
            w.append(error_name.as_str());
            w.append("_error_t {\n");
            w.append(
                "        pub response_type: u8,\n        pub error_code: u8,\n        pub sequence: u16,\n",
            );
            if fields.len() < 1 {
                w.append("        pub bad_value: u32,\n");
            }
            if fields.len() < 2 {
                w.append("        pub minor_opcode: u16,\n");
            }
            if fields.len() < 3 {
                w.append("        pub major_opcode: u8,\n");
            }
            match gen_fields(w, m, ast, fields.as_slice()) {
                Ok(_) => {},
                Err(e) => {
                    return Err(e);
                },
            }
            w.append("    }\n");
            proof {
                let b = spec_gen_fields(av, mv, erv.inner->Error_0).unwrap();
                assert(w@ =~= out0 + (number_line
                    + "    #[repr(C)]\n    #[derive(Copy, Clone)]\n    pub struct "@ + en
                    + "_error_t {\n"@
                    + "        pub response_type: u8,\n        pub error_code: u8,\n        pub sequence: u16,\n"@
                    + (if erv.inner->Error_0.len() < 1 {
                    "        pub bad_value: u32,\n"@
                } else {
                    Seq::<char>::empty()
                }) + (if erv.inner->Error_0.len() < 2 {
                    "        pub minor_opcode: u16,\n"@
                } else {
                    Seq::<char>::empty()
                }) + (if erv.inner->Error_0.len() < 3 {
                    "        pub major_opcode: u8,\n"@
                } else {
                    Seq::<char>::empty()
                }) + b + "    }\n"@));
            }
            Ok(())
        },
        crate::ast::ErrorInner::Copy { ref_ } => {
            match ast.find_module_for_error(m, ref_.as_str(), ast.modules.len()) {
                Some(rm) => {
                    let rp = crate::ast::module_prefix(rm);
                    let rcn = crate::names::convert_name(ref_.as_str());
                    let mut ref_name = String::from_str("xcb_");
                    ref_name.append(rp.as_str());
                    ref_name.append(rcn.as_str());
                    ref_name.append("_error_t");
                    w.append("    pub type ");
                    w.append(error_name.as_str());
                    w.append("_error_t = ");
                    w.append(ref_name.as_str());
                    w.append(";\n");
                    proof {
                        assert(ref_name@ =~= "xcb_"@ + crate::ast::spec_prefix(rm.deep_view())
                            + convert_name_spec(erv.inner->Copy_0) + "_error_t"@);
                        assert(w@ =~= out0 + (number_line + "    pub type "@ + en
                            + "_error_t = "@ + ref_name@ + ";\n"@));
                    }
                    Ok(())
                },
                None => Err(GenError::UnresolvedError { name: ref_.clone() }),
            }
        },
    }
}

fn gen_errors(w: &mut String, ast: &Ast, m: &Module, prefix: &str) -> (r: Result<(), GenError>)
    ensures
        match r {
            Ok(_) => match spec_gen_errors(
                ast.deep_view(),
                m.deep_view(),
                prefix@,
                m.deep_view().errors,
            ) {
                Some(txt) => final(w)@ == old(w)@ + txt,
                None => false,
            },
            Err(_) => spec_gen_errors(
                ast.deep_view(),
                m.deep_view(),
                prefix@,
                m.deep_view().errors,
            ) is None,
        },
{
    let ghost av = ast.deep_view();
    let ghost mv = m.deep_view();
    let ghost ev = mv.errors;
    let ghost out0 = w@;
    let ghost mut done: Seq<char> = Seq::empty();
    proof {
        assert(ev.skip(0) =~= ev);
        assert(w@ =~= out0 + done);
    }
    let mut i: usize = 0;
    while i < m.errors.len()
        invariant
            i <= m.errors.len(),
            av == ast.deep_view(),
            mv == m.deep_view(),
            ev == mv.errors,
            ev.len() == m.errors.len(),
            w@ == out0 + done,
            spec_gen_errors(av, mv, prefix@, ev) == match spec_gen_errors(
                av,
                mv,
                prefix@,
                ev.skip(i as int),
            ) {
                Some(rest) => Some(done + rest),
                None => None::<Seq<char>>,
            },
        decreases m.errors.len() - i,
    {
        proof {
            assert(ev.skip(i as int)[0] == ev[i as int]);
            assert(ev[i as int] == m.errors@[i as int].deep_view());
            assert(ev.skip(i as int).drop_first() =~= ev.skip(i as int + 1));
        }
        match gen_error(w, ast, m, prefix, &m.errors[i]) {
            Ok(_) => {
                proof {
                    done = done + spec_gen_error(av, mv, prefix@, ev[i as int]).unwrap();
                }
            },
            Err(e) => {
                return Err(e);
            },
        }
        i = i + 1;
    }
    proof {
        assert(ev.skip(m.errors.len() as int) =~= Seq::<crate::ast::SpecErr>::empty());
    }
    Ok(())
}

// ---------------------------------------------------------------------------
// Whole modules and the whole run.

pub open spec fn spec_imports_text(imports: Seq<Seq<char>>) -> Seq<char>
    decreases imports.len(),
{
    if imports.len() == 0 {
        Seq::empty()
    } else {
        "    use super::"@ + imports[0] + "::*;\n"@ + spec_imports_text(imports.drop_first())
    }
}

/// The header of one module body: its namespace opening, the re-exports
/// of its imports, and — for an extension — its version constants (only
/// those the source provided) and its extension-identity declaration.
pub open spec fn spec_module_header(name: Seq<char>, m: SpecModule) -> Seq<char> {
    "pub mod "@ + name + " {\n"@ + "    use super::*;\n"@ + spec_imports_text(m.imports) + (
    match m.extension_name {
        Some(e) => (match m.major_version {
            Some(v) => "    pub const XCB_"@ + crate::strutil::upper_chars(e)
                + "_MAJOR_VERSION: u32 = "@ + v + ";\n"@,
            None => Seq::<char>::empty(),
        }) + (match m.minor_version {
            Some(v) => "    pub const XCB_"@ + crate::strutil::upper_chars(e)
                + "_MINOR_VERSION: u32 = "@ + v + ";\n"@,
            None => Seq::<char>::empty(),
        }) + "    extern \"C\" {\n        pub static xcb_"@ + crate::ast::spec_prefix(m)
            + "id: xcb_extension_t;\n    }\n"@,
        None => Seq::<char>::empty(),
    })
}

/// The whole body of one module: header, then types, requests, events and
/// errors, each section in its fixed order.
pub open spec fn spec_gen_module(ast: SpecAst, name: Seq<char>, m: SpecModule) -> Option<Seq<char>> {
    let prefix = crate::ast::spec_prefix(m);
    match (
        spec_gen_types(ast, m, prefix, m.types),
        spec_gen_requests(ast, m, prefix, m.requests),
        spec_gen_events(ast, m, prefix, m.events),
        spec_gen_errors(ast, m, prefix, m.errors),
    ) {
        (Some(t), Some(q), Some(e), Some(er)) => Some(
            spec_module_header(name, m) + t + q + e + er + "}\n"@,
        ),
        _ => None,
    }
}

pub open spec fn spec_gen_all_from(ast: SpecAst, mods: Seq<(Seq<char>, SpecModule)>) -> Option<
    Seq<char>,
>
    decreases mods.len(),
{
    if mods.len() == 0 {
        Some(Seq::empty())
    } else {
        match spec_gen_module(ast, mods[0].0, mods[0].1) {
            None => None,
            Some(t) => match spec_gen_all_from(ast, mods.drop_first()) {
                None => None,
                Some(rest) => Some(t + rest),
            },
        }
    }
}

/// The generated declarations of the whole module set, one module body per
/// module, in the set's (sorted) order.
pub open spec fn spec_gen_all(ast: SpecAst) -> Option<Seq<char>> {
    spec_gen_all_from(ast, ast.modules)
}

/// The module set as the parser builds it: each parsed module inserted
/// under its name, sorted, later documents replacing earlier ones with
/// the same name.
pub open spec fn spec_build_modules(inputs: Seq<(Seq<char>, SpecModule)>) -> Seq<
    (Seq<char>, SpecModule),
>
    decreases inputs.len(),
{
    if inputs.len() == 0 {
        Seq::empty()
    } else {
        crate::ast::spec_insert_sorted(
            spec_build_modules(inputs.drop_last()),
            inputs.last().0,
            inputs.last().1,
        )
    }
}

/// Every import of every module names a module of the set.
pub open spec fn spec_imports_closed(mods: Seq<(Seq<char>, SpecModule)>) -> bool {
    forall|i: int, j: int|
        0 <= i < mods.len() && 0 <= j < (#[trigger] mods[i]).1.imports.len()
            ==> crate::ast::spec_assoc(mods, #[trigger] mods[i].1.imports[j]) is Some
}

/// What a whole run yields from its parsed modules: the declarations of
/// the sorted module set over the built-in type table, or nothing when an
/// import names a module that was not given or any reference in any
/// module resolves nowhere.
pub open spec fn spec_generate(mods: Seq<(Seq<char>, SpecModule)>) -> Option<Seq<char>> {
    let sorted = spec_build_modules(mods);
    let ast = SpecAst { global_types: crate::ast::spec_builtin_types(), modules: sorted };
    if !spec_imports_closed(sorted) {
        None
    } else {
        spec_gen_all(ast)
    }
}

/// Emits the header of one module body.
#[verifier::rlimit(100)]
#[verifier::spinoff_prover]
fn gen_module_header(w: &mut String, name: &str, m: &Module)
    ensures
        final(w)@ == old(w)@ + spec_module_header(name@, m.deep_view()),
{
    let ghost mv = m.deep_view();
    let ghost out0 = w@;
    w.append("pub mod ");
    w.append(name);
    w.append(" {\n");
    w.append("    use super::*;\n");
    let ghost head = w@;
    let ghost iv = mv.imports;
    let ghost mut done: Seq<char> = Seq::empty();
    proof {
        assert(iv.skip(0) =~= iv);
        assert(w@ =~= head + done);
    }
    let mut i: usize = 0;
    while i < m.imports.len()
        invariant
            i <= m.imports.len(),
            mv == m.deep_view(),
            iv == mv.imports,
            iv.len() == m.imports.len(),
            w@ == head + done,
            spec_imports_text(iv) == done + spec_imports_text(iv.skip(i as int)),
        decreases m.imports.len() - i,
    {
        proof {
            assert(iv.skip(i as int)[0] == iv[i as int]);
            assert(iv[i as int] == m.imports@[i as int].deep_view());
            assert(iv.skip(i as int).drop_first() =~= iv.skip(i as int + 1));
        }
        let ghost pre = w@;
        w.append("    use super::");
        w.append(m.imports[i].as_str());
        w.append("::*;\n");
        proof {
            let piece = "    use super::"@ + iv[i as int] + "::*;\n"@;
            assert(w@ =~= pre + piece);
            done = done + piece;
        }
        i = i + 1;
    }
    proof {
        assert(iv.skip(m.imports.len() as int) =~= Seq::<Seq<char>>::empty());
    }
    match &m.extension_name {
        Some(e) => {
            let upper = crate::strutil::ascii_upper(e.as_str());
            match &m.major_version {
                Some(v) => {
                    w.append("    pub const XCB_");
                    w.append(upper.as_str());
                    w.append("_MAJOR_VERSION: u32 = ");
                    w.append(v.as_str());
                    w.append(";\n");
                },
                None => {},
            }
            match &m.minor_version {
                Some(v) => {
                    w.append("    pub const XCB_");
                    w.append(upper.as_str());
                    w.append("_MINOR_VERSION: u32 = ");
                    w.append(v.as_str());
                    w.append(";\n");
                },
                None => {},
            }
            let prefix = crate::ast::module_prefix(m);
            w.append("    extern \"C\" {\n        pub static xcb_");
            w.append(prefix.as_str());
            w.append("id: xcb_extension_t;\n    }\n");
        },
        None => {},
    }
    proof {
        assert(w@ =~= out0 + spec_module_header(name@, mv));
    }
}

/// Emits the whole body of one module.
fn gen_module(w: &mut String, ast: &Ast, name: &str, m: &Module) -> (r: Result<(), GenError>)
    ensures
        match r {
            Ok(_) => match spec_gen_module(ast.deep_view(), name@, m.deep_view()) {
                Some(txt) => final(w)@ == old(w)@ + txt,
                None => false,
            },
            Err(_) => spec_gen_module(ast.deep_view(), name@, m.deep_view()) is None,
        },
{
    let ghost av = ast.deep_view();
    let ghost mv = m.deep_view();
    let ghost out0 = w@;
    gen_module_header(w, name, m);
    let prefix = crate::ast::module_prefix(m);
    match gen_types(w, ast, m, prefix.as_str()) {
        Ok(_) => {},
        Err(e) => {
            return Err(e);
        },
    }
    match gen_requests(w, ast, m, prefix.as_str()) {
        Ok(_) => {},
        Err(e) => {
            return Err(e);
        },
    }
    match gen_events(w, ast, m, prefix.as_str()) {
        Ok(_) => {},
        Err(e) => {
            return Err(e);
        },
    }
    match gen_errors(w, ast, m, prefix.as_str()) {
        Ok(_) => {},
        Err(e) => {
            return Err(e);
        },
    }
    w.append("}\n");
    proof {
        assert(w@ =~= out0 + (spec_module_header(name@, mv) + spec_gen_types(
            av,
            mv,
            crate::ast::spec_prefix(mv),
            mv.types,
        ).unwrap() + spec_gen_requests(av, mv, crate::ast::spec_prefix(mv), mv.requests).unwrap()
            + spec_gen_events(av, mv, crate::ast::spec_prefix(mv), mv.events).unwrap()
            + spec_gen_errors(av, mv, crate::ast::spec_prefix(mv), mv.errors).unwrap() + "}\n"@));
    }
    Ok(())
}

/// Emits every module body, in the set's order.
pub fn gen_all(ast: &Ast) -> (r: Result<String, GenError>)
    ensures
        match r {
            Ok(s) => spec_gen_all(ast.deep_view()) == Some(s@),
            Err(_) => spec_gen_all(ast.deep_view()) is None,
        },
{
    let ghost av = ast.deep_view();
    let ghost mods = av.modules;
    let mut w = String::new();
    let ghost mut done: Seq<char> = Seq::empty();
    proof {
        assert(mods.skip(0) =~= mods);
        assert(w@ =~= done);
    }
    let mut i: usize = 0;
    while i < ast.modules.len()
        invariant
            i <= ast.modules.len(),
            av == ast.deep_view(),
            mods == av.modules,
            mods.len() == ast.modules.len(),
            w@ == done,
            spec_gen_all_from(av, mods) == match spec_gen_all_from(av, mods.skip(i as int)) {
                Some(rest) => Some(done + rest),
                None => None::<Seq<char>>,
            },
        decreases ast.modules.len() - i,
    {
        proof {
            assert(mods.skip(i as int)[0] == mods[i as int]);
            assert(mods[i as int] == ast.modules@[i as int].deep_view());
            assert(mods.skip(i as int).drop_first() =~= mods.skip(i as int + 1));
        }
        match gen_module(&mut w, ast, ast.modules[i].0.as_str(), &ast.modules[i].1) {
            Ok(_) => {
                proof {
                    done = done + spec_gen_module(av, mods[i as int].0, mods[i as int].1).unwrap();
                }
            },
            Err(e) => {
                return Err(e);
            },
        }
        i = i + 1;
    }
    proof {
        assert(mods.skip(ast.modules.len() as int) =~= Seq::<(Seq<char>, SpecModule)>::empty());
    }
    Ok(w)
}

/// Checks that every import of every module names a module of the set;
/// the first dangling import is reported.
fn check_imports_closed(modules: &Vec<(String, Module)>) -> (r: Result<(), GenError>)
    ensures
        match r {
            Ok(_) => spec_imports_closed(modules.deep_view()),
            Err(_) => !spec_imports_closed(modules.deep_view()),
        },
{
    let ghost mv = modules.deep_view();
    let mut i: usize = 0;
    while i < modules.len()
        invariant
            i <= modules.len(),
            mv == modules.deep_view(),
            mv.len() == modules.len(),
            forall|a: int, b: int|
                0 <= a < i && 0 <= b < (#[trigger] mv[a]).1.imports.len()
                    ==> crate::ast::spec_assoc(mv, #[trigger] mv[a].1.imports[b]) is Some,
        decreases modules.len() - i,
    {
        proof {
            assert(mv[i as int] == modules@[i as int].deep_view());
        }
        let mut j: usize = 0;
        while j < modules[i].1.imports.len()
            invariant
                i < modules.len(),
                j <= modules@[i as int].1.imports@.len(),
                mv == modules.deep_view(),
                mv.len() == modules.len(),
                mv[i as int].1.imports.len() == modules@[i as int].1.imports@.len(),
                mv[i as int] == modules@[i as int].deep_view(),
                forall|b: int|
                    0 <= b < j ==> crate::ast::spec_assoc(
                        mv,
                        #[trigger] mv[i as int].1.imports[b],
                    ) is Some,
            decreases modules@[i as int].1.imports@.len() - j,
        {
            proof {
                assert(mv[i as int].1.imports[j as int] == modules@[i as int].1.imports@[
                    j as int].deep_view());
            }
            match crate::ast::lookup_module(modules, modules[i].1.imports[j].as_str()) {
                Some(_) => {},
                None => {
                    return Err(
                        GenError::UnknownImport { name: modules[i].1.imports[j].clone() },
                    );
                },
            }
            j = j + 1;
        }
        i = i + 1;
    }
    Ok(())
}

/// Builds the module set and emits the whole run's declarations: the
/// parsed modules are keyed and sorted by name, every import must name a
/// module of the set, and each module body is rendered in order.
pub fn generate(parsed: Vec<(String, Module)>) -> (r: Result<String, GenError>)
    ensures
        match r {
            Ok(s) => spec_generate(parsed.deep_view()) == Some(s@),
            Err(_) => spec_generate(parsed.deep_view()) is None,
        },
{
    let ghost pv = parsed.deep_view();
    let mut rest = parsed;
    let mut modules: Vec<(String, Module)> = Vec::new();
    let ghost mut k: int = 0;
    proof {
        assert(pv.take(0) =~= Seq::<(Seq<char>, SpecModule)>::empty());
        assert(modules.deep_view() =~= spec_build_modules(pv.take(0)));
        assert(rest.deep_view() =~= pv.skip(0));
    }
    while rest.len() > 0
        invariant
            0 <= k <= pv.len(),
            rest.deep_view() == pv.skip(k),
            rest.len() == pv.len() - k,
            modules.deep_view() == spec_build_modules(pv.take(k)),
        decreases rest.len(),
    {
        proof {
            assert(rest.deep_view()[0] == rest@[0].deep_view());
            assert(pv.skip(k)[0] == pv[k]);
            assert(pv.take(k + 1).drop_last() =~= pv.take(k));
            assert(pv.take(k + 1).last() == pv[k]);
        }
        let ghost old_dv = rest.deep_view();
        let ghost or0 = rest@;
        let pair = rest.remove(0);
        proof {
            assert(pair.deep_view() == pv[k]);
            assert(rest@ =~= or0.drop_first());
            assert forall|t: int| 0 <= t < rest.deep_view().len() implies rest.deep_view()[t]
                == old_dv[t + 1] by {
                assert(rest@[t] == or0[t + 1]);
                assert(rest.deep_view()[t] == rest@[t].deep_view());
                assert(old_dv[t + 1] == or0[t + 1].deep_view());
            }
        }
        crate::ast::insert_sorted(&mut modules, pair.0, pair.1);
        proof {
            k = k + 1;
            assert(rest.deep_view().len() == pv.skip(k).len());
            assert forall|t: int| 0 <= t < rest.deep_view().len() implies rest.deep_view()[t]
                == pv.skip(k)[t] by {
                assert(old_dv[t + 1] == pv.skip(k - 1)[t + 1]);
                assert(pv.skip(k - 1)[t + 1] == pv[k + t]);
                assert(pv.skip(k)[t] == pv[k + t]);
            }
            assert(rest.deep_view() =~= pv.skip(k));
        }
    }
    proof {
        assert(pv.take(pv.len() as int) =~= pv);
        assert(k == pv.len());
    }
    match check_imports_closed(&modules) {
        Ok(_) => {},
        Err(e) => {
            return Err(e);
        },
    }
    let ast = Ast { global_types: crate::ast::builtin_types(), modules };
    proof {
        assert(ast.deep_view() == (SpecAst {
            global_types: crate::ast::spec_builtin_types(),
            modules: spec_build_modules(pv),
        }));
    }
    gen_all(&ast)
}

/// The module records a run's inputs parse to: each document's tree is
/// the one `xml_tree_of` names, interpreted by `spec_parse_module`;
/// nothing when any document fails to parse or interpret.
pub open spec fn spec_parse_inputs(inputs: Seq<(Seq<char>, Seq<char>)>) -> Option<
    Seq<(Seq<char>, SpecModule)>,
>
    decreases inputs.len(),
{
    if inputs.len() == 0 {
        Some(Seq::empty())
    } else {
        match spec_parse_inputs(inputs.drop_last()) {
            None => None,
            Some(acc) => match crate::xml::xml_tree_of(inputs.last().1) {
                None => None,
                Some(tree) => match crate::parse::spec_parse_module(tree) {
                    Err(_) => None,
                    Ok(m) => Some(acc.push((inputs.last().0, m))),
                },
            },
        }
    }
}

/// What the whole pipeline yields from its named documents: the
/// declarations of the parsed, sorted module set; nothing when a document
/// cannot be parsed or interpreted, an import names a module not given,
/// or a reference resolves nowhere.
pub open spec fn spec_gen_modules(inputs: Seq<(Seq<char>, Seq<char>)>) -> Option<Seq<char>> {
    match spec_parse_inputs(inputs) {
        None => None,
        Some(mods) => spec_generate(mods),
    }
}

proof fn lemma_parse_inputs_prefix_none(inputs: Seq<(Seq<char>, Seq<char>)>, k: int)
    requires
        0 <= k <= inputs.len(),
        spec_parse_inputs(inputs.take(k)) is None,
    ensures
        spec_parse_inputs(inputs) is None,
    decreases inputs.len() - k,
{
    if k == inputs.len() {
        assert(inputs.take(k) =~= inputs);
    } else {
        assert(inputs.take(k + 1).drop_last() =~= inputs.take(k));
        lemma_parse_inputs_prefix_none(inputs, k + 1);
    }
}

/// Runs the whole pipeline: each named document is read by the outside
/// XML parser, interpreted into a module record, and the module set's
/// declarations are generated.  The XML parse is pinned through its name
/// `xml_tree_of`; everything after it is fixed by `spec_parse_module` and
/// `spec_generate`.
pub fn gen_modules(inputs: &Vec<(String, String)>) -> (r: Result<String, GenError>)
    ensures
        match r {
            Ok(s) => spec_gen_modules(inputs.deep_view()) == Some(s@),
            Err(_) => spec_gen_modules(inputs.deep_view()) is None,
        },
{
    let ghost iv = inputs.deep_view();
    let mut parsed: Vec<(String, Module)> = Vec::new();
    proof {
        assert(iv.take(0) =~= Seq::<(Seq<char>, Seq<char>)>::empty());
        assert(parsed.deep_view() =~= Seq::<(Seq<char>, SpecModule)>::empty());
    }
    let mut i: usize = 0;
    while i < inputs.len()
        invariant
            i <= inputs.len(),
            iv == inputs.deep_view(),
            iv.len() == inputs.len(),
            spec_parse_inputs(iv.take(i as int)) == Some(parsed.deep_view()),
        decreases inputs.len() - i,
    {
        proof {
            assert(iv[i as int] == inputs@[i as int].deep_view());
            assert(iv.take(i + 1).drop_last() =~= iv.take(i as int));
            assert(iv.take(i + 1).last() == iv[i as int]);
        }
        match crate::xml::parse_document(inputs[i].1.as_str()) {
            Ok(root) => {
                match crate::parse::parse_module(&root) {
                    Ok(m) => {
                        let ghost mv = m.deep_view();
                        let ghost pre = parsed.deep_view();
                        parsed.push((inputs[i].0.clone(), m));
                        proof {
                            assert(parsed.deep_view() =~= pre.push((iv[i as int].0, mv)));
                        }
                    },
                    Err(e) => {
                        proof {
                            assert(spec_parse_inputs(iv.take(i + 1)) is None);
                            lemma_parse_inputs_prefix_none(iv, i + 1);
                        }
                        return Err(e);
                    },
                }
            },
            Err(msg) => {
                proof {
                    assert(spec_parse_inputs(iv.take(i + 1)) is None);
                    lemma_parse_inputs_prefix_none(iv, i + 1);
                }
                return Err(GenError::Document { message: msg });
            },
        }
        i = i + 1;
    }
    proof {
        assert(iv.take(inputs.len() as int) =~= iv);
    }
    generate(parsed)
}

// ---------------------------------------------------------------------------
// Stated laws of the emitter.

/// The running offset after the first `j` fields of a generic event: ten
/// bytes of fixed sub-header, then each field's byte size in turn.
pub open spec fn spec_event_offset(
    ast: SpecAst,
    m: SpecModule,
    fields: Seq<SpecField>,
    j: int,
) -> Option<int>
    decreases j,
{
    if j <= 0 {
        Some(10)
    } else {
        match spec_event_offset(ast, m, fields, j - 1) {
            None => None,
            Some(o) => match crate::ast::spec_field_size_align(
                ast,
                m,
                fields[j - 1].ty,
                spec_layout_fuel(ast),
            ) {
                None => None,
                Some(p) => Some(o + p.0),
            },
        }
    }
}

proof fn lemma_layout_from(
    ast: SpecAst,
    m: SpecModule,
    fields: Seq<SpecField>,
    index: int,
    fsi0: Option<int>,
    align0: u32,
    res: (Option<int>, u32),
)
    requires
        0 <= index <= fields.len(),
        spec_event_offset(ast, m, fields, index) is Some,
        spec_event_layout_from(
            ast,
            m,
            fields.skip(index),
            index,
            spec_event_offset(ast, m, fields, index).unwrap(),
            fsi0,
            align0,
        ) == Some(res),
    ensures
        match res.0 {
            Some(k) => fsi0 == Some(k) || (fsi0 is None && index < k <= fields.len()
                && spec_event_offset(ast, m, fields, k) == Some(32int) && forall|j: int|
                index < j < k ==> spec_event_offset(ast, m, fields, j) != Some(32int)),
            None => fsi0 is None && forall|j: int|
                index < j <= fields.len() ==> spec_event_offset(ast, m, fields, j) != Some(32int),
        },
    decreases fields.len() - index,
{
    let offset = spec_event_offset(ast, m, fields, index).unwrap();
    if index == fields.len() {
        assert(fields.skip(index) =~= Seq::<SpecField>::empty());
    } else {
        let suffix = fields.skip(index);
        assert(suffix[0] == fields[index]);
        assert(suffix.drop_first() =~= fields.skip(index + 1));
        let p = crate::ast::spec_field_size_align(
            ast,
            m,
            fields[index].ty,
            spec_layout_fuel(ast),
        ).unwrap();
        let off2 = offset + p.0;
        assert(spec_event_offset(ast, m, fields, index + 1) == Some(off2));
        let fsi2: Option<int> = if off2 == 32 && fsi0 is None {
            Some(index + 1)
        } else {
            fsi0
        };
        let al2: u32 = if p.1 > align0 {
            p.1
        } else {
            align0
        };
        lemma_layout_from(ast, m, fields, index + 1, fsi2, al2, res);
    }
}

/// Placement of the `full_sequence` continuation word: when the layout of
/// a generic event's fields yields an insertion point `k`, the running
/// offset — starting at the ten-byte sub-header — first reaches exactly 32
/// bytes after the `k`-th field; when it yields none, no field boundary
/// reaches 32.
pub proof fn lemma_full_sequence_placement(
    ast: SpecAst,
    m: SpecModule,
    fields: Seq<SpecField>,
    fsi: Option<int>,
    align: u32,
)
    requires
        spec_event_layout(ast, m, fields) == Some((fsi, align)),
    ensures
        match fsi {
            Some(k) => 0 < k <= fields.len() && spec_event_offset(ast, m, fields, k) == Some(32int)
                && forall|j: int|
                0 < j < k ==> spec_event_offset(ast, m, fields, j) != Some(32int),
            None => forall|j: int|
                0 < j <= fields.len() ==> spec_event_offset(ast, m, fields, j) != Some(32int),
        },
{
    assert(fields.skip(0) =~= fields);
    assert(spec_event_offset(ast, m, fields, 0) == Some(10int));
    lemma_layout_from(ast, m, fields, 0, None, 0, (fsi, align));
}

/// Packing of a generic event: the emitted structure is given packed
/// (unaligned) layout exactly when an insertion point was found and the
/// largest field alignment is 8 or more.
pub proof fn lemma_generic_event_packing(
    ast: SpecAst,
    m: SpecModule,
    prefix: Seq<char>,
    e: crate::ast::SpecEvent,
    fsi: Option<int>,
    align: u32,
)
    requires
        e.inner is Event,
        e.inner->Event_xge,
        spec_event_layout(ast, m, e.inner->Event_fields) == Some((fsi, align)),
        spec_event_body(
            ast,
            m,
            true,
            e.inner->Event_sequence,
            e.inner->Event_fields,
            fsi,
        ) is Some,
    ensures
        spec_gen_event(ast, m, prefix, e) == Some(
            ("    pub const "@ + crate::strutil::upper_chars(
                "xcb_"@ + prefix + convert_name_spec(e.name),
            ) + ": u32 = "@ + dec_str(e.number as int) + ";\n"@) + (if fsi is Some && align >= 8 {
                "    #[repr(C, packed)]\n"@
            } else {
                "    #[repr(C)]\n"@
            }) + "    #[derive(Copy, Clone)]\n    pub struct "@ + ("xcb_"@ + prefix
                + convert_name_spec(e.name)) + "_event_t {\n"@ + spec_event_body(
                ast,
                m,
                true,
                e.inner->Event_sequence,
                e.inner->Event_fields,
                fsi,
            ).unwrap() + "    }\n"@,
        ),
{
}

/// A copied event resolves to a type alias, never to a duplicated field
/// list: the alias target is exactly the canonical structure name that the
/// referenced event's own declaring module emits for it, so the copy and
/// the original stay layout-identical by construction, also across module
/// boundaries.
pub proof fn lemma_event_copy_alias_target(
    ast: SpecAst,
    m: SpecModule,
    prefix: Seq<char>,
    e: crate::ast::SpecEvent,
    rm: SpecModule,
    idx: int,
)
    requires
        e.inner is Copy,
        crate::ast::spec_find_event_module(
            ast,
            m,
            e.inner->Copy_0,
            ast.modules.len() as int,
        ) == Some(rm),
        0 <= idx < rm.events.len(),
        rm.events[idx].name == e.inner->Copy_0,
    ensures
        spec_gen_event(ast, m, prefix, e) == Some(
            ("    pub const "@ + crate::strutil::upper_chars(
                "xcb_"@ + prefix + convert_name_spec(e.name),
            ) + ": u32 = "@ + dec_str(e.number as int) + ";\n"@) + "    pub type "@ + ("xcb_"@
                + prefix + convert_name_spec(e.name)) + "_event_t = "@ + ("xcb_"@
                + crate::ast::spec_prefix(rm) + convert_name_spec(rm.events[idx].name)
                + "_event_t"@) + ";\n"@,
        ),
{
}

/// A copied error resolves to a type alias exactly as a copied event
/// does: the alias target is the canonical structure name the referenced
/// error's declaring module emits, so copy and original stay
/// layout-identical by construction, also across module boundaries.
pub proof fn lemma_error_copy_alias_target(
    ast: SpecAst,
    m: SpecModule,
    prefix: Seq<char>,
    er: crate::ast::SpecErr,
    rm: SpecModule,
    idx: int,
)
    requires
        er.inner is Copy,
        crate::ast::spec_find_error_module(
            ast,
            m,
            er.inner->Copy_0,
            ast.modules.len() as int,
        ) == Some(rm),
        0 <= idx < rm.errors.len(),
        rm.errors[idx].name == er.inner->Copy_0,
    ensures
        spec_gen_error(ast, m, prefix, er) == Some(
            ("    pub const "@ + crate::strutil::upper_chars(
                "xcb_"@ + prefix + convert_name_spec(er.name),
            ) + ": u32 = "@ + dec_str(er.number as int) + ";\n"@) + "    pub type "@ + ("xcb_"@
                + prefix + convert_name_spec(er.name)) + "_error_t = "@ + ("xcb_"@
                + crate::ast::spec_prefix(rm) + convert_name_spec(rm.errors[idx].name)
                + "_error_t"@) + ";\n"@,
        ),
{
}

/// A module that declares both an opaque handle and an enumeration whose
/// names convert to the same target name emits exactly one underlying
/// type alias: the handle's.  The enumeration contributes only its value
/// constants, which reference that one alias.
pub proof fn lemma_enum_id_collapse(
    ast: SpecAst,
    owner: SpecModule,
    prefix: Seq<char>,
    enum_key: Seq<char>,
    items: Seq<(Seq<char>, u32)>,
    a: int,
)
    requires
        0 <= a < owner.types.len(),
        owner.types[a].1 is Id,
        convert_name_spec(owner.types[a].0) == convert_name_spec(enum_key),
    ensures
        spec_gen_type(ast, owner, prefix, enum_key, crate::ast::SpecType::Enum(items)) == Some(
            spec_enum_items_text(prefix, convert_name_spec(enum_key), items),
        ),
{
    let cn = convert_name_spec(enum_key);
    assert(spec_is_id_name(owner.types, cn));
    assert(Seq::<char>::empty() + spec_enum_items_text(prefix, cn, items) =~= spec_enum_items_text(
        prefix,
        cn,
        items,
    ));
}

/// Requests without a reply share the single void cookie type: no
/// per-request cookie structure is emitted for them, and both transport
/// calls return `xcb_void_cookie_t`.
pub proof fn lemma_void_cookie_shared(
    ast: SpecAst,
    m: SpecModule,
    prefix: Seq<char>,
    req: crate::ast::SpecRequest,
)
    requires
        req.reply is None,
        spec_request_struct_body(ast, m, req.fields) is Some,
        spec_request_args(ast, m, req.fields) is Some,
    ensures
        spec_gen_request(ast, m, prefix, req) == Some(
            ("    pub const "@ + crate::strutil::upper_chars(
                "xcb_"@ + prefix + convert_name_spec(req.name),
            ) + ": u32 = "@ + dec_str(req.opcode as int) + ";\n"@) + (
            "    #[repr(C)]\n    #[derive(Copy, Clone)]\n    pub struct "@ + ("xcb_"@ + prefix
                + convert_name_spec(req.name)) + "_request_t {\n"@ + spec_request_struct_body(
                ast,
                m,
                req.fields,
            ).unwrap() + "    }\n"@) + spec_request_calls(
                "xcb_"@ + prefix + convert_name_spec(req.name),
                false,
                "            c: *mut xcb_connection_t,\n"@ + spec_request_args(
                    ast,
                    m,
                    req.fields,
                ).unwrap(),
            ),
        ),
{
    let rn = "xcb_"@ + prefix + convert_name_spec(req.name);
    let opcode_line = "    pub const "@ + crate::strutil::upper_chars(rn) + ": u32 = "@ + dec_str(
        req.opcode as int,
    ) + ";\n"@;
    let struct_text = "    #[repr(C)]\n    #[derive(Copy, Clone)]\n    pub struct "@ + rn
        + "_request_t {\n"@ + spec_request_struct_body(ast, m, req.fields).unwrap() + "    }\n"@;
    let calls = spec_request_calls(
        rn,
        false,
        "            c: *mut xcb_connection_t,\n"@ + spec_request_args(ast, m, req.fields).unwrap(),
    );
    assert(opcode_line + struct_text + Seq::<char>::empty() + calls =~= opcode_line + struct_text
        + calls);
}

} // verus!
