//! The module parser: one protocol description document, already read into
//! a plain element tree, becomes a `Module` record.  A missing required
//! attribute, a malformed number, or an unrecognized shape aborts the run;
//! the contracts pin both the parsed record and the exact error — its
//! variant and the offending text — that a failing document yields.

use vstd::prelude::*;

verus! {

use vstd::string::StrSliceExecFns;
use vstd::string::StringExecFns;
use crate::ast::Field;
use crate::ast::FieldType;
use crate::ast::GenError;
use crate::ast::Length;
use crate::ast::SpecField;
use crate::ast::SpecFieldType;
use crate::ast::SpecGenErr;
use crate::ast::SpecLength;
use crate::names::sanitize;
use crate::names::sanitize_spec;
use crate::strutil::dec_str;
use crate::strutil::fmt_u64;
use crate::strutil::str_eq;
use crate::strutil::u32_from_dec;
use crate::xml::SpecXml;
use crate::xml::XmlNode;
use crate::xml::get_attr;
use crate::xml::lemma_xml_views;
use crate::xml::spec_attr;

/// What one child element contributes to a field list: a parsed field, or
/// nothing (an unrecognized element, or a pad without a byte count), or
/// the error a malformed element yields; the second component is the
/// running pad counter.
pub open spec fn spec_parse_one_field(c: SpecXml, pad_index: int) -> Result<
    (Option<SpecField>, int),
    SpecGenErr,
> {
    if c.tag == "field"@ {
        match (spec_attr(c, "name"@), spec_attr(c, "type"@)) {
            (Some(n), Some(t)) => Ok(
                (Some(SpecField { name: sanitize_spec(n), ty: SpecFieldType::Name(t) }), pad_index),
            ),
            _ => Err(SpecGenErr::MissingAttribute("field"@, "name or type"@)),
        }
    } else if c.tag == "pad"@ {
        match spec_attr(c, "bytes"@) {
            Some(b) => match u32_from_dec(b) {
                Some(v) => Ok(
                    (
                        Some(
                            SpecField {
                                name: "pad"@ + dec_str(pad_index),
                                ty: SpecFieldType::Padding(v),
                            },
                        ),
                        pad_index + 1,
                    ),
                ),
                None => Err(SpecGenErr::BadNumber(b)),
            },
            None => Ok((None, pad_index)),
        }
    } else if c.tag == "list"@ {
        let length: Result<SpecLength, SpecGenErr> = if c.children.len() > 0 {
            let expr = c.children[0];
            if expr.tag == "value"@ {
                match expr.text {
                    Some(t) => match u32_from_dec(t) {
                        Some(v) => Ok(SpecLength::Fixed(v)),
                        None => Err(SpecGenErr::BadNumber(t)),
                    },
                    None => Err(SpecGenErr::MissingText("value"@)),
                }
            } else {
                Ok(SpecLength::FieldRef)
            }
        } else {
            Ok(SpecLength::Absent)
        };
        match length {
            Err(e) => Err(e),
            Ok(l) => match (spec_attr(c, "name"@), spec_attr(c, "type"@)) {
                (Some(n), Some(t)) => Ok(
                    (
                        Some(SpecField { name: sanitize_spec(n), ty: SpecFieldType::List(t, l) }),
                        pad_index,
                    ),
                ),
                _ => Err(SpecGenErr::MissingAttribute("list"@, "name or type"@)),
            },
        }
    } else if c.tag == "switch"@ {
        match spec_attr(c, "name"@) {
            Some(n) => Ok(
                (Some(SpecField { name: sanitize_spec(n), ty: SpecFieldType::Switch }), pad_index),
            ),
            None => Err(SpecGenErr::MissingAttribute("switch"@, "name"@)),
        }
    } else if c.tag == "fd"@ {
        match spec_attr(c, "name"@) {
            Some(n) => Ok(
                (Some(SpecField { name: sanitize_spec(n), ty: SpecFieldType::Fd }), pad_index),
            ),
            None => Err(SpecGenErr::MissingAttribute("fd"@, "name"@)),
        }
    } else {
        Ok((None, pad_index))
    }
}

/// The field list contributed by a run of child elements, starting from
/// the given pad counter; the first malformed element's error otherwise.
pub open spec fn spec_parse_fields_from(children: Seq<SpecXml>, pad_index: int) -> Result<
    Seq<SpecField>,
    SpecGenErr,
>
    decreases children.len(),
{
    if children.len() == 0 {
        Ok(Seq::empty())
    } else {
        match spec_parse_one_field(children[0], pad_index) {
            Err(e) => Err(e),
            Ok((fopt, np)) => match spec_parse_fields_from(children.drop_first(), np) {
                Err(e) => Err(e),
                Ok(rest) => match fopt {
                    Some(f) => Ok(seq![f] + rest),
                    None => Ok(rest),
                },
            },
        }
    }
}

pub open spec fn spec_parse_fields(node: SpecXml) -> Result<Seq<SpecField>, SpecGenErr> {
    spec_parse_fields_from(node.children, 0)
}

/// Parses the field list of a structure, union, request, reply, event or
/// error element.
pub fn parse_fields(node: &XmlNode) -> (r: Result<Vec<Field>, GenError>)
    ensures
        match r {
            Ok(v) => spec_parse_fields(node.deep_view()) == Ok::<_, SpecGenErr>(v.deep_view()),
            Err(e) => spec_parse_fields(node.deep_view()) == Err::<Seq<SpecField>, _>(
                e.deep_view(),
            ),
        },
{
    let ghost xv = node.deep_view();
    let mut fields: Vec<Field> = Vec::new();
    let mut pad_index: usize = 0;
    let mut i: usize = 0;
    proof {
        lemma_xml_views(node.children@);
        assert(xv.children.skip(0) =~= xv.children);
    }
    while i < node.children.len()
        invariant
            i <= node.children.len(),
            pad_index <= i,
            xv == node.deep_view(),
            xv.children.len() == node.children.len(),
            forall|k: int|
                0 <= k < node.children@.len() ==> #[trigger] xv.children[k] == node.children@[
                    k].deep_view(),
            spec_parse_fields(xv) == match spec_parse_fields_from(
                xv.children.skip(i as int),
                pad_index as int,
            ) {
                Ok(rest) => Ok::<_, SpecGenErr>(fields.deep_view() + rest),
                Err(e) => Err(e),
            },
        decreases node.children.len() - i,
    {
        let ghost pre = fields.deep_view();
        let ghost pad0 = pad_index as int;
        let ghost cnode = xv.children[i as int];
        proof {
            assert(xv.children.skip(i as int)[0] == xv.children[i as int]);
            assert(xv.children.skip(i as int).drop_first() =~= xv.children.skip(i as int + 1));
        }
        let child = &node.children[i];
        proof {
            assert(cnode == child.deep_view());
        }
        if str_eq(child.tag.as_str(), "field") {
            let name_attr = get_attr(child, "name");
            let type_attr = get_attr(child, "type");
            match (name_attr, type_attr) {
                (Some(n), Some(t)) => {
                    let field_name = String::from_str(sanitize(n.as_str()));
                    fields.push(Field { name: field_name, type_: FieldType::Name(t.clone()) });
                    proof {
                        assert(fields.deep_view() =~= pre + seq![
                            SpecField { name: sanitize_spec(n@), ty: SpecFieldType::Name(t@) },
                        ]);
                    }
                },
                _ => {
                    return Err(
                        GenError::MissingAttribute {
                            element: String::from_str("field"),
                            attribute: String::from_str("name or type"),
                        },
                    );
                },
            }
        } else if str_eq(child.tag.as_str(), "pad") {
            match get_attr(child, "bytes") {
                Some(b) => {
                    match crate::strutil::parse_u32(b.as_str()) {
                        Some(v) => {
                            let mut field_name = String::from_str("pad");
                            let digits = fmt_u64(pad_index as u64);
                            field_name.append(digits.as_str());
                            fields.push(
                                Field { name: field_name, type_: FieldType::Padding(v) },
                            );
                            pad_index = pad_index + 1;
                            proof {
                                assert(fields.deep_view() =~= pre + seq![
                                    SpecField {
                                        name: "pad"@ + dec_str(pad_index - 1),
                                        ty: SpecFieldType::Padding(v),
                                    },
                                ]);
                            }
                        },
                        None => {
                            return Err(GenError::BadNumber { text: b.clone() });
                        },
                    }
                },
                None => {},
            }
        } else if str_eq(child.tag.as_str(), "list") {
            proof {
                lemma_xml_views(child.children@);
            }
            let mut length: Option<Length> = None;
            if child.children.len() > 0 {
                let expr = &child.children[0];
                proof {
                    assert(cnode.children[0] == expr.deep_view());
                }
                if str_eq(expr.tag.as_str(), "value") {
                    match &expr.text {
                        Some(t) => {
                            match crate::strutil::parse_u32(t.as_str()) {
                                Some(v) => {
                                    length = Some(Length::Fixed(v));
                                },
                                None => {
                                    return Err(GenError::BadNumber { text: t.clone() });
                                },
                            }
                        },
                        None => {
                            return Err(
                                GenError::MissingText { element: String::from_str("value") },
                            );
                        },
                    }
                } else {
                    length = Some(Length::FieldRef);
                }
            } else {
                length = Some(Length::Absent);
            }
            let name_attr = get_attr(child, "name");
            let type_attr = get_attr(child, "type");
            match (name_attr, type_attr, length) {
                (Some(n), Some(t), Some(l)) => {
                    let field_name = String::from_str(sanitize(n.as_str()));
                    fields.push(Field { name: field_name, type_: FieldType::List(t.clone(), l) });
                    proof {
                        assert(fields.deep_view() =~= pre + seq![
                            spec_parse_one_field(cnode, pad_index as int)->Ok_0.0.unwrap(),
                        ]);
                    }
                },
                _ => {
                    return Err(
                        GenError::MissingAttribute {
                            element: String::from_str("list"),
                            attribute: String::from_str("name or type"),
                        },
                    );
                },
            }
        } else if str_eq(child.tag.as_str(), "switch") {
            match get_attr(child, "name") {
                Some(n) => {
                    let field_name = String::from_str(sanitize(n.as_str()));
                    fields.push(Field { name: field_name, type_: FieldType::Switch });
                    proof {
                        assert(fields.deep_view() =~= pre + seq![
                            SpecField { name: sanitize_spec(n@), ty: SpecFieldType::Switch },
                        ]);
                    }
                },
                None => {
                    return Err(
                        GenError::MissingAttribute {
                            element: String::from_str("switch"),
                            attribute: String::from_str("name"),
                        },
                    );
                },
            }
        } else if str_eq(child.tag.as_str(), "fd") {
            match get_attr(child, "name") {
                Some(n) => {
                    let field_name = String::from_str(sanitize(n.as_str()));
                    fields.push(Field { name: field_name, type_: FieldType::Fd });
                    proof {
                        assert(fields.deep_view() =~= pre + seq![
                            SpecField { name: sanitize_spec(n@), ty: SpecFieldType::Fd },
                        ]);
                    }
                },
                None => {
                    return Err(
                        GenError::MissingAttribute {
                            element: String::from_str("fd"),
                            attribute: String::from_str("name"),
                        },
                    );
                },
            }
        }
        proof {
            match spec_parse_one_field(cnode, pad0) {
                Ok(p) => {
                    match spec_parse_fields_from(xv.children.skip(i as int + 1), p.1) {
                        Ok(rest) => {
                            match p.0 {
                                Some(f) => {
                                    assert((pre + seq![f]) + rest =~= pre + (seq![f] + rest));
                                },
                                None => {},
                            }
                        },
                        Err(_) => {},
                    }
                },
                Err(_) => {},
            }
        }
        i = i + 1;
    }
    proof {
        assert(xv.children.skip(node.children.len() as int) =~= Seq::<SpecXml>::empty());
    }
    Ok(fields)
}

/// The declaration lists a run of child elements contributes to a module.
pub struct SpecDecls {
    pub imports: Seq<Seq<char>>,
    pub types: Seq<(Seq<char>, crate::ast::SpecType)>,
    pub requests: Seq<crate::ast::SpecRequest>,
    pub events: Seq<crate::ast::SpecEvent>,
    pub errors: Seq<crate::ast::SpecErr>,
}

/// The items of an enumeration: each `item` child carries a literal value
/// or a bit position, which is left-shifted; a bit position of 32 or more,
/// a missing name, a missing choice child or an unrecognized choice is a
/// failure.
pub open spec fn spec_parse_enum_items(children: Seq<SpecXml>) -> Result<
    Seq<(Seq<char>, u32)>,
    SpecGenErr,
>
    decreases children.len(),
{
    if children.len() == 0 {
        Ok(Seq::empty())
    } else {
        let c = children[0];
        if c.tag == "item"@ {
            match spec_attr(c, "name"@) {
                None => Err(SpecGenErr::MissingAttribute("item"@, "name"@)),
                Some(n) => {
                    if c.children.len() == 0 {
                        Err(SpecGenErr::BadDocument(c.tag))
                    } else {
                        let choice = c.children[0];
                        let value: Result<u32, SpecGenErr> = if choice.tag == "value"@ {
                            match choice.text {
                                Some(t) => match u32_from_dec(t) {
                                    Some(v) => Ok(v),
                                    None => Err(SpecGenErr::BadNumber(t)),
                                },
                                None => Err(SpecGenErr::MissingText("value"@)),
                            }
                        } else if choice.tag == "bit"@ {
                            match choice.text {
                                Some(t) => match u32_from_dec(t) {
                                    Some(b) => if b < 32 {
                                        Ok(1u32 << b)
                                    } else {
                                        Err(SpecGenErr::BadNumber(t))
                                    },
                                    None => Err(SpecGenErr::BadNumber(t)),
                                },
                                None => Err(SpecGenErr::MissingText("bit"@)),
                            }
                        } else {
                            Err(SpecGenErr::BadDocument(choice.tag))
                        };
                        match value {
                            Err(e) => Err(e),
                            Ok(v) => match spec_parse_enum_items(children.drop_first()) {
                                Err(e) => Err(e),
                                Ok(rest) => Ok(seq![(n, v)] + rest),
                            },
                        }
                    }
                },
            }
        } else {
            spec_parse_enum_items(children.drop_first())
        }
    }
}

/// The reply of a request: the field list of the last `reply` child, if
/// any; a malformed field list in any reply child is a failure.
pub open spec fn spec_parse_reply(children: Seq<SpecXml>) -> Result<
    Option<Seq<SpecField>>,
    SpecGenErr,
>
    decreases children.len(),
{
    if children.len() == 0 {
        Ok(None)
    } else {
        let c = children[0];
        if c.tag == "reply"@ {
            match spec_parse_fields(c) {
                Err(e) => Err(e),
                Ok(fs) => match spec_parse_reply(children.drop_first()) {
                    Err(e) => Err(e),
                    Ok(rest) => match rest {
                        Some(r) => Ok(Some(r)),
                        None => Ok(Some(fs)),
                    },
                },
            }
        } else {
            spec_parse_reply(children.drop_first())
        }
    }
}

/// A boolean attribute: absent means `false`, anything but `true` or
/// `false` is a failure carrying the malformed text.
pub open spec fn spec_bool_attr(c: SpecXml, name: Seq<char>) -> Result<bool, SpecGenErr> {
    match spec_attr(c, name) {
        None => Ok(false),
        Some(s) => match crate::strutil::bool_from_str_spec(s) {
            Some(b) => Ok(b),
            None => Err(SpecGenErr::BadBool(s)),
        },
    }
}

/// What one child element of the document root contributes, or the exact
/// error a malformed one yields.
pub open spec fn spec_parse_decl(c: SpecXml, acc: SpecDecls) -> Result<SpecDecls, SpecGenErr> {
    if c.tag == "import"@ {
        match c.text {
            Some(t) => Ok(SpecDecls { imports: acc.imports + seq![t], ..acc }),
            None => Err(SpecGenErr::MissingText("import"@)),
        }
    } else if c.tag == "xidtype"@ || c.tag == "xidunion"@ {
        match spec_attr(c, "name"@) {
            Some(n) => Ok(
                SpecDecls {
                    types: crate::ast::spec_insert_sorted(acc.types, n, crate::ast::SpecType::Id),
                    ..acc
                },
            ),
            None => Err(SpecGenErr::MissingAttribute(c.tag, "name"@)),
        }
    } else if c.tag == "enum"@ {
        match spec_attr(c, "name"@) {
            None => Err(SpecGenErr::MissingAttribute("enum"@, "name"@)),
            Some(n) => match spec_parse_enum_items(c.children) {
                Err(e) => Err(e),
                Ok(items) => Ok(
                    SpecDecls {
                        types: crate::ast::spec_insert_sorted(
                            acc.types,
                            n,
                            crate::ast::SpecType::Enum(items),
                        ),
                        ..acc
                    },
                ),
            },
        }
    } else if c.tag == "typedef"@ {
        match (spec_attr(c, "newname"@), spec_attr(c, "oldname"@)) {
            (Some(n), Some(o)) => Ok(
                SpecDecls {
                    types: crate::ast::spec_insert_sorted(
                        acc.types,
                        n,
                        crate::ast::SpecType::TypeDef(o),
                    ),
                    ..acc
                },
            ),
            _ => Err(SpecGenErr::MissingAttribute("typedef"@, "newname or oldname"@)),
        }
    } else if c.tag == "struct"@ {
        match spec_attr(c, "name"@) {
            None => Err(SpecGenErr::MissingAttribute("struct"@, "name"@)),
            Some(n) => match spec_parse_fields(c) {
                Err(e) => Err(e),
                Ok(fs) => Ok(
                    SpecDecls {
                        types: crate::ast::spec_insert_sorted(
                            acc.types,
                            n,
                            crate::ast::SpecType::Struct(fs),
                        ),
                        ..acc
                    },
                ),
            },
        }
    } else if c.tag == "union"@ {
        match spec_attr(c, "name"@) {
            None => Err(SpecGenErr::MissingAttribute("union"@, "name"@)),
            Some(n) => match spec_parse_fields(c) {
                Err(e) => Err(e),
                Ok(fs) => Ok(
                    SpecDecls {
                        types: crate::ast::spec_insert_sorted(
                            acc.types,
                            n,
                            crate::ast::SpecType::Union(fs),
                        ),
                        ..acc
                    },
                ),
            },
        }
    } else if c.tag == "request"@ {
        match (spec_attr(c, "name"@), spec_attr(c, "opcode"@)) {
            (Some(n), Some(op)) => match u32_from_dec(op) {
                None => Err(SpecGenErr::BadNumber(op)),
                Some(opcode) => match spec_parse_fields(c) {
                    Err(e) => Err(e),
                    Ok(fs) => match spec_parse_reply(c.children) {
                        Err(e) => Err(e),
                        Ok(reply) => Ok(
                            SpecDecls {
                                requests: acc.requests + seq![
                                    crate::ast::SpecRequest { name: n, opcode, fields: fs, reply },
                                ],
                                ..acc
                            },
                        ),
                    },
                },
            },
            _ => Err(SpecGenErr::MissingAttribute("request"@, "name or opcode"@)),
        }
    } else if c.tag == "event"@ {
        match (spec_attr(c, "name"@), spec_attr(c, "number"@)) {
            (Some(n), Some(num)) => match u32_from_dec(num) {
                None => Err(SpecGenErr::BadNumber(num)),
                Some(number) => match spec_bool_attr(c, "xge"@) {
                    Err(e) => Err(e),
                    Ok(xge) => match spec_bool_attr(c, "no-sequence-number"@) {
                        Err(e) => Err(e),
                        Ok(noseq) => match spec_parse_fields(c) {
                            Err(e) => Err(e),
                            Ok(fs) => Ok(
                                SpecDecls {
                                    events: acc.events + seq![
                                        crate::ast::SpecEvent {
                                            name: n,
                                            number,
                                            inner: crate::ast::SpecEventInner::Event {
                                                xge,
                                                sequence: !noseq,
                                                fields: fs,
                                            },
                                        },
                                    ],
                                    ..acc
                                },
                            ),
                        },
                    },
                },
            },
            _ => Err(SpecGenErr::MissingAttribute("event"@, "name or number"@)),
        }
    } else if c.tag == "eventcopy"@ {
        match (spec_attr(c, "name"@), spec_attr(c, "number"@), spec_attr(c, "ref"@)) {
            (Some(n), Some(num), Some(rf)) => match u32_from_dec(num) {
                Some(number) => Ok(
                    SpecDecls {
                        events: acc.events + seq![
                            crate::ast::SpecEvent {
                                name: n,
                                number,
                                inner: crate::ast::SpecEventInner::Copy(rf),
                            },
                        ],
                        ..acc
                    },
                ),
                None => Err(SpecGenErr::BadNumber(num)),
            },
            _ => Err(SpecGenErr::MissingAttribute("eventcopy"@, "name, number or ref"@)),
        }
    } else if c.tag == "eventstruct"@ {
        match spec_attr(c, "name"@) {
            None => Err(SpecGenErr::MissingAttribute("eventstruct"@, "name"@)),
            Some(n) => {
                if c.children.len() == 0 {
                    Err(SpecGenErr::BadDocument(c.tag))
                } else {
                    match spec_bool_attr(c, "xge"@) {
                        Err(e) => Err(e),
                        Ok(xge) => {
                            let allowed = c.children[0];
                            match (
                                spec_attr(allowed, "extension"@),
                                spec_attr(allowed, "opcode-min"@),
                                spec_attr(allowed, "opcode-max"@),
                            ) {
                                (Some(ext), Some(lo), Some(hi)) => match u32_from_dec(lo) {
                                    None => Err(SpecGenErr::BadNumber(lo)),
                                    Some(opcode_min) => match u32_from_dec(hi) {
                                        None => Err(SpecGenErr::BadNumber(hi)),
                                        Some(opcode_max) => Ok(
                                            SpecDecls {
                                                types: crate::ast::spec_insert_sorted(
                                                    acc.types,
                                                    n,
                                                    crate::ast::SpecType::EventStruct(
                                                        crate::ast::SpecEventStruct {
                                                            extension: ext,
                                                            xge,
                                                            opcode_min,
                                                            opcode_max,
                                                        },
                                                    ),
                                                ),
                                                ..acc
                                            },
                                        ),
                                    },
                                },
                                _ => Err(
                                    SpecGenErr::MissingAttribute(
                                        "eventstruct"@,
                                        "extension, opcode-min or opcode-max"@,
                                    ),
                                ),
                            }
                        },
                    }
                }
            },
        }
    } else if c.tag == "error"@ {
        match (spec_attr(c, "name"@), spec_attr(c, "number"@)) {
            (Some(n), Some(num)) => {
                let number: Result<u32, SpecGenErr> = if num == "-1"@ {
                    Ok(255u32)
                } else {
                    match u32_from_dec(num) {
                        Some(v) => Ok(v),
                        None => Err(SpecGenErr::BadNumber(num)),
                    }
                };
                match number {
                    Err(e) => Err(e),
                    Ok(nv) => match spec_parse_fields(c) {
                        Err(e) => Err(e),
                        Ok(fs) => Ok(
                            SpecDecls {
                                errors: acc.errors + seq![
                                    crate::ast::SpecErr {
                                        name: n,
                                        number: nv,
                                        inner: crate::ast::SpecErrInner::Error(fs),
                                    },
                                ],
                                ..acc
                            },
                        ),
                    },
                }
            },
            _ => Err(SpecGenErr::MissingAttribute("error"@, "name or number"@)),
        }
    } else if c.tag == "errorcopy"@ {
        match (spec_attr(c, "name"@), spec_attr(c, "number"@), spec_attr(c, "ref"@)) {
            (Some(n), Some(num), Some(rf)) => match u32_from_dec(num) {
                Some(number) => Ok(
                    SpecDecls {
                        errors: acc.errors + seq![
                            crate::ast::SpecErr {
                                name: n,
                                number,
                                inner: crate::ast::SpecErrInner::Copy(rf),
                            },
                        ],
                        ..acc
                    },
                ),
                None => Err(SpecGenErr::BadNumber(num)),
            },
            _ => Err(SpecGenErr::MissingAttribute("errorcopy"@, "name, number or ref"@)),
        }
    } else {
        Ok(acc)
    }
}

pub open spec fn spec_parse_decls(children: Seq<SpecXml>, acc: SpecDecls) -> Result<
    SpecDecls,
    SpecGenErr,
>
    decreases children.len(),
{
    if children.len() == 0 {
        Ok(acc)
    } else {
        match spec_parse_decl(children[0], acc) {
            Err(e) => Err(e),
            Ok(a2) => spec_parse_decls(children.drop_first(), a2),
        }
    }
}

/// What parsing one document yields: the module record, or the exact
/// error — a root element that is not `xcb`, or the first malformed
/// declaration in it.
pub open spec fn spec_parse_module(root: SpecXml) -> Result<crate::ast::SpecModule, SpecGenErr> {
    if root.tag != "xcb"@ {
        Err(SpecGenErr::BadDocument(root.tag))
    } else {
        match spec_parse_decls(
            root.children,
            SpecDecls {
                imports: Seq::empty(),
                types: Seq::empty(),
                requests: Seq::empty(),
                events: Seq::empty(),
                errors: Seq::empty(),
            },
        ) {
            Err(e) => Err(e),
            Ok(d) => Ok(
                crate::ast::SpecModule {
                    extension_name: spec_attr(root, "extension-name"@),
                    major_version: spec_attr(root, "major-version"@),
                    minor_version: spec_attr(root, "minor-version"@),
                    imports: d.imports,
                    types: d.types,
                    requests: d.requests,
                    events: d.events,
                    errors: d.errors,
                },
            ),
        }
    }
}

pub fn parse_enum_items(c: &XmlNode) -> (r: Result<Vec<(String, u32)>, GenError>)
    ensures
        match r {
            Ok(v) => spec_parse_enum_items(c.deep_view().children) == Ok::<_, SpecGenErr>(
                v.deep_view(),
            ),
            Err(e) => spec_parse_enum_items(c.deep_view().children) == Err::<
                Seq<(Seq<char>, u32)>,
                _,
            >(e.deep_view()),
        },
{
    let ghost xv = c.deep_view();
    let mut items: Vec<(String, u32)> = Vec::new();
    let mut j: usize = 0;
    proof {
        lemma_xml_views(c.children@);
        assert(xv.children.skip(0) =~= xv.children);
    }
    while j < c.children.len()
        invariant
            j <= c.children.len(),
            xv == c.deep_view(),
            xv.children.len() == c.children.len(),
            forall|k: int|
                0 <= k < c.children@.len() ==> #[trigger] xv.children[k] == c.children@[
                    k].deep_view(),
            spec_parse_enum_items(xv.children) == match spec_parse_enum_items(
                xv.children.skip(j as int),
            ) {
                Ok(rest) => Ok::<_, SpecGenErr>(items.deep_view() + rest),
                Err(e) => Err(e),
            },
        decreases c.children.len() - j,
    {
        let ghost pre = items.deep_view();
        let ghost inode = xv.children[j as int];
        proof {
            assert(xv.children.skip(j as int)[0] == xv.children[j as int]);
            assert(xv.children.skip(j as int).drop_first() =~= xv.children.skip(j as int + 1));
        }
        let item = &c.children[j];
        proof {
            assert(inode == item.deep_view());
        }
        if str_eq(item.tag.as_str(), "item") {
            let name_attr = get_attr(item, "name");
            match name_attr {
                None => {
                    return Err(
                        GenError::MissingAttribute {
                            element: String::from_str("item"),
                            attribute: String::from_str("name"),
                        },
                    );
                },
                Some(n) => {
                    if item.children.len() == 0 {
                        proof {
                            lemma_xml_views(item.children@);
                        }
                        return Err(GenError::BadDocument { element: item.tag.clone() });
                    }
                    proof {
                        lemma_xml_views(item.children@);
                        assert(inode.children[0] == item.children@[0].deep_view());
                    }
                    let choice = &item.children[0];
                    let value: u32;
                    if str_eq(choice.tag.as_str(), "value") {
                        match &choice.text {
                            Some(t) => match crate::strutil::parse_u32(t.as_str()) {
                                Some(v) => {
                                    value = v;
                                },
                                None => {
                                    return Err(GenError::BadNumber { text: t.clone() });
                                },
                            },
                            None => {
                                return Err(
                                    GenError::MissingText { element: String::from_str("value") },
                                );
                            },
                        }
                    } else if str_eq(choice.tag.as_str(), "bit") {
                        match &choice.text {
                            Some(t) => match crate::strutil::parse_u32(t.as_str()) {
                                Some(b) => {
                                    if b < 32 {
                                        value = 1u32 << b;
                                    } else {
                                        return Err(GenError::BadNumber { text: t.clone() });
                                    }
                                },
                                None => {
                                    return Err(GenError::BadNumber { text: t.clone() });
                                },
                            },
                            None => {
                                return Err(
                                    GenError::MissingText { element: String::from_str("bit") },
                                );
                            },
                        }
                    } else {
                        return Err(GenError::BadDocument { element: choice.tag.clone() });
                    }
                    items.push((n.clone(), value));
                    proof {
                        assert(items.deep_view() =~= pre + seq![(n@, value)]);
                        match spec_parse_enum_items(xv.children.skip(j as int + 1)) {
                            Ok(rest) => {
                                assert((pre + seq![(n@, value)]) + rest =~= pre + (seq![
                                    (n@, value),
                                ] + rest));
                            },
                            Err(_) => {},
                        }
                    }
                },
            }
        }
        j = j + 1;
    }
    proof {
        assert(xv.children.skip(c.children.len() as int) =~= Seq::<SpecXml>::empty());
    }
    Ok(items)
}

pub fn parse_reply(c: &XmlNode) -> (r: Result<Option<crate::ast::Reply>, GenError>)
    ensures
        match r {
            Ok(o) => spec_parse_reply(c.deep_view().children) == Ok::<_, SpecGenErr>(o.deep_view()),
            Err(e) => spec_parse_reply(c.deep_view().children) == Err::<Option<Seq<SpecField>>, _>(
                e.deep_view(),
            ),
        },
{
    let ghost xv = c.deep_view();
    let mut reply: Option<crate::ast::Reply> = None;
    let mut j: usize = 0;
    proof {
        lemma_xml_views(c.children@);
        assert(xv.children.skip(0) =~= xv.children);
    }
    while j < c.children.len()
        invariant
            j <= c.children.len(),
            xv == c.deep_view(),
            xv.children.len() == c.children.len(),
            forall|k: int|
                0 <= k < c.children@.len() ==> #[trigger] xv.children[k] == c.children@[
                    k].deep_view(),
            spec_parse_reply(xv.children) == match spec_parse_reply(xv.children.skip(j as int)) {
                Ok(rest) => Ok::<_, SpecGenErr>(
                    match rest {
                        Some(rr) => Some(rr),
                        None => reply.deep_view(),
                    },
                ),
                Err(e) => Err(e),
            },
        decreases c.children.len() - j,
    {
        let ghost cnode = xv.children[j as int];
        proof {
            assert(xv.children.skip(j as int)[0] == xv.children[j as int]);
            assert(xv.children.skip(j as int).drop_first() =~= xv.children.skip(j as int + 1));
        }
        let node = &c.children[j];
        proof {
            assert(cnode == node.deep_view());
        }
        if str_eq(node.tag.as_str(), "reply") {
            match parse_fields(node) {
                Ok(fs) => {
                    reply = Some(crate::ast::Reply { fields: fs });
                },
                Err(e) => {
                    return Err(e);
                },
            }
        }
        j = j + 1;
    }
    proof {
        assert(xv.children.skip(c.children.len() as int) =~= Seq::<SpecXml>::empty());
    }
    Ok(reply)
}

/// Parses one protocol description document into a module record.
#[verifier::rlimit(100)]
#[verifier::spinoff_prover]
pub fn parse_module(root: &XmlNode) -> (r: Result<crate::ast::Module, GenError>)
    ensures
        match r {
            Ok(m) => spec_parse_module(root.deep_view()) == Ok::<_, SpecGenErr>(m.deep_view()),
            Err(e) => spec_parse_module(root.deep_view()) == Err::<crate::ast::SpecModule, _>(
                e.deep_view(),
            ),
        },
{
    let ghost xv = root.deep_view();
    if !str_eq(root.tag.as_str(), "xcb") {
        return Err(GenError::BadDocument { element: root.tag.clone() });
    }
    let ghost init = SpecDecls {
        imports: Seq::empty(),
        types: Seq::empty(),
        requests: Seq::empty(),
        events: Seq::empty(),
        errors: Seq::empty(),
    };
    let mut imports: Vec<String> = Vec::new();
    let mut types: Vec<(String, crate::ast::Type)> = Vec::new();
    let mut requests: Vec<crate::ast::Request> = Vec::new();
    let mut events: Vec<crate::ast::Event> = Vec::new();
    let mut errors: Vec<crate::ast::Error> = Vec::new();
    proof {
        lemma_xml_views(root.children@);
        assert(imports.deep_view() =~= init.imports);
        assert(types.deep_view() =~= init.types);
        assert(requests.deep_view() =~= init.requests);
        assert(events.deep_view() =~= init.events);
        assert(errors.deep_view() =~= init.errors);
        assert(xv.children.skip(0) =~= xv.children);
    }
    let mut i: usize = 0;
    while i < root.children.len()
        invariant
            i <= root.children.len(),
            xv == root.deep_view(),
            xv.tag == "xcb"@,
            xv.children.len() == root.children.len(),
            forall|k: int|
                0 <= k < root.children@.len() ==> #[trigger] xv.children[k] == root.children@[
                    k].deep_view(),
            init == (SpecDecls {
                imports: Seq::<Seq<char>>::empty(),
                types: Seq::<(Seq<char>, crate::ast::SpecType)>::empty(),
                requests: Seq::<crate::ast::SpecRequest>::empty(),
                events: Seq::<crate::ast::SpecEvent>::empty(),
                errors: Seq::<crate::ast::SpecErr>::empty(),
            }),
            spec_parse_decls(xv.children, init) == spec_parse_decls(
                xv.children.skip(i as int),
                SpecDecls {
                    imports: imports.deep_view(),
                    types: types.deep_view(),
                    requests: requests.deep_view(),
                    events: events.deep_view(),
                    errors: errors.deep_view(),
                },
            ),
        decreases root.children.len() - i,
    {
        let ghost cur = SpecDecls {
            imports: imports.deep_view(),
            types: types.deep_view(),
            requests: requests.deep_view(),
            events: events.deep_view(),
            errors: errors.deep_view(),
        };
        let ghost node = xv.children[i as int];
        proof {
            assert(xv.children.skip(i as int)[0] == xv.children[i as int]);
            assert(xv.children.skip(i as int).drop_first() =~= xv.children.skip(i as int + 1));
        }
        let child = &root.children[i];
        proof {
            assert(node == child.deep_view());
        }
        if str_eq(child.tag.as_str(), "import") {
            match &child.text {
                Some(t) => {
                    imports.push(t.clone());
                    proof {
                        assert(imports.deep_view() =~= cur.imports + seq![t@]);
                    }
                },
                None => {
                    let e = GenError::MissingText { element: String::from_str("import") };
                    proof {
                        assert(spec_parse_decl(node, cur) == Err::<SpecDecls, _>(e.deep_view()));
                    }
                    return Err(e);
                },
            }
        } else if str_eq(child.tag.as_str(), "xidtype") || str_eq(child.tag.as_str(), "xidunion") {
            match get_attr(child, "name") {
                Some(n) => {
                    crate::ast::insert_sorted(&mut types, n.clone(), crate::ast::Type::Id);
                },
                None => {
                    let e = GenError::MissingAttribute {
                        element: child.tag.clone(),
                        attribute: String::from_str("name"),
                    };
                    proof {
                        assert(spec_parse_decl(node, cur) == Err::<SpecDecls, _>(e.deep_view()));
                    }
                    return Err(e);
                },
            }
        } else if str_eq(child.tag.as_str(), "enum") {
            let name_attr = get_attr(child, "name");
            match name_attr {
                Some(n) => {
                    match parse_enum_items(child) {
                        Ok(items) => {
                            crate::ast::insert_sorted(
                                &mut types,
                                n.clone(),
                                crate::ast::Type::Enum { items },
                            );
                        },
                        Err(e) => {
                            proof {
                                assert(spec_parse_decl(node, cur) == Err::<SpecDecls, _>(
                                    e.deep_view(),
                                ));
                            }
                            return Err(e);
                        },
                    }
                },
                None => {
                    let e = GenError::MissingAttribute {
                        element: String::from_str("enum"),
                        attribute: String::from_str("name"),
                    };
                    proof {
                        assert(spec_parse_decl(node, cur) == Err::<SpecDecls, _>(e.deep_view()));
                    }
                    return Err(e);
                },
            }
        } else if str_eq(child.tag.as_str(), "typedef") {
            let newname = get_attr(child, "newname");
            let oldname = get_attr(child, "oldname");
            match (newname, oldname) {
                (Some(n), Some(o)) => {
                    crate::ast::insert_sorted(
                        &mut types,
                        n.clone(),
                        crate::ast::Type::TypeDef { value: o.clone() },
                    );
                },
                _ => {
                    let e = GenError::MissingAttribute {
                        element: String::from_str("typedef"),
                        attribute: String::from_str("newname or oldname"),
                    };
                    proof {
                        assert(spec_parse_decl(node, cur) == Err::<SpecDecls, _>(e.deep_view()));
                    }
                    return Err(e);
                },
            }
        } else if str_eq(child.tag.as_str(), "struct") {
            let name_attr = get_attr(child, "name");
            match name_attr {
                Some(n) => {
                    match parse_fields(child) {
                        Ok(fields) => {
                            crate::ast::insert_sorted(
                                &mut types,
                                n.clone(),
                                crate::ast::Type::Struct { fields },
                            );
                        },
                        Err(e) => {
                            proof {
                                assert(spec_parse_decl(node, cur) == Err::<SpecDecls, _>(
                                    e.deep_view(),
                                ));
                            }
                            return Err(e);
                        },
                    }
                },
                None => {
                    let e = GenError::MissingAttribute {
                        element: String::from_str("struct"),
                        attribute: String::from_str("name"),
                    };
                    proof {
                        assert(spec_parse_decl(node, cur) == Err::<SpecDecls, _>(e.deep_view()));
                    }
                    return Err(e);
                },
            }
        } else if str_eq(child.tag.as_str(), "union") {
            let name_attr = get_attr(child, "name");
            match name_attr {
                Some(n) => {
                    match parse_fields(child) {
                        Ok(fields) => {
                            crate::ast::insert_sorted(
                                &mut types,
                                n.clone(),
                                crate::ast::Type::Union { fields },
                            );
                        },
                        Err(e) => {
                            proof {
                                assert(spec_parse_decl(node, cur) == Err::<SpecDecls, _>(
                                    e.deep_view(),
                                ));
                            }
                            return Err(e);
                        },
                    }
                },
                None => {
                    let e = GenError::MissingAttribute {
                        element: String::from_str("union"),
                        attribute: String::from_str("name"),
                    };
                    proof {
                        assert(spec_parse_decl(node, cur) == Err::<SpecDecls, _>(e.deep_view()));
                    }
                    return Err(e);
                },
            }
        } else if str_eq(child.tag.as_str(), "request") {
            let name_attr = get_attr(child, "name");
            let opcode_attr = get_attr(child, "opcode");
            match (name_attr, opcode_attr) {
                (Some(n), Some(op)) => {
                    let opcode = match crate::strutil::parse_u32(op.as_str()) {
                        Some(v) => v,
                        None => {
                            let e = GenError::BadNumber { text: op.clone() };
                            proof {
                                assert(spec_parse_decl(node, cur) == Err::<SpecDecls, _>(
                                    e.deep_view(),
                                ));
                            }
                            return Err(e);
                        },
                    };
                    let fields = match parse_fields(child) {
                        Ok(fs) => fs,
                        Err(e) => {
                            proof {
                                assert(spec_parse_decl(node, cur) == Err::<SpecDecls, _>(
                                    e.deep_view(),
                                ));
                            }
                            return Err(e);
                        },
                    };
                    let reply = match parse_reply(child) {
                        Ok(o) => o,
                        Err(e) => {
                            proof {
                                assert(spec_parse_decl(node, cur) == Err::<SpecDecls, _>(
                                    e.deep_view(),
                                ));
                            }
                            return Err(e);
                        },
                    };
                    requests.push(crate::ast::Request { name: n.clone(), opcode, fields, reply });
                    proof {
                        assert(requests.deep_view() =~= cur.requests + seq![
                            requests.deep_view()[requests.deep_view().len() - 1],
                        ]);
                    }
                },
                _ => {
                    let e = GenError::MissingAttribute {
                        element: String::from_str("request"),
                        attribute: String::from_str("name or opcode"),
                    };
                    proof {
                        assert(spec_parse_decl(node, cur) == Err::<SpecDecls, _>(e.deep_view()));
                    }
                    return Err(e);
                },
            }
        } else if str_eq(child.tag.as_str(), "event") {
            let name_attr = get_attr(child, "name");
            let number_attr = get_attr(child, "number");
            match (name_attr, number_attr) {
                (Some(n), Some(num)) => {
                    let number = match crate::strutil::parse_u32(num.as_str()) {
                        Some(v) => v,
                        None => {
                            let e = GenError::BadNumber { text: num.clone() };
                            proof {
                                assert(spec_parse_decl(node, cur) == Err::<SpecDecls, _>(
                                    e.deep_view(),
                                ));
                            }
                            return Err(e);
                        },
                    };
                    let xge = match bool_attr(child, "xge") {
                        Ok(b) => b,
                        Err(e) => {
                            proof {
                                assert(spec_parse_decl(node, cur) == Err::<SpecDecls, _>(
                                    e.deep_view(),
                                ));
                            }
                            return Err(e);
                        },
                    };
                    let noseq = match bool_attr(child, "no-sequence-number") {
                        Ok(b) => b,
                        Err(e) => {
                            proof {
                                assert(spec_parse_decl(node, cur) == Err::<SpecDecls, _>(
                                    e.deep_view(),
                                ));
                            }
                            return Err(e);
                        },
                    };
                    let fields = match parse_fields(child) {
                        Ok(fs) => fs,
                        Err(e) => {
                            proof {
                                assert(spec_parse_decl(node, cur) == Err::<SpecDecls, _>(
                                    e.deep_view(),
                                ));
                            }
                            return Err(e);
                        },
                    };
                    events.push(
                        crate::ast::Event {
                            name: n.clone(),
                            number,
                            inner: crate::ast::EventInner::Event {
                                xge,
                                sequence: !noseq,
                                fields,
                            },
                        },
                    );
                    proof {
                        assert(events.deep_view() =~= cur.events + seq![
                            events.deep_view()[events.deep_view().len() - 1],
                        ]);
                    }
                },
                _ => {
                    let e = GenError::MissingAttribute {
                        element: String::from_str("event"),
                        attribute: String::from_str("name or number"),
                    };
                    proof {
                        assert(spec_parse_decl(node, cur) == Err::<SpecDecls, _>(e.deep_view()));
                    }
                    return Err(e);
                },
            }
        } else if str_eq(child.tag.as_str(), "eventcopy") {
            let name_attr = get_attr(child, "name");
            let number_attr = get_attr(child, "number");
            let ref_attr = get_attr(child, "ref");
            match (name_attr, number_attr, ref_attr) {
                (Some(n), Some(num), Some(rf)) => {
                    let number = match crate::strutil::parse_u32(num.as_str()) {
                        Some(v) => v,
                        None => {
                            let e = GenError::BadNumber { text: num.clone() };
                            proof {
                                assert(spec_parse_decl(node, cur) == Err::<SpecDecls, _>(
                                    e.deep_view(),
                                ));
                            }
                            return Err(e);
                        },
                    };
                    events.push(
                        crate::ast::Event {
                            name: n.clone(),
                            number,
                            inner: crate::ast::EventInner::Copy { ref_: rf.clone() },
                        },
                    );
                    proof {
                        assert(events.deep_view() =~= cur.events + seq![
                            events.deep_view()[events.deep_view().len() - 1],
                        ]);
                    }
                },
                _ => {
                    let e = GenError::MissingAttribute {
                        element: String::from_str("eventcopy"),
                        attribute: String::from_str("name, number or ref"),
                    };
                    proof {
                        assert(spec_parse_decl(node, cur) == Err::<SpecDecls, _>(e.deep_view()));
                    }
                    return Err(e);
                },
            }
        } else if str_eq(child.tag.as_str(), "eventstruct") {
            let name_attr = get_attr(child, "name");
            match name_attr {
                Some(n) => {
                    if child.children.len() == 0 {
                        let e = GenError::BadDocument { element: child.tag.clone() };
                        proof {
                            lemma_xml_views(child.children@);
                            assert(spec_parse_decl(node, cur) == Err::<SpecDecls, _>(
                                e.deep_view(),
                            ));
                        }
                        return Err(e);
                    }
                    let xge = match bool_attr(child, "xge") {
                        Ok(b) => b,
                        Err(e) => {
                            proof {
                                lemma_xml_views(child.children@);
                                assert(spec_parse_decl(node, cur) == Err::<SpecDecls, _>(
                                    e.deep_view(),
                                ));
                            }
                            return Err(e);
                        },
                    };
                    proof {
                        lemma_xml_views(child.children@);
                        assert(node.children[0] == child.children@[0].deep_view());
                    }
                    let allowed = &child.children[0];
                    let ext_attr = get_attr(allowed, "extension");
                    let lo_attr = get_attr(allowed, "opcode-min");
                    let hi_attr = get_attr(allowed, "opcode-max");
                    match (ext_attr, lo_attr, hi_attr) {
                        (Some(ext), Some(lo), Some(hi)) => {
                            let opcode_min = match crate::strutil::parse_u32(lo.as_str()) {
                                Some(v) => v,
                                None => {
                                    let e = GenError::BadNumber { text: lo.clone() };
                                    proof {
                                        assert(spec_parse_decl(node, cur) == Err::<SpecDecls, _>(
                                            e.deep_view(),
                                        ));
                                    }
                                    return Err(e);
                                },
                            };
                            let opcode_max = match crate::strutil::parse_u32(hi.as_str()) {
                                Some(v) => v,
                                None => {
                                    let e = GenError::BadNumber { text: hi.clone() };
                                    proof {
                                        assert(spec_parse_decl(node, cur) == Err::<SpecDecls, _>(
                                            e.deep_view(),
                                        ));
                                    }
                                    return Err(e);
                                },
                            };
                            crate::ast::insert_sorted(
                                &mut types,
                                n.clone(),
                                crate::ast::Type::EventStruct(
                                    crate::ast::EventStruct {
                                        extension: ext.clone(),
                                        xge,
                                        opcode_min,
                                        opcode_max,
                                    },
                                ),
                            );
                        },
                        _ => {
                            let e = GenError::MissingAttribute {
                                element: String::from_str("eventstruct"),
                                attribute: String::from_str("extension, opcode-min or opcode-max"),
                            };
                            proof {
                                assert(spec_parse_decl(node, cur) == Err::<SpecDecls, _>(
                                    e.deep_view(),
                                ));
                            }
                            return Err(e);
                        },
                    }
                },
                None => {
                    let e = GenError::MissingAttribute {
                        element: String::from_str("eventstruct"),
                        attribute: String::from_str("name"),
                    };
                    proof {
                        assert(spec_parse_decl(node, cur) == Err::<SpecDecls, _>(e.deep_view()));
                    }
                    return Err(e);
                },
            }
        } else if str_eq(child.tag.as_str(), "error") {
            let name_attr = get_attr(child, "name");
            let number_attr = get_attr(child, "number");
            match (name_attr, number_attr) {
                (Some(n), Some(num)) => {
                    let number: u32;
                    if str_eq(num.as_str(), "-1") {
                        number = 255;
                    } else {
                        match crate::strutil::parse_u32(num.as_str()) {
                            Some(v) => {
                                number = v;
                            },
                            None => {
                                let e = GenError::BadNumber { text: num.clone() };
                                proof {
                                    assert(spec_parse_decl(node, cur) == Err::<SpecDecls, _>(
                                        e.deep_view(),
                                    ));
                                }
                                return Err(e);
                            },
                        }
                    }
                    let fields = match parse_fields(child) {
                        Ok(fs) => fs,
                        Err(e) => {
                            proof {
                                assert(spec_parse_decl(node, cur) == Err::<SpecDecls, _>(
                                    e.deep_view(),
                                ));
                            }
                            return Err(e);
                        },
                    };
                    errors.push(
                        crate::ast::Error {
                            name: n.clone(),
                            number,
                            inner: crate::ast::ErrorInner::Error { fields },
                        },
                    );
                    proof {
                        assert(errors.deep_view() =~= cur.errors + seq![
                            errors.deep_view()[errors.deep_view().len() - 1],
                        ]);
                    }
                },
                _ => {
                    let e = GenError::MissingAttribute {
                        element: String::from_str("error"),
                        attribute: String::from_str("name or number"),
                    };
                    proof {
                        assert(spec_parse_decl(node, cur) == Err::<SpecDecls, _>(e.deep_view()));
                    }
                    return Err(e);
                },
            }
        } else if str_eq(child.tag.as_str(), "errorcopy") {
            let name_attr = get_attr(child, "name");
            let number_attr = get_attr(child, "number");
            let ref_attr = get_attr(child, "ref");
            match (name_attr, number_attr, ref_attr) {
                (Some(n), Some(num), Some(rf)) => {
                    let number = match crate::strutil::parse_u32(num.as_str()) {
                        Some(v) => v,
                        None => {
                            let e = GenError::BadNumber { text: num.clone() };
                            proof {
                                assert(spec_parse_decl(node, cur) == Err::<SpecDecls, _>(
                                    e.deep_view(),
                                ));
                            }
                            return Err(e);
                        },
                    };
                    errors.push(
                        crate::ast::Error {
                            name: n.clone(),
                            number,
                            inner: crate::ast::ErrorInner::Copy { ref_: rf.clone() },
                        },
                    );
                    proof {
                        assert(errors.deep_view() =~= cur.errors + seq![
                            errors.deep_view()[errors.deep_view().len() - 1],
                        ]);
                    }
                },
                _ => {
                    let e = GenError::MissingAttribute {
                        element: String::from_str("errorcopy"),
                        attribute: String::from_str("name, number or ref"),
                    };
                    proof {
                        assert(spec_parse_decl(node, cur) == Err::<SpecDecls, _>(e.deep_view()));
                    }
                    return Err(e);
                },
            }
        }
        proof {
            let next = SpecDecls {
                imports: imports.deep_view(),
                types: types.deep_view(),
                requests: requests.deep_view(),
                events: events.deep_view(),
                errors: errors.deep_view(),
            };
            assert(spec_parse_decl(node, cur) == Ok::<_, SpecGenErr>(next));
        }
        i = i + 1;
    }
    proof {
        assert(xv.children.skip(root.children.len() as int) =~= Seq::<SpecXml>::empty());
    }
    let extension_name = match get_attr(root, "extension-name") {
        Some(s) => Some(s.clone()),
        None => None,
    };
    let major_version = match get_attr(root, "major-version") {
        Some(s) => Some(s.clone()),
        None => None,
    };
    let minor_version = match get_attr(root, "minor-version") {
        Some(s) => Some(s.clone()),
        None => None,
    };
    Ok(
        crate::ast::Module {
            extension_name,
            major_version,
            minor_version,
            imports,
            types,
            requests,
            events,
            errors,
        },
    )
}

pub fn bool_attr(c: &XmlNode, name: &str) -> (r: Result<bool, GenError>)
    ensures
        match r {
            Ok(b) => spec_bool_attr(c.deep_view(), name@) == Ok::<_, SpecGenErr>(b),
            Err(e) => spec_bool_attr(c.deep_view(), name@) == Err::<bool, _>(e.deep_view()),
        },
{
    match get_attr(c, name) {
        None => Ok(false),
        Some(s) => match crate::strutil::parse_bool(s.as_str()) {
            Some(b) => Ok(b),
            None => Err(GenError::BadBool { text: s.clone() }),
        },
    }
}

} // verus!
