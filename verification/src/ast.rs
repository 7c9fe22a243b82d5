//! The abstract syntax tree of a generation run: the parsed modules with
//! their types, requests, events and errors, the table of built-in primitive
//! types, and the services the emitter relies on — resolving a type
//! reference to its declaring module and canonical name, and computing the
//! byte size and alignment of a type or field.

use vstd::prelude::*;

verus! {

use vstd::string::StrSliceExecFns;
use vstd::string::StringExecFns;
use crate::names::convert_ext_spec;
use crate::names::convert_extension_name;
use crate::names::convert_name;
use crate::names::convert_name_spec;
use crate::strutil::str_eq;
use crate::strutil::str_lt;

/// How the length of a list field is given: a fixed literal count, a
/// run-time expression (treated as unknown), or nothing at all.
#[derive(Debug)]
pub enum Length {
    Fixed(u32),
    FieldRef,
    Absent,
}

#[derive(Debug)]
pub enum FieldType {
    /// A value field holding a reference to another type.
    Name(String),
    /// Explicit filler bytes.
    Padding(u32),
    /// A repetition of a type.
    List(String, Length),
    /// A variant-selected payload, rendered opaquely.
    Switch,
    /// A file descriptor, passed out of band.
    Fd,
}

#[derive(Debug)]
pub struct Field {
    pub name: String,
    pub type_: FieldType,
}

#[derive(Debug)]
pub struct EventStruct {
    pub extension: String,
    pub xge: bool,
    pub opcode_min: u32,
    pub opcode_max: u32,
}

#[derive(Debug)]
pub enum Type {
    /// An opaque resource handle: 4 bytes, 4-byte aligned.
    Id,
    /// A set of named constants over a 4-byte underlying type.
    Enum { items: Vec<(String, u32)> },
    /// An alias to another type reference.
    TypeDef { value: String },
    Struct { fields: Vec<Field> },
    Union { fields: Vec<Field> },
    /// A synthetic union aggregating the events of one extension.
    EventStruct(EventStruct),
}

#[derive(Debug)]
pub struct Reply {
    pub fields: Vec<Field>,
}

#[derive(Debug)]
pub struct Request {
    pub name: String,
    pub opcode: u32,
    pub fields: Vec<Field>,
    pub reply: Option<Reply>,
}

#[derive(Debug)]
pub enum EventInner {
    Event { xge: bool, sequence: bool, fields: Vec<Field> },
    Copy { ref_: String },
}

#[derive(Debug)]
pub struct Event {
    pub name: String,
    pub number: u32,
    pub inner: EventInner,
}

#[derive(Debug)]
pub enum ErrorInner {
    Error { fields: Vec<Field> },
    Copy { ref_: String },
}

#[derive(Debug)]
pub struct Error {
    pub name: String,
    pub number: u32,
    pub inner: ErrorInner,
}

#[derive(Debug)]
pub struct Module {
    pub extension_name: Option<String>,
    pub major_version: Option<String>,
    pub minor_version: Option<String>,
    pub imports: Vec<String>,
    /// Declared types, keyed by name, sorted by name, without duplicates.
    pub types: Vec<(String, Type)>,
    pub requests: Vec<Request>,
    pub events: Vec<Event>,
    pub errors: Vec<Error>,
}

/// A built-in primitive type: its rendered name and its byte size.
#[derive(Debug)]
pub struct Prim {
    pub name: String,
    pub size: u32,
}

#[derive(Debug)]
pub struct Ast {
    /// The fixed table of built-in primitive types.
    pub global_types: Vec<(String, Prim)>,
    /// The parsed modules, keyed by name, sorted by name, without duplicates.
    pub modules: Vec<(String, Module)>,
}

// ---------------------------------------------------------------------------
// Ghost mirrors of the tree, used by every contract.

pub enum SpecLength {
    Fixed(u32),
    FieldRef,
    Absent,
}

pub enum SpecFieldType {
    Name(Seq<char>),
    Padding(u32),
    List(Seq<char>, SpecLength),
    Switch,
    Fd,
}

pub struct SpecField {
    pub name: Seq<char>,
    pub ty: SpecFieldType,
}

pub struct SpecEventStruct {
    pub extension: Seq<char>,
    pub xge: bool,
    pub opcode_min: u32,
    pub opcode_max: u32,
}

pub enum SpecType {
    Id,
    Enum(Seq<(Seq<char>, u32)>),
    TypeDef(Seq<char>),
    Struct(Seq<SpecField>),
    Union(Seq<SpecField>),
    EventStruct(SpecEventStruct),
}

pub struct SpecRequest {
    pub name: Seq<char>,
    pub opcode: u32,
    pub fields: Seq<SpecField>,
    pub reply: Option<Seq<SpecField>>,
}

pub enum SpecEventInner {
    Event { xge: bool, sequence: bool, fields: Seq<SpecField> },
    Copy(Seq<char>),
}

pub struct SpecEvent {
    pub name: Seq<char>,
    pub number: u32,
    pub inner: SpecEventInner,
}

pub enum SpecErrInner {
    Error(Seq<SpecField>),
    Copy(Seq<char>),
}

pub struct SpecErr {
    pub name: Seq<char>,
    pub number: u32,
    pub inner: SpecErrInner,
}

pub struct SpecModule {
    pub extension_name: Option<Seq<char>>,
    pub major_version: Option<Seq<char>>,
    pub minor_version: Option<Seq<char>>,
    pub imports: Seq<Seq<char>>,
    pub types: Seq<(Seq<char>, SpecType)>,
    pub requests: Seq<SpecRequest>,
    pub events: Seq<SpecEvent>,
    pub errors: Seq<SpecErr>,
}

pub struct SpecPrim {
    pub name: Seq<char>,
    pub size: u32,
}

pub struct SpecAst {
    pub global_types: Seq<(Seq<char>, SpecPrim)>,
    pub modules: Seq<(Seq<char>, SpecModule)>,
}

impl DeepView for Length {
    type V = SpecLength;

    open spec fn deep_view(&self) -> SpecLength {
        match self {
            Length::Fixed(n) => SpecLength::Fixed(*n),
            Length::FieldRef => SpecLength::FieldRef,
            Length::Absent => SpecLength::Absent,
        }
    }
}

impl DeepView for FieldType {
    type V = SpecFieldType;

    open spec fn deep_view(&self) -> SpecFieldType {
        match self {
            FieldType::Name(s) => SpecFieldType::Name(s.deep_view()),
            FieldType::Padding(n) => SpecFieldType::Padding(*n),
            FieldType::List(s, l) => SpecFieldType::List(s.deep_view(), l.deep_view()),
            FieldType::Switch => SpecFieldType::Switch,
            FieldType::Fd => SpecFieldType::Fd,
        }
    }
}

impl DeepView for Field {
    type V = SpecField;

    open spec fn deep_view(&self) -> SpecField {
        SpecField { name: self.name.deep_view(), ty: self.type_.deep_view() }
    }
}

impl DeepView for EventStruct {
    type V = SpecEventStruct;

    open spec fn deep_view(&self) -> SpecEventStruct {
        SpecEventStruct {
            extension: self.extension.deep_view(),
            xge: self.xge,
            opcode_min: self.opcode_min,
            opcode_max: self.opcode_max,
        }
    }
}

impl DeepView for Type {
    type V = SpecType;

    open spec fn deep_view(&self) -> SpecType {
        match self {
            Type::Id => SpecType::Id,
            Type::Enum { items } => SpecType::Enum(items.deep_view()),
            Type::TypeDef { value } => SpecType::TypeDef(value.deep_view()),
            Type::Struct { fields } => SpecType::Struct(fields.deep_view()),
            Type::Union { fields } => SpecType::Union(fields.deep_view()),
            Type::EventStruct(es) => SpecType::EventStruct(es.deep_view()),
        }
    }
}

impl DeepView for Reply {
    type V = Seq<SpecField>;

    open spec fn deep_view(&self) -> Seq<SpecField> {
        self.fields.deep_view()
    }
}

impl DeepView for Request {
    type V = SpecRequest;

    open spec fn deep_view(&self) -> SpecRequest {
        SpecRequest {
            name: self.name.deep_view(),
            opcode: self.opcode,
            fields: self.fields.deep_view(),
            reply: self.reply.deep_view(),
        }
    }
}

impl DeepView for EventInner {
    type V = SpecEventInner;

    open spec fn deep_view(&self) -> SpecEventInner {
        match self {
            EventInner::Event { xge, sequence, fields } => SpecEventInner::Event {
                xge: *xge,
                sequence: *sequence,
                fields: fields.deep_view(),
            },
            EventInner::Copy { ref_ } => SpecEventInner::Copy(ref_.deep_view()),
        }
    }
}

impl DeepView for Event {
    type V = SpecEvent;

    open spec fn deep_view(&self) -> SpecEvent {
        SpecEvent { name: self.name.deep_view(), number: self.number, inner: self.inner.deep_view() }
    }
}

impl DeepView for ErrorInner {
    type V = SpecErrInner;

    open spec fn deep_view(&self) -> SpecErrInner {
        match self {
            ErrorInner::Error { fields } => SpecErrInner::Error(fields.deep_view()),
            ErrorInner::Copy { ref_ } => SpecErrInner::Copy(ref_.deep_view()),
        }
    }
}

impl DeepView for Error {
    type V = SpecErr;

    open spec fn deep_view(&self) -> SpecErr {
        SpecErr { name: self.name.deep_view(), number: self.number, inner: self.inner.deep_view() }
    }
}

impl DeepView for Module {
    type V = SpecModule;

    open spec fn deep_view(&self) -> SpecModule {
        SpecModule {
            extension_name: self.extension_name.deep_view(),
            major_version: self.major_version.deep_view(),
            minor_version: self.minor_version.deep_view(),
            imports: self.imports.deep_view(),
            types: self.types.deep_view(),
            requests: self.requests.deep_view(),
            events: self.events.deep_view(),
            errors: self.errors.deep_view(),
        }
    }
}

impl DeepView for Prim {
    type V = SpecPrim;

    open spec fn deep_view(&self) -> SpecPrim {
        SpecPrim { name: self.name.deep_view(), size: self.size }
    }
}

impl DeepView for Ast {
    type V = SpecAst;

    open spec fn deep_view(&self) -> SpecAst {
        SpecAst { global_types: self.global_types.deep_view(), modules: self.modules.deep_view() }
    }
}

// ---------------------------------------------------------------------------
// Association lookup by name, shared by every keyed sequence.

/// The value of the first pair whose key equals `key`.
pub open spec fn spec_assoc<T>(s: Seq<(Seq<char>, T)>, key: Seq<char>) -> Option<T>
    decreases s.len(),
{
    if s.len() == 0 {
        None
    } else if s[0].0 == key {
        Some(s[0].1)
    } else {
        spec_assoc(s.drop_first(), key)
    }
}

pub proof fn lemma_spec_assoc_skip<T>(s: Seq<(Seq<char>, T)>, key: Seq<char>, i: int)
    requires
        0 <= i <= s.len(),
        forall|k: int| 0 <= k < i ==> (#[trigger] s[k]).0 != key,
    ensures
        spec_assoc(s, key) == spec_assoc(s.skip(i), key),
    decreases i,
{
    if i > 0 {
        assert(s.drop_first() =~= s.skip(1));
        lemma_spec_assoc_skip(s.skip(1), key, i - 1);
        assert(s.skip(1).skip(i - 1) =~= s.skip(i));
    } else {
        assert(s.skip(0) =~= s);
    }
}

/// Insertion into a name-keyed sequence kept sorted by key: an existing
/// entry with the same key is replaced, otherwise the new pair goes in
/// front of the first larger key.
pub open spec fn spec_insert_sorted<T>(s: Seq<(Seq<char>, T)>, key: Seq<char>, val: T) -> Seq<
    (Seq<char>, T),
>
    decreases s.len(),
{
    if s.len() == 0 {
        seq![(key, val)]
    } else if key == s[0].0 {
        seq![(key, val)] + s.drop_first()
    } else if crate::strutil::seq_char_lt(key, s[0].0) {
        seq![(key, val)] + s
    } else {
        seq![s[0]] + spec_insert_sorted(s.drop_first(), key, val)
    }
}

proof fn lemma_spec_insert_at<T>(s: Seq<(Seq<char>, T)>, key: Seq<char>, val: T, i: int)
    requires
        0 <= i <= s.len(),
        forall|k: int| 0 <= k < i ==> crate::strutil::seq_char_lt((#[trigger] s[k]).0, key),
        i < s.len() ==> !crate::strutil::seq_char_lt(s[i].0, key),
    ensures
        if i < s.len() && s[i].0 == key {
            spec_insert_sorted(s, key, val) == s.take(i) + seq![(key, val)] + s.skip(i + 1)
        } else {
            spec_insert_sorted(s, key, val) == s.take(i) + seq![(key, val)] + s.skip(i)
        },
    decreases i,
{
    if i == 0 {
        if s.len() == 0 {
            assert(spec_insert_sorted(s, key, val) =~= s.take(0) + seq![(key, val)] + s.skip(0));
        } else if s[0].0 == key {
            assert(seq![(key, val)] + s.drop_first() =~= s.take(0) + seq![(key, val)] + s.skip(1));
        } else {
            crate::strutil::lemma_seq_char_lt_total(s[0].0, key);
            assert(crate::strutil::seq_char_lt(key, s[0].0));
            assert(seq![(key, val)] + s =~= s.take(0) + seq![(key, val)] + s.skip(0));
        }
    } else {
        crate::strutil::lemma_seq_char_lt_asym(s[0].0, key);
        let rest = s.drop_first();
        assert(forall|k: int| 0 <= k < i - 1 ==> (#[trigger] rest[k]).0 == s[k + 1].0);
        lemma_spec_insert_at(rest, key, val, i - 1);
        if i < s.len() && s[i].0 == key {
            assert(rest[i - 1].0 == key);
            assert(seq![s[0]] + (rest.take(i - 1) + seq![(key, val)] + rest.skip(i)) =~= s.take(i)
                + seq![(key, val)] + s.skip(i + 1));
        } else {
            assert(seq![s[0]] + (rest.take(i - 1) + seq![(key, val)] + rest.skip(i - 1)) =~= s.take(
                i,
            ) + seq![(key, val)] + s.skip(i));
        }
    }
}

/// Inserts a pair into a sorted, name-keyed vector, replacing an entry
/// with the same key — the behaviour of an ordered map.
pub fn insert_sorted<T: DeepView>(v: &mut Vec<(String, T)>, key: String, val: T)
    ensures
        final(v).deep_view() == spec_insert_sorted(old(v).deep_view(), key.deep_view(), val.deep_view()),
{
    let ghost s0 = old(v).deep_view();
    let mut i: usize = 0;
    while i < v.len() && str_lt(v[i].0.as_str(), key.as_str())
        invariant
            i <= v.len(),
            *v == *old(v),
            s0 == old(v).deep_view(),
            s0.len() == v.len(),
            forall|k: int|
                0 <= k < i ==> crate::strutil::seq_char_lt((#[trigger] s0[k]).0, key.deep_view()),
        decreases v.len() - i,
    {
        proof {
            assert(s0[i as int].0 == v@[i as int].0.deep_view());
        }
        i = i + 1;
    }
    proof {
        if i < v.len() {
            assert(s0[i as int].0 == v@[i as int].0.deep_view());
        }
    }
    if i < v.len() && str_eq(v[i].0.as_str(), key.as_str()) {
        let ghost before = v.deep_view();
        v.remove(i);
        v.insert(i, (key, val));
        proof {
            lemma_spec_insert_at(s0, key.deep_view(), val.deep_view(), i as int);
            assert(v.deep_view() =~= s0.take(i as int) + seq![(key.deep_view(), val.deep_view())]
                + s0.skip(i + 1));
        }
    } else {
        v.insert(i, (key, val));
        proof {
            lemma_spec_insert_at(s0, key.deep_view(), val.deep_view(), i as int);
            assert(v.deep_view() =~= s0.take(i as int) + seq![(key.deep_view(), val.deep_view())]
                + s0.skip(i as int));
        }
    }
}

/// Looks a module up by name.
pub fn lookup_module<'a>(modules: &'a Vec<(String, Module)>, name: &str) -> (r: Option<&'a Module>)
    ensures
        match r {
            Some(m) => spec_assoc(modules.deep_view(), name@) == Some(m.deep_view()),
            None => spec_assoc(modules.deep_view(), name@) is None,
        },
{
    let ghost v = modules.deep_view();
    let mut i: usize = 0;
    while i < modules.len()
        invariant
            i <= modules.len(),
            v == modules.deep_view(),
            v.len() == modules.len(),
            forall|k: int| 0 <= k < i ==> (#[trigger] v[k]).0 != name@,
        decreases modules.len() - i,
    {
        proof {
            assert(v[i as int].0 == modules@[i as int].0.deep_view());
        }
        if str_eq(modules[i].0.as_str(), name) {
            proof {
                lemma_spec_assoc_skip(v, name@, i as int);
                assert(spec_assoc(v.skip(i as int), name@) == Some(v[i as int].1));
            }
            return Some(&modules[i].1);
        }
        i = i + 1;
    }
    proof {
        lemma_spec_assoc_skip(v, name@, modules.len() as int);
        assert(v.skip(modules.len() as int) =~= Seq::<(Seq<char>, SpecModule)>::empty());
    }
    None
}

/// Looks a declared type up by name in one module.
pub fn lookup_type<'a>(module: &'a Module, name: &str) -> (r: Option<&'a Type>)
    ensures
        match r {
            Some(t) => spec_assoc(module.deep_view().types, name@) == Some(t.deep_view()),
            None => spec_assoc(module.deep_view().types, name@) is None,
        },
{
    let ghost v = module.deep_view().types;
    let mut i: usize = 0;
    while i < module.types.len()
        invariant
            i <= module.types.len(),
            v == module.deep_view().types,
            v.len() == module.types.len(),
            forall|k: int| 0 <= k < i ==> (#[trigger] v[k]).0 != name@,
        decreases module.types.len() - i,
    {
        proof {
            assert(v[i as int].0 == module.types@[i as int].0.deep_view());
        }
        if str_eq(module.types[i].0.as_str(), name) {
            proof {
                lemma_spec_assoc_skip(v, name@, i as int);
                assert(spec_assoc(v.skip(i as int), name@) == Some(v[i as int].1));
            }
            return Some(&module.types[i].1);
        }
        i = i + 1;
    }
    proof {
        lemma_spec_assoc_skip(v, name@, module.types.len() as int);
        assert(v.skip(module.types.len() as int) =~= Seq::<(Seq<char>, SpecType)>::empty());
    }
    None
}

/// Looks a built-in primitive up by name.
pub fn lookup_prim<'a>(table: &'a Vec<(String, Prim)>, name: &str) -> (r: Option<&'a Prim>)
    ensures
        match r {
            Some(p) => spec_assoc(table.deep_view(), name@) == Some(p.deep_view()),
            None => spec_assoc(table.deep_view(), name@) is None,
        },
{
    let ghost v = table.deep_view();
    let mut i: usize = 0;
    while i < table.len()
        invariant
            i <= table.len(),
            v == table.deep_view(),
            v.len() == table.len(),
            forall|k: int| 0 <= k < i ==> (#[trigger] v[k]).0 != name@,
        decreases table.len() - i,
    {
        proof {
            assert(v[i as int].0 == table@[i as int].0.deep_view());
        }
        if str_eq(table[i].0.as_str(), name) {
            proof {
                lemma_spec_assoc_skip(v, name@, i as int);
                assert(spec_assoc(v.skip(i as int), name@) == Some(v[i as int].1));
            }
            return Some(&table[i].1);
        }
        i = i + 1;
    }
    proof {
        lemma_spec_assoc_skip(v, name@, table.len() as int);
        assert(v.skip(table.len() as int) =~= Seq::<(Seq<char>, SpecPrim)>::empty());
    }
    None
}

/// Everything that can abort a generation run: a document that cannot be
/// read as a module description, an attribute or text node that a
/// recognized element must carry, a number that cannot be parsed, an import
/// naming a module that was not given, a reference that resolves nowhere,
/// and a type whose layout cannot be computed.  Each variant carries the
/// offending identifier or text.
#[derive(Debug)]
pub enum GenError {
    Document { message: String },
    BadDocument { element: String },
    MissingAttribute { element: String, attribute: String },
    MissingText { element: String },
    BadNumber { text: String },
    BadBool { text: String },
    UnknownImport { name: String },
    UnresolvedType { name: String },
    UnresolvedEvent { name: String },
    UnresolvedError { name: String },
    UnsizedType { name: String },
}

/// Ghost mirror of `GenError`: the same variants, with the offending text
/// as character sequences, so that contracts can pin the error a failing
/// run reports — its variant and the identifier it carries.
pub enum SpecGenErr {
    Document(Seq<char>),
    BadDocument(Seq<char>),
    MissingAttribute(Seq<char>, Seq<char>),
    MissingText(Seq<char>),
    BadNumber(Seq<char>),
    BadBool(Seq<char>),
    UnknownImport(Seq<char>),
    UnresolvedType(Seq<char>),
    UnresolvedEvent(Seq<char>),
    UnresolvedError(Seq<char>),
    UnsizedType(Seq<char>),
}

impl DeepView for GenError {
    type V = SpecGenErr;

    open spec fn deep_view(&self) -> SpecGenErr {
        match self {
            GenError::Document { message } => SpecGenErr::Document(message@),
            GenError::BadDocument { element } => SpecGenErr::BadDocument(element@),
            GenError::MissingAttribute { element, attribute } => SpecGenErr::MissingAttribute(
                element@,
                attribute@,
            ),
            GenError::MissingText { element } => SpecGenErr::MissingText(element@),
            GenError::BadNumber { text } => SpecGenErr::BadNumber(text@),
            GenError::BadBool { text } => SpecGenErr::BadBool(text@),
            GenError::UnknownImport { name } => SpecGenErr::UnknownImport(name@),
            GenError::UnresolvedType { name } => SpecGenErr::UnresolvedType(name@),
            GenError::UnresolvedEvent { name } => SpecGenErr::UnresolvedEvent(name@),
            GenError::UnresolvedError { name } => SpecGenErr::UnresolvedError(name@),
            GenError::UnsizedType { name } => SpecGenErr::UnsizedType(name@),
        }
    }
}

// ---------------------------------------------------------------------------
// Searching the import graph.

pub open spec fn spec_has_event(m: SpecModule, name: Seq<char>) -> bool {
    exists|i: int| 0 <= i < m.events.len() && (#[trigger] m.events[i]).name == name
}

pub open spec fn spec_has_error(m: SpecModule, name: Seq<char>) -> bool {
    exists|i: int| 0 <= i < m.errors.len() && (#[trigger] m.errors[i]).name == name
}

/// Depth-first search for the module declaring a type: the module itself
/// first, then its imports in declaration order, transitively.  The fuel
/// bounds the depth; one unit per import edge.
pub open spec fn spec_find_type_module(
    ast: SpecAst,
    m: SpecModule,
    name: Seq<char>,
    fuel: int,
) -> Option<SpecModule>
    decreases fuel, 0int,
{
    if spec_assoc(m.types, name) is Some {
        Some(m)
    } else if fuel <= 0 {
        None
    } else {
        spec_find_type_in_imports(ast, m.imports, name, fuel - 1)
    }
}

pub open spec fn spec_find_type_in_imports(
    ast: SpecAst,
    imports: Seq<Seq<char>>,
    name: Seq<char>,
    fuel: int,
) -> Option<SpecModule>
    decreases fuel, imports.len() + 1,
{
    if imports.len() == 0 || fuel < 0 {
        None
    } else {
        match spec_assoc(ast.modules, imports[0]) {
            Some(m0) => match spec_find_type_module(ast, m0, name, fuel) {
                Some(r) => Some(r),
                None => spec_find_type_in_imports(ast, imports.drop_first(), name, fuel),
            },
            None => spec_find_type_in_imports(ast, imports.drop_first(), name, fuel),
        }
    }
}

pub open spec fn spec_find_event_module(
    ast: SpecAst,
    m: SpecModule,
    name: Seq<char>,
    fuel: int,
) -> Option<SpecModule>
    decreases fuel, 0int,
{
    if spec_has_event(m, name) {
        Some(m)
    } else if fuel <= 0 {
        None
    } else {
        spec_find_event_in_imports(ast, m.imports, name, fuel - 1)
    }
}

pub open spec fn spec_find_event_in_imports(
    ast: SpecAst,
    imports: Seq<Seq<char>>,
    name: Seq<char>,
    fuel: int,
) -> Option<SpecModule>
    decreases fuel, imports.len() + 1,
{
    if imports.len() == 0 || fuel < 0 {
        None
    } else {
        match spec_assoc(ast.modules, imports[0]) {
            Some(m0) => match spec_find_event_module(ast, m0, name, fuel) {
                Some(r) => Some(r),
                None => spec_find_event_in_imports(ast, imports.drop_first(), name, fuel),
            },
            None => spec_find_event_in_imports(ast, imports.drop_first(), name, fuel),
        }
    }
}

pub open spec fn spec_find_error_module(
    ast: SpecAst,
    m: SpecModule,
    name: Seq<char>,
    fuel: int,
) -> Option<SpecModule>
    decreases fuel, 0int,
{
    if spec_has_error(m, name) {
        Some(m)
    } else if fuel <= 0 {
        None
    } else {
        spec_find_error_in_imports(ast, m.imports, name, fuel - 1)
    }
}

pub open spec fn spec_find_error_in_imports(
    ast: SpecAst,
    imports: Seq<Seq<char>>,
    name: Seq<char>,
    fuel: int,
) -> Option<SpecModule>
    decreases fuel, imports.len() + 1,
{
    if imports.len() == 0 || fuel < 0 {
        None
    } else {
        match spec_assoc(ast.modules, imports[0]) {
            Some(m0) => match spec_find_error_module(ast, m0, name, fuel) {
                Some(r) => Some(r),
                None => spec_find_error_in_imports(ast, imports.drop_first(), name, fuel),
            },
            None => spec_find_error_in_imports(ast, imports.drop_first(), name, fuel),
        }
    }
}

pub fn has_event(module: &Module, name: &str) -> (r: bool)
    ensures
        r == spec_has_event(module.deep_view(), name@),
{
    let ghost v = module.deep_view();
    let mut i: usize = 0;
    while i < module.events.len()
        invariant
            i <= module.events.len(),
            v == module.deep_view(),
            v.events.len() == module.events.len(),
            forall|k: int| 0 <= k < i ==> (#[trigger] v.events[k]).name != name@,
        decreases module.events.len() - i,
    {
        proof {
            assert(v.events[i as int].name == module.events@[i as int].name.deep_view());
        }
        if str_eq(module.events[i].name.as_str(), name) {
            return true;
        }
        i = i + 1;
    }
    false
}

pub fn has_error(module: &Module, name: &str) -> (r: bool)
    ensures
        r == spec_has_error(module.deep_view(), name@),
{
    let ghost v = module.deep_view();
    let mut i: usize = 0;
    while i < module.errors.len()
        invariant
            i <= module.errors.len(),
            v == module.deep_view(),
            v.errors.len() == module.errors.len(),
            forall|k: int| 0 <= k < i ==> (#[trigger] v.errors[k]).name != name@,
        decreases module.errors.len() - i,
    {
        proof {
            assert(v.errors[i as int].name == module.errors@[i as int].name.deep_view());
        }
        if str_eq(module.errors[i].name.as_str(), name) {
            return true;
        }
        i = i + 1;
    }
    false
}

impl Ast {
    /// The module whose declared types contain `tname`, searching the
    /// given module first and then its imports depth-first.
    pub fn find_module_for_type<'a>(
        &'a self,
        module: &'a Module,
        tname: &str,
        fuel: usize,
    ) -> (r: Option<&'a Module>)
        ensures
            match r {
                Some(m) => spec_find_type_module(
                    self.deep_view(),
                    module.deep_view(),
                    tname@,
                    fuel as int,
                ) == Some(m.deep_view()),
                None => spec_find_type_module(
                    self.deep_view(),
                    module.deep_view(),
                    tname@,
                    fuel as int,
                ) is None,
            },
        decreases fuel,
    {
        let ghost ast = self.deep_view();
        let ghost mv = module.deep_view();
        if lookup_type(module, tname).is_some() {
            return Some(module);
        }
        if fuel == 0 {
            return None;
        }
        let ghost iv = mv.imports;
        proof {
            assert(iv.skip(0) =~= iv);
        }
        let mut k: usize = 0;
        while k < module.imports.len()
            invariant
                k <= module.imports.len(),
                ast == self.deep_view(),
                mv == module.deep_view(),
                iv == mv.imports,
                iv.len() == module.imports.len(),
                fuel >= 1,
                spec_find_type_in_imports(ast, iv.skip(k as int), tname@, fuel - 1)
                    == spec_find_type_in_imports(ast, iv, tname@, fuel - 1),
                spec_assoc(mv.types, tname@) is None,
            decreases module.imports.len() - k,
        {
            proof {
                assert(iv[k as int] == module.imports@[k as int].deep_view());
                assert(iv.skip(k as int).drop_first() =~= iv.skip(k as int + 1));
                assert(iv.skip(k as int)[0] == iv[k as int]);
            }
            match lookup_module(&self.modules, module.imports[k].as_str()) {
                Some(m0) => {
                    let res = self.find_module_for_type(m0, tname, fuel - 1);
                    if res.is_some() {
                        return res;
                    }
                }
                None => {}
            }
            k = k + 1;
        }
        proof {
            assert(iv.skip(module.imports.len() as int) =~= Seq::<Seq<char>>::empty());
        }
        None
    }

    /// The module whose events contain one named `event_name`, searched as
    /// for types.
    pub fn find_module_for_event<'a>(
        &'a self,
        module: &'a Module,
        event_name: &str,
        fuel: usize,
    ) -> (r: Option<&'a Module>)
        ensures
            match r {
                Some(m) => spec_find_event_module(
                    self.deep_view(),
                    module.deep_view(),
                    event_name@,
                    fuel as int,
                ) == Some(m.deep_view()),
                None => spec_find_event_module(
                    self.deep_view(),
                    module.deep_view(),
                    event_name@,
                    fuel as int,
                ) is None,
            },
        decreases fuel,
    {
        let ghost ast = self.deep_view();
        let ghost mv = module.deep_view();
        if has_event(module, event_name) {
            return Some(module);
        }
        if fuel == 0 {
            return None;
        }
        let ghost iv = mv.imports;
        proof {
            assert(iv.skip(0) =~= iv);
        }
        let mut k: usize = 0;
        while k < module.imports.len()
            invariant
                k <= module.imports.len(),
                ast == self.deep_view(),
                mv == module.deep_view(),
                iv == mv.imports,
                iv.len() == module.imports.len(),
                fuel >= 1,
                spec_find_event_in_imports(ast, iv.skip(k as int), event_name@, fuel - 1)
                    == spec_find_event_in_imports(ast, iv, event_name@, fuel - 1),
                !spec_has_event(mv, event_name@),
            decreases module.imports.len() - k,
        {
            proof {
                assert(iv[k as int] == module.imports@[k as int].deep_view());
                assert(iv.skip(k as int).drop_first() =~= iv.skip(k as int + 1));
                assert(iv.skip(k as int)[0] == iv[k as int]);
            }
            match lookup_module(&self.modules, module.imports[k].as_str()) {
                Some(m0) => {
                    let res = self.find_module_for_event(m0, event_name, fuel - 1);
                    if res.is_some() {
                        return res;
                    }
                }
                None => {}
            }
            k = k + 1;
        }
        proof {
            assert(iv.skip(module.imports.len() as int) =~= Seq::<Seq<char>>::empty());
        }
        None
    }

    /// The module whose errors contain one named `error_name`, searched as
    /// for types.
    pub fn find_module_for_error<'a>(
        &'a self,
        module: &'a Module,
        error_name: &str,
        fuel: usize,
    ) -> (r: Option<&'a Module>)
        ensures
            match r {
                Some(m) => spec_find_error_module(
                    self.deep_view(),
                    module.deep_view(),
                    error_name@,
                    fuel as int,
                ) == Some(m.deep_view()),
                None => spec_find_error_module(
                    self.deep_view(),
                    module.deep_view(),
                    error_name@,
                    fuel as int,
                ) is None,
            },
        decreases fuel,
    {
        let ghost ast = self.deep_view();
        let ghost mv = module.deep_view();
        if has_error(module, error_name) {
            return Some(module);
        }
        if fuel == 0 {
            return None;
        }
        let ghost iv = mv.imports;
        proof {
            assert(iv.skip(0) =~= iv);
        }
        let mut k: usize = 0;
        while k < module.imports.len()
            invariant
                k <= module.imports.len(),
                ast == self.deep_view(),
                mv == module.deep_view(),
                iv == mv.imports,
                iv.len() == module.imports.len(),
                fuel >= 1,
                spec_find_error_in_imports(ast, iv.skip(k as int), error_name@, fuel - 1)
                    == spec_find_error_in_imports(ast, iv, error_name@, fuel - 1),
                !spec_has_error(mv, error_name@),
            decreases module.imports.len() - k,
        {
            proof {
                assert(iv[k as int] == module.imports@[k as int].deep_view());
                assert(iv.skip(k as int).drop_first() =~= iv.skip(k as int + 1));
                assert(iv.skip(k as int)[0] == iv[k as int]);
            }
            match lookup_module(&self.modules, module.imports[k].as_str()) {
                Some(m0) => {
                    let res = self.find_module_for_error(m0, error_name, fuel - 1);
                    if res.is_some() {
                        return res;
                    }
                }
                None => {}
            }
            k = k + 1;
        }
        proof {
            assert(iv.skip(module.imports.len() as int) =~= Seq::<Seq<char>>::empty());
        }
        None
    }
}

// ---------------------------------------------------------------------------
// Canonical names.

/// The symbol prefix of a module: the converted extension name followed by
/// an underscore, or nothing for the core protocol module.
pub open spec fn spec_prefix(m: SpecModule) -> Seq<char> {
    match m.extension_name {
        Some(e) => convert_ext_spec(e) + "_"@,
        None => Seq::empty(),
    }
}

/// The canonical target name of a user-declared type.
pub open spec fn spec_canonical_type_name(m: SpecModule, name: Seq<char>) -> Seq<char> {
    "xcb_"@ + spec_prefix(m) + convert_name_spec(name) + "_t"@
}

pub fn module_prefix(m: &Module) -> (r: String)
    ensures
        r@ == spec_prefix(m.deep_view()),
{
    match &m.extension_name {
        Some(e) => {
            let mut p = convert_extension_name(e.as_str());
            p.append("_");
            p
        },
        None => String::new(),
    }
}

pub fn canonical_type_name(m: &Module, name: &str) -> (r: String)
    ensures
        r@ == spec_canonical_type_name(m.deep_view(), name@),
{
    let mut out = String::from_str("xcb_");
    let p = module_prefix(m);
    out.append(p.as_str());
    let cn = convert_name(name);
    out.append(cn.as_str());
    out.append("_t");
    proof {
        assert(out@ =~= spec_canonical_type_name(m.deep_view(), name@));
    }
    out
}

/// What resolving a type reference yields: for a module-qualified
/// reference, the canonical name built against the named module (whether
/// or not that module declares it); otherwise the canonical name in the
/// first declaring module found through the imports, or the rendered name
/// of a built-in primitive; `None` when nothing matches.
pub open spec fn spec_resolve_type_name(ast: SpecAst, m: SpecModule, name: Seq<char>) -> Option<
    Seq<char>,
> {
    match crate::strutil::spec_find_colon(name) {
        Some(c) => {
            let module_name = name.subrange(0, c);
            let rest = name.subrange(c + 1, name.len() as int);
            match spec_assoc(ast.modules, module_name) {
                Some(m2) => Some(spec_canonical_type_name(m2, rest)),
                None => None,
            }
        },
        None => match spec_find_type_module(ast, m, name, ast.modules.len() as int) {
            Some(m2) => Some(spec_canonical_type_name(m2, name)),
            None => match spec_assoc(ast.global_types, name) {
                Some(p) => Some(p.name),
                None => None,
            },
        },
    }
}

impl Ast {
    /// Resolves a type reference from the given module to the canonical
    /// target-language name; an unresolvable reference is reported with
    /// the offending identifier.
    pub fn resolve_type_name(&self, module: &Module, tname: &str) -> (r: Result<
        String,
        GenError,
    >)
        ensures
            match r {
                Ok(s) => spec_resolve_type_name(self.deep_view(), module.deep_view(), tname@)
                    == Some(s@),
                Err(e) => spec_resolve_type_name(
                    self.deep_view(),
                    module.deep_view(),
                    tname@,
                ) is None && e.deep_view() == SpecGenErr::UnresolvedType(tname@),
            },
    {
        match crate::strutil::find_colon(tname) {
            Some(c) => {
                proof {
                    crate::strutil::lemma_spec_find_colon_props(tname@);
                }
                let module_name = tname.substring_char(0, c);
                let n = tname.unicode_len();
                let rest = tname.substring_char(c + 1, n);
                match lookup_module(&self.modules, module_name) {
                    Some(m2) => Ok(canonical_type_name(m2, rest)),
                    None => Err(GenError::UnresolvedType { name: String::from_str(tname) }),
                }
            },
            None => {
                match self.find_module_for_type(module, tname, self.modules.len()) {
                    Some(m2) => Ok(canonical_type_name(m2, tname)),
                    None => {
                        let prim = lookup_prim(&self.global_types, tname);
                        match prim {
                            Some(p) => Ok(p.name.clone()),
                            None => Err(
                                GenError::UnresolvedType { name: String::from_str(tname) },
                            ),
                        }
                    },
                }
            },
        }
    }
}

// ---------------------------------------------------------------------------
// The layout engine: byte size and alignment of types and fields.

/// Size and alignment of a named type: handles and enums are (4, 4), an
/// alias contributes what its target contributes, a structure sums its
/// fields and takes the largest alignment, a union takes the largest of
/// both, a built-in primitive is its own size, self-aligned.  `None` when
/// the name resolves nowhere, the type is an event aggregate, a size
/// overflows, or the recursion fuel runs out.
pub open spec fn spec_type_size_align(
    ast: SpecAst,
    m: SpecModule,
    name: Seq<char>,
    fuel: int,
) -> Option<(u32, u32)>
    decreases fuel, 0int, 0int,
{
    if fuel <= 0 {
        None
    } else {
        match spec_find_type_module(ast, m, name, ast.modules.len() as int) {
            Some(m2) => match spec_assoc(m2.types, name) {
                Some(t) => match t {
                    SpecType::Id => Some((4u32, 4u32)),
                    SpecType::Enum(_) => Some((4u32, 4u32)),
                    SpecType::TypeDef(v) => spec_type_size_align(ast, m2, v, fuel - 1),
                    SpecType::Struct(fs) => spec_fields_sum(ast, m2, fs, fuel - 1, 0, 0),
                    SpecType::Union(fs) => spec_fields_max(ast, m2, fs, fuel - 1, 0, 0),
                    SpecType::EventStruct(_) => None,
                },
                None => None,
            },
            None => match spec_assoc(ast.global_types, name) {
                Some(p) => Some((p.size, p.size)),
                None => None,
            },
        }
    }
}

/// Size and alignment of one field: a value field contributes its type, a
/// padding its byte count with no alignment, a fixed-length list the
/// element size times the count, and variable-length lists, switches and
/// file descriptors contribute nothing.
pub open spec fn spec_field_size_align(
    ast: SpecAst,
    m: SpecModule,
    ty: SpecFieldType,
    fuel: int,
) -> Option<(u32, u32)>
    decreases fuel, 1int, 0int,
{
    match ty {
        SpecFieldType::Name(n) => spec_type_size_align(ast, m, n, fuel),
        SpecFieldType::Padding(b) => Some((b, 0u32)),
        SpecFieldType::List(elem, l) => match l {
            SpecLength::Fixed(c) => match spec_type_size_align(ast, m, elem, fuel) {
                Some(p) => if p.0 * c <= u32::MAX {
                    Some(((p.0 * c) as u32, p.1))
                } else {
                    None
                },
                None => None,
            },
            SpecLength::FieldRef => Some((0u32, 0u32)),
            SpecLength::Absent => Some((0u32, 0u32)),
        },
        SpecFieldType::Switch => Some((0u32, 0u32)),
        SpecFieldType::Fd => Some((0u32, 0u32)),
    }
}

/// Left fold of a structure's fields: sizes add, alignments take the
/// maximum; `None` on the first field that cannot be sized or when the
/// total leaves 32 bits.
pub open spec fn spec_fields_sum(
    ast: SpecAst,
    m: SpecModule,
    fields: Seq<SpecField>,
    fuel: int,
    size: u32,
    align: u32,
) -> Option<(u32, u32)>
    decreases fuel, 2int, fields.len(),
{
    if fields.len() == 0 {
        Some((size, align))
    } else {
        match spec_field_size_align(ast, m, fields[0].ty, fuel) {
            Some(p) => if size + p.0 <= u32::MAX {
                spec_fields_sum(
                    ast,
                    m,
                    fields.drop_first(),
                    fuel,
                    (size + p.0) as u32,
                    if p.1 > align {
                        p.1
                    } else {
                        align
                    },
                )
            } else {
                None
            },
            None => None,
        }
    }
}

/// Left fold of a union's members: both size and alignment take the
/// maximum of the members.
pub open spec fn spec_fields_max(
    ast: SpecAst,
    m: SpecModule,
    fields: Seq<SpecField>,
    fuel: int,
    size: u32,
    align: u32,
) -> Option<(u32, u32)>
    decreases fuel, 2int, fields.len(),
{
    if fields.len() == 0 {
        Some((size, align))
    } else {
        match spec_field_size_align(ast, m, fields[0].ty, fuel) {
            Some(p) => spec_fields_max(
                ast,
                m,
                fields.drop_first(),
                fuel,
                if p.0 > size {
                    p.0
                } else {
                    size
                },
                if p.1 > align {
                    p.1
                } else {
                    align
                },
            ),
            None => None,
        }
    }
}

impl Ast {
    /// Computes size and alignment of one field, as the layout rules above
    /// state it.
    pub fn get_field_size_align(&self, module: &Module, field: &FieldType, fuel: usize) -> (r:
        Option<(u32, u32)>)
        ensures
            r == spec_field_size_align(
                self.deep_view(),
                module.deep_view(),
                field.deep_view(),
                fuel as int,
            ),
        decreases fuel, 1int,
    {
        match field {
            FieldType::Name(n) => self.get_type_size_align(module, n.as_str(), fuel),
            FieldType::Padding(b) => Some((*b, 0)),
            FieldType::List(elem, l) => match l {
                Length::Fixed(c) => match self.get_type_size_align(module, elem.as_str(), fuel) {
                    Some(p) => match p.0.checked_mul(*c) {
                        Some(sz) => Some((sz, p.1)),
                        None => None,
                    },
                    None => None,
                },
                Length::FieldRef => Some((0, 0)),
                Length::Absent => Some((0, 0)),
            },
            FieldType::Switch => Some((0, 0)),
            FieldType::Fd => Some((0, 0)),
        }
    }

    /// Computes size and alignment of a named type, as the layout rules
    /// above state it.
    pub fn get_type_size_align(&self, module: &Module, name: &str, fuel: usize) -> (r: Option<
        (u32, u32),
    >)
        ensures
            r == spec_type_size_align(
                self.deep_view(),
                module.deep_view(),
                name@,
                fuel as int,
            ),
        decreases fuel, 0int,
    {
        if fuel == 0 {
            return None;
        }
        match self.find_module_for_type(module, name, self.modules.len()) {
            Some(m2) => {
                match lookup_type(m2, name) {
                    Some(t) => match t {
                        Type::Id => Some((4, 4)),
                        Type::Enum { .. } => Some((4, 4)),
                        Type::TypeDef { value } => self.get_type_size_align(
                            m2,
                            value.as_str(),
                            fuel - 1,
                        ),
                        Type::Struct { fields } => self.sum_fields(m2, fields, fuel - 1),
                        Type::Union { fields } => self.max_fields(m2, fields, fuel - 1),
                        Type::EventStruct(_) => None,
                    },
                    None => None,
                }
            },
            None => {
                let prim = lookup_prim(&self.global_types, name);
                match prim {
                    Some(p) => Some((p.size, p.size)),
                    None => None,
                }
            },
        }
    }

    fn sum_fields(&self, module: &Module, fields: &Vec<Field>, fuel: usize) -> (r: Option<
        (u32, u32),
    >)
        ensures
            r == spec_fields_sum(
                self.deep_view(),
                module.deep_view(),
                fields.deep_view(),
                fuel as int,
                0,
                0,
            ),
        decreases fuel, 2int,
    {
        let ghost ast = self.deep_view();
        let ghost mv = module.deep_view();
        let ghost fv = fields.deep_view();
        proof {
            assert(fv.skip(0) =~= fv);
        }
        let mut size: u32 = 0;
        let mut align: u32 = 0;
        let mut i: usize = 0;
        while i < fields.len()
            invariant
                i <= fields.len(),
                ast == self.deep_view(),
                mv == module.deep_view(),
                fv == fields.deep_view(),
                fv.len() == fields.len(),
                spec_fields_sum(ast, mv, fv, fuel as int, 0, 0) == spec_fields_sum(
                    ast,
                    mv,
                    fv.skip(i as int),
                    fuel as int,
                    size,
                    align,
                ),
            decreases fields.len() - i,
        {
            proof {
                assert(fv.skip(i as int)[0] == fv[i as int]);
                assert(fv[i as int] == fields@[i as int].deep_view());
                assert(fv.skip(i as int).drop_first() =~= fv.skip(i as int + 1));
            }
            match self.get_field_size_align(module, &fields[i].type_, fuel) {
                Some(p) => {
                    match size.checked_add(p.0) {
                        Some(ns) => {
                            size = ns;
                            align = if p.1 > align {
                                p.1
                            } else {
                                align
                            };
                        },
                        None => {
                            return None;
                        },
                    }
                },
                None => {
                    return None;
                },
            }
            i = i + 1;
        }
        proof {
            assert(fv.skip(fields.len() as int) =~= Seq::<SpecField>::empty());
        }
        Some((size, align))
    }

    fn max_fields(&self, module: &Module, fields: &Vec<Field>, fuel: usize) -> (r: Option<
        (u32, u32),
    >)
        ensures
            r == spec_fields_max(
                self.deep_view(),
                module.deep_view(),
                fields.deep_view(),
                fuel as int,
                0,
                0,
            ),
        decreases fuel, 2int,
    {
        let ghost ast = self.deep_view();
        let ghost mv = module.deep_view();
        let ghost fv = fields.deep_view();
        proof {
            assert(fv.skip(0) =~= fv);
        }
        let mut size: u32 = 0;
        let mut align: u32 = 0;
        let mut i: usize = 0;
        while i < fields.len()
            invariant
                i <= fields.len(),
                ast == self.deep_view(),
                mv == module.deep_view(),
                fv == fields.deep_view(),
                fv.len() == fields.len(),
                spec_fields_max(ast, mv, fv, fuel as int, 0, 0) == spec_fields_max(
                    ast,
                    mv,
                    fv.skip(i as int),
                    fuel as int,
                    size,
                    align,
                ),
            decreases fields.len() - i,
        {
            proof {
                assert(fv.skip(i as int)[0] == fv[i as int]);
                assert(fv[i as int] == fields@[i as int].deep_view());
                assert(fv.skip(i as int).drop_first() =~= fv.skip(i as int + 1));
            }
            match self.get_field_size_align(module, &fields[i].type_, fuel) {
                Some(p) => {
                    size = if p.0 > size {
                        p.0
                    } else {
                        size
                    };
                    align = if p.1 > align {
                        p.1
                    } else {
                        align
                    };
                },
                None => {
                    return None;
                },
            }
            i = i + 1;
        }
        proof {
            assert(fv.skip(fields.len() as int) =~= Seq::<SpecField>::empty());
        }
        Some((size, align))
    }
}

// ---------------------------------------------------------------------------
// Stated laws of resolution and layout.

/// Type resolution is transitive through imports: when module `a` imports
/// only `b`, `b` imports only `c`, and `t` is declared in `c` but neither
/// in `a` nor in `b`, then resolving `t` from `a` succeeds and yields the
/// canonical name built against `c` — the reference does not fail merely
/// because `a` and `b` do not know the type directly.
pub proof fn lemma_resolve_transitive(
    ast: SpecAst,
    a: SpecModule,
    b: SpecModule,
    c: SpecModule,
    bn: Seq<char>,
    cn: Seq<char>,
    t: Seq<char>,
)
    requires
        a.imports == seq![bn],
        b.imports == seq![cn],
        spec_assoc(ast.modules, bn) == Some(b),
        spec_assoc(ast.modules, cn) == Some(c),
        spec_assoc(a.types, t) is None,
        spec_assoc(b.types, t) is None,
        spec_assoc(c.types, t) is Some,
        ast.modules.len() >= 2,
        crate::strutil::spec_find_colon(t) is None,
    ensures
        spec_find_type_module(ast, a, t, ast.modules.len() as int) == Some(c),
        spec_resolve_type_name(ast, a, t) == Some(spec_canonical_type_name(c, t)),
{
    let f = ast.modules.len() as int;
    assert(spec_find_type_module(ast, c, t, f - 2) == Some(c));
    assert(seq![cn][0] == cn);
    assert(spec_find_type_in_imports(ast, seq![cn], t, f - 2) == Some(c));
    assert(spec_find_type_module(ast, b, t, f - 1) == Some(c));
    assert(seq![bn][0] == bn);
    assert(spec_find_type_in_imports(ast, seq![bn], t, f - 1) == Some(c));
    assert(spec_find_type_module(ast, a, t, f) == Some(c));
}

proof fn lemma_find_type_in_imports_skip(
    ast: SpecAst,
    imports: Seq<Seq<char>>,
    t: Seq<char>,
    f: int,
    k: int,
)
    requires
        0 <= k <= imports.len(),
        spec_find_type_in_imports(ast, imports.take(k), t, f) is None,
    ensures
        spec_find_type_in_imports(ast, imports, t, f) == spec_find_type_in_imports(
            ast,
            imports.skip(k),
            t,
            f,
        ),
    decreases k,
{
    if k == 0 {
        assert(imports.skip(0) =~= imports);
    } else {
        assert(imports.take(k)[0] == imports[0]);
        assert(imports.take(k).drop_first() =~= imports.drop_first().take(k - 1));
        assert(imports.drop_first().skip(k - 1) =~= imports.skip(k));
        lemma_find_type_in_imports_skip(ast, imports.drop_first(), t, f, k - 1);
    }
}

/// The general import step of resolution: when `bn` stands at position
/// `k` among `a`'s imports, `a` does not declare `t` itself, the searches
/// through the imports before `bn` all fail, and the search from `bn`'s
/// module finds `m2`, then the search from `a` finds `m2` — the reference
/// does not fail merely because `a` does not know the type directly.
pub proof fn lemma_find_through_import(
    ast: SpecAst,
    a: SpecModule,
    bn: Seq<char>,
    b: SpecModule,
    t: Seq<char>,
    k: int,
    m2: SpecModule,
)
    requires
        spec_assoc(a.types, t) is None,
        0 <= k < a.imports.len(),
        a.imports[k] == bn,
        spec_assoc(ast.modules, bn) == Some(b),
        spec_find_type_in_imports(
            ast,
            a.imports.take(k),
            t,
            ast.modules.len() as int - 1,
        ) is None,
        spec_find_type_module(ast, b, t, ast.modules.len() as int - 1) == Some(m2),
        ast.modules.len() >= 1,
    ensures
        spec_find_type_module(ast, a, t, ast.modules.len() as int) == Some(m2),
{
    let f = ast.modules.len() as int - 1;
    lemma_find_type_in_imports_skip(ast, a.imports, t, f, k);
    assert(a.imports.skip(k)[0] == a.imports[k]);
    assert(spec_find_type_in_imports(ast, a.imports.skip(k), t, f) == Some(m2));
}

/// Layout is compositional for structures: a structure's size is the sum
/// of its fields' sizes and its alignment the largest field alignment,
/// stated here for a structure of two fields.
pub proof fn lemma_struct_layout_two_fields(
    ast: SpecAst,
    m: SpecModule,
    name: Seq<char>,
    f1: SpecField,
    f2: SpecField,
    s1: u32,
    a1: u32,
    s2: u32,
    a2: u32,
    fuel: int,
)
    requires
        fuel >= 1,
        spec_assoc(m.types, name) == Some(SpecType::Struct(seq![f1, f2])),
        spec_field_size_align(ast, m, f1.ty, fuel - 1) == Some((s1, a1)),
        spec_field_size_align(ast, m, f2.ty, fuel - 1) == Some((s2, a2)),
        s1 + s2 <= u32::MAX,
    ensures
        spec_type_size_align(ast, m, name, fuel) == Some(
            (
                (s1 + s2) as u32,
                if a2 > a1 {
                    a2
                } else {
                    a1
                },
            ),
        ),
{
    reveal_with_fuel(spec_fields_sum, 4);
    let fs = seq![f1, f2];
    assert(spec_find_type_module(ast, m, name, ast.modules.len() as int) == Some(m));
    assert(fs[0] == f1);
    assert(fs.drop_first() =~= seq![f2]);
    assert(seq![f2][0] == f2);
    assert(seq![f2].drop_first() =~= Seq::<SpecField>::empty());
    let al1: u32 = if a1 > 0 { a1 } else { 0 };
    assert(al1 == a1);
    assert(spec_fields_sum(ast, m, fs, fuel - 1, 0, 0) == spec_fields_sum(
        ast,
        m,
        seq![f2],
        fuel - 1,
        s1,
        a1,
    ));
    assert(spec_fields_sum(ast, m, seq![f2], fuel - 1, s1, a1) == spec_fields_sum(
        ast,
        m,
        seq![f2].drop_first(),
        fuel - 1,
        (s1 + s2) as u32,
        if a2 > a1 {
            a2
        } else {
            a1
        },
    ));
}

/// Layout is compositional for unions: a union's size and alignment are
/// the largest of its members', stated here for a union of two members.
pub proof fn lemma_union_layout_two_fields(
    ast: SpecAst,
    m: SpecModule,
    name: Seq<char>,
    f1: SpecField,
    f2: SpecField,
    s1: u32,
    a1: u32,
    s2: u32,
    a2: u32,
    fuel: int,
)
    requires
        fuel >= 1,
        spec_assoc(m.types, name) == Some(SpecType::Union(seq![f1, f2])),
        spec_field_size_align(ast, m, f1.ty, fuel - 1) == Some((s1, a1)),
        spec_field_size_align(ast, m, f2.ty, fuel - 1) == Some((s2, a2)),
    ensures
        spec_type_size_align(ast, m, name, fuel) == Some(
            (
                if s2 > s1 {
                    s2
                } else {
                    s1
                },
                if a2 > a1 {
                    a2
                } else {
                    a1
                },
            ),
        ),
{
    reveal_with_fuel(spec_fields_max, 4);
    let fs = seq![f1, f2];
    assert(spec_find_type_module(ast, m, name, ast.modules.len() as int) == Some(m));
    assert(fs[0] == f1);
    assert(fs.drop_first() =~= seq![f2]);
    assert(seq![f2][0] == f2);
    assert(seq![f2].drop_first() =~= Seq::<SpecField>::empty());
    assert(spec_fields_max(ast, m, fs, fuel - 1, 0, 0) == spec_fields_max(
        ast,
        m,
        seq![f2],
        fuel - 1,
        s1,
        a1,
    ));
    assert(spec_fields_max(ast, m, seq![f2], fuel - 1, s1, a1) == spec_fields_max(
        ast,
        m,
        seq![f2].drop_first(),
        fuel - 1,
        if s2 > s1 {
            s2
        } else {
            s1
        },
        if a2 > a1 {
            a2
        } else {
            a1
        },
    ));
}

// ---------------------------------------------------------------------------
// The built-in primitive types.

/// The fixed table of built-in primitives: fixed-width integers, byte,
/// boolean, character, floating point, void and file descriptor, each with
/// its rendered target name and byte size.
pub open spec fn spec_builtin_types() -> Seq<(Seq<char>, SpecPrim)> {
    seq![
        ("CARD8"@, SpecPrim { name: "u8"@, size: 1 }),
        ("CARD16"@, SpecPrim { name: "u16"@, size: 2 }),
        ("CARD32"@, SpecPrim { name: "u32"@, size: 4 }),
        ("CARD64"@, SpecPrim { name: "u64"@, size: 8 }),
        ("INT8"@, SpecPrim { name: "i8"@, size: 1 }),
        ("INT16"@, SpecPrim { name: "i16"@, size: 2 }),
        ("INT32"@, SpecPrim { name: "i32"@, size: 4 }),
        ("INT64"@, SpecPrim { name: "i64"@, size: 8 }),
        ("BYTE"@, SpecPrim { name: "u8"@, size: 1 }),
        ("BOOL"@, SpecPrim { name: "u8"@, size: 1 }),
        ("char"@, SpecPrim { name: "std::ffi::c_char"@, size: 1 }),
        ("float"@, SpecPrim { name: "f32"@, size: 4 }),
        ("double"@, SpecPrim { name: "f64"@, size: 8 }),
        ("void"@, SpecPrim { name: "std::ffi::c_void"@, size: 0 }),
        ("fd"@, SpecPrim { name: "i32"@, size: 4 }),
    ]
}

pub fn builtin_types() -> (r: Vec<(String, Prim)>)
    ensures
        r.deep_view() == spec_builtin_types(),
{
    let mut v: Vec<(String, Prim)> = Vec::new();
    v.push((String::from_str("CARD8"), Prim { name: String::from_str("u8"), size: 1 }));
    v.push((String::from_str("CARD16"), Prim { name: String::from_str("u16"), size: 2 }));
    v.push((String::from_str("CARD32"), Prim { name: String::from_str("u32"), size: 4 }));
    v.push((String::from_str("CARD64"), Prim { name: String::from_str("u64"), size: 8 }));
    v.push((String::from_str("INT8"), Prim { name: String::from_str("i8"), size: 1 }));
    v.push((String::from_str("INT16"), Prim { name: String::from_str("i16"), size: 2 }));
    v.push((String::from_str("INT32"), Prim { name: String::from_str("i32"), size: 4 }));
    v.push((String::from_str("INT64"), Prim { name: String::from_str("i64"), size: 8 }));
    v.push((String::from_str("BYTE"), Prim { name: String::from_str("u8"), size: 1 }));
    v.push((String::from_str("BOOL"), Prim { name: String::from_str("u8"), size: 1 }));
    v.push((String::from_str("char"), Prim { name: String::from_str("std::ffi::c_char"), size: 1 }));
    v.push((String::from_str("float"), Prim { name: String::from_str("f32"), size: 4 }));
    v.push((String::from_str("double"), Prim { name: String::from_str("f64"), size: 8 }));
    v.push((String::from_str("void"), Prim { name: String::from_str("std::ffi::c_void"), size: 0 }));
    v.push((String::from_str("fd"), Prim { name: String::from_str("i32"), size: 4 }));
    proof {
        assert(v.deep_view() =~= spec_builtin_types());
    }
    v
}

} // verus!
