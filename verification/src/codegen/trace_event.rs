//! The implementation of the trace event trait for a record type.

use crate::codegen::syntax::{parse_record, parsed_record};
use crate::text::{decimal, push_decimal, push_text};
use vstd::prelude::*;

verus! {

/// A named field of a record type: its name and the text of its type.
#[derive(Debug, Clone)]
pub struct RecordField {
    pub name: String,
    pub ty: String,
}

/// What a derive was applied to.
#[derive(Debug, Clone)]
pub enum DeriveShape {
    /// A struct with named fields.
    NamedFields(Vec<RecordField>),
    /// A struct with unnamed fields, or a unit struct.
    OtherFields,
    /// An enum or a union.
    NotAStruct,
}

/// The value of a [`DeriveShape`].
pub enum ShapeModel {
    /// The name and the type of each field.
    NamedFields(Seq<(Seq<char>, Seq<char>)>),
    OtherFields,
    NotAStruct,
}

/// The value of a shape.
pub open spec fn shape_model(shape: DeriveShape) -> ShapeModel {
    match shape {
        DeriveShape::NamedFields(fields) => ShapeModel::NamedFields(field_texts(fields@)),
        DeriveShape::OtherFields => ShapeModel::OtherFields,
        DeriveShape::NotAStruct => ShapeModel::NotAStruct,
    }
}

/// Why nothing can be derived.
#[derive(Debug, Clone, Copy, PartialEq, Eq, Structural)]
pub enum DeriveError {
    /// There is no declaration of a type.
    Syntax,
    OtherFields,
    NotAStruct,
}

impl DeriveError {
    /// What is wrong, in words.
    pub fn message(&self) -> (s: &'static str)
        ensures
            s@ == (match *self {
                DeriveError::Syntax => "expected a struct, an enum or a union"@,
                DeriveError::OtherFields => "TraceEvent only supports named fields"@,
                DeriveError::NotAStruct => "TraceEvent can only be derived for structs"@,
            }),
    {
        match self {
            DeriveError::Syntax => "expected a struct, an enum or a union",
            DeriveError::OtherFields => "TraceEvent only supports named fields",
            DeriveError::NotAStruct => "TraceEvent can only be derived for structs",
        }
    }
}

/// The name and the type of each field, as characters.
pub open spec fn field_texts(fields: Seq<RecordField>) -> Seq<(Seq<char>, Seq<char>)> {
    fields.map_values(|f: RecordField| (f.name@, f.ty@))
}

/// What is generated for each field.
#[derive(Debug, Clone, Copy, PartialEq, Eq, Structural)]
pub enum Part {
    /// Its entry in the list of field definitions.
    Definition,
    /// The statement that encodes it.
    Encoding,
    /// Its declaration in the struct that a decoded record is.
    Declaration,
    /// The initialization of that declaration.
    Decoding,
}

/// What is generated for the field number `i`.
pub open spec fn part_text(part: Part, i: nat, field: (Seq<char>, Seq<char>)) -> Seq<char> {
    match part {
        Part::Definition => "::dial9_trace_format::schema::FieldDef { name: \""@ + field.0
            + "\".to_string(), field_type: <"@ + field.1
            + " as ::dial9_trace_format::TraceField>::field_type() }, "@,
        Part::Encoding => "::dial9_trace_format::TraceField::encode_field(&self."@ + field.0
            + ", buf); "@,
        Part::Declaration => "pub "@ + field.0 + ": <"@ + field.1
            + " as ::dial9_trace_format::TraceField>::Ref<'a>, "@,
        Part::Decoding => field.0 + ": <"@ + field.1
            + " as ::dial9_trace_format::TraceField>::decode_ref(fields.get("@ + decimal(i)
            + "usize)?)?, "@,
    }
}

/// What is generated for all fields, in order.
pub open spec fn parts_text(part: Part, fields: Seq<(Seq<char>, Seq<char>)>) -> Seq<char>
    decreases fields.len(),
{
    if fields.len() == 0 {
        Seq::empty()
    } else {
        parts_text(part, fields.drop_last()) + part_text(
            part,
            (fields.len() - 1) as nat,
            fields.last(),
        )
    }
}

/// A struct without fields would not use its lifetime; it gets a marker.
pub open spec fn marker_declaration(fields: Seq<(Seq<char>, Seq<char>)>) -> Seq<char> {
    if fields.len() == 0 {
        "_marker: ::std::marker::PhantomData<&'a ()>, "@
    } else {
        Seq::empty()
    }
}

/// The initialization of the marker.
pub open spec fn marker_init(fields: Seq<(Seq<char>, Seq<char>)>) -> Seq<char> {
    if fields.len() == 0 {
        "_marker: ::std::marker::PhantomData, "@
    } else {
        Seq::empty()
    }
}

/// The struct that a decoded record is.
pub open spec fn ref_struct(name: Seq<char>, fields: Seq<(Seq<char>, Seq<char>)>) -> Seq<char> {
    "#[derive(Debug, Clone)] pub struct "@ + name + "Ref<'a> { "@ + parts_text(
        Part::Declaration,
        fields,
    ) + marker_declaration(fields) + "} "@
}

/// The implementation of the trait.
pub open spec fn event_impl(name: Seq<char>, fields: Seq<(Seq<char>, Seq<char>)>) -> Seq<char> {
    "impl ::dial9_trace_format::TraceEvent for "@ + name + " { type Ref<'a> = "@ + name
        + "Ref<'a>; fn event_name() -> &'static str { \""@ + name
        + "\" } fn field_defs() -> Vec<::dial9_trace_format::schema::FieldDef> { vec!["@
        + parts_text(Part::Definition, fields)
        + "] } fn encode_fields(&self, buf: &mut Vec<u8>) { "@ + parts_text(
        Part::Encoding,
        fields,
    )
        + "} fn decode<'a>(fields: &[::dial9_trace_format::types::FieldValueRef<'a>]) -> Option<Self::Ref<'a>> { Some("@
        + name + "Ref { "@ + parts_text(Part::Decoding, fields) + marker_init(fields) + "}) } }"@
}

fn push_part(s: &mut String, part: Part, i: usize, field: &RecordField)
    ensures
        final(s)@ == old(s)@ + part_text(part, i as nat, (field.name@, field.ty@)),
{
    let ghost before = s@;
    match part {
        Part::Definition => {
            push_text(s, "::dial9_trace_format::schema::FieldDef { name: \"");
            push_text(s, field.name.as_str());
            push_text(s, "\".to_string(), field_type: <");
            push_text(s, field.ty.as_str());
            push_text(s, " as ::dial9_trace_format::TraceField>::field_type() }, ");
        },
        Part::Encoding => {
            push_text(s, "::dial9_trace_format::TraceField::encode_field(&self.");
            push_text(s, field.name.as_str());
            push_text(s, ", buf); ");
        },
        Part::Declaration => {
            push_text(s, "pub ");
            push_text(s, field.name.as_str());
            push_text(s, ": <");
            push_text(s, field.ty.as_str());
            push_text(s, " as ::dial9_trace_format::TraceField>::Ref<'a>, ");
        },
        Part::Decoding => {
            push_text(s, field.name.as_str());
            push_text(s, ": <");
            push_text(s, field.ty.as_str());
            push_text(s, " as ::dial9_trace_format::TraceField>::decode_ref(fields.get(");
            push_decimal(s, i as u64);
            push_text(s, "usize)?)?, ");
        },
    }
    assert(s@ =~= before + part_text(part, i as nat, (field.name@, field.ty@)));
}

fn push_parts(s: &mut String, part: Part, fields: &Vec<RecordField>)
    ensures
        final(s)@ == old(s)@ + parts_text(part, field_texts(fields@)),
{
    let ghost before = s@;
    let ghost texts = field_texts(fields@);
    let mut i: usize = 0;
    assert(texts.take(0) =~= Seq::empty());
    assert(s@ =~= before + parts_text(part, texts.take(0)));
    while i < fields.len()
        invariant
            i <= fields@.len(),
            texts == field_texts(fields@),
            s@ == before + parts_text(part, texts.take(i as int)),
        decreases fields@.len() - i,
    {
        let ghost sofar = parts_text(part, texts.take(i as int));
        let ghost next = texts.take(i + 1);
        assert(next.drop_last() =~= texts.take(i as int));
        push_part(s, part, i, &fields[i]);
        assert(s@ =~= before + (sofar + part_text(part, i as nat, texts[i as int])));
        i = i + 1;
    }
    assert(texts.take(i as int) =~= texts);
}

fn push_ref_struct(s: &mut String, name: &str, fields: &Vec<RecordField>)
    ensures
        final(s)@ == old(s)@ + ref_struct(name@, field_texts(fields@)),
{
    let ghost before = s@;
    let ghost texts = field_texts(fields@);
    push_text(s, "#[derive(Debug, Clone)] pub struct ");
    push_text(s, name);
    push_text(s, "Ref<'a> { ");
    push_parts(s, Part::Declaration, fields);
    if fields.len() == 0 {
        push_text(s, "_marker: ::std::marker::PhantomData<&'a ()>, ");
    }
    push_text(s, "} ");
    assert(s@ =~= before + ref_struct(name@, texts));
}

fn push_event_impl(s: &mut String, name: &str, fields: &Vec<RecordField>)
    ensures
        final(s)@ == old(s)@ + event_impl(name@, field_texts(fields@)),
{
    let ghost before = s@;
    let ghost texts = field_texts(fields@);
    push_text(s, "impl ::dial9_trace_format::TraceEvent for ");
    push_text(s, name);
    push_text(s, " { type Ref<'a> = ");
    push_text(s, name);
    push_text(s, "Ref<'a>; fn event_name() -> &'static str { \"");
    push_text(s, name);
    push_text(
        s,
        "\" } fn field_defs() -> Vec<::dial9_trace_format::schema::FieldDef> { vec![",
    );
    push_parts(s, Part::Definition, fields);
    push_text(s, "] } fn encode_fields(&self, buf: &mut Vec<u8>) { ");
    push_parts(s, Part::Encoding, fields);
    push_text(
        s,
        "} fn decode<'a>(fields: &[::dial9_trace_format::types::FieldValueRef<'a>]) -> Option<Self::Ref<'a>> { Some(",
    );
    push_text(s, name);
    push_text(s, "Ref { ");
    push_parts(s, Part::Decoding, fields);
    if fields.len() == 0 {
        push_text(s, "_marker: ::std::marker::PhantomData, ");
    }
    push_text(s, "}) } }");
    assert(s@ =~= before + event_impl(name@, texts));
}

/// Whether `r` is what is derived for the type `name`: only structs with named
/// fields have an implementation, and the struct that a decoded record is.
pub open spec fn is_derived(
    name: Seq<char>,
    shape: ShapeModel,
    r: Result<String, DeriveError>,
) -> bool {
    match shape {
        ShapeModel::NamedFields(fields) => r matches Ok(text) && text@ == ref_struct(name, fields)
            + event_impl(name, fields),
        ShapeModel::OtherFields => r matches Err(e) && e == DeriveError::OtherFields,
        ShapeModel::NotAStruct => r matches Err(e) && e == DeriveError::NotAStruct,
    }
}

/// The implementation of the trace event trait for the type that `input`
/// declares.
pub fn derive_trace_event(input: &str) -> (r: Result<String, DeriveError>)
    ensures
        match parsed_record(input@) {
            Some((name, shape)) => is_derived(name, shape, r),
            None => r matches Err(e) && e == DeriveError::Syntax,
        },
{
    match parse_record(input) {
        Some((name, shape)) => derive_for_shape(name.as_str(), &shape),
        None => Err(DeriveError::Syntax),
    }
}

/// The implementation of the trace event trait for the type `name`, with the
/// struct that a decoded record is. Only structs with named fields have one.
pub fn derive_for_shape(name: &str, shape: &DeriveShape) -> (r: Result<String, DeriveError>)
    ensures
        is_derived(name@, shape_model(*shape), r),
        match *shape {
            DeriveShape::NamedFields(fields) => r matches Ok(text) && forall|i: int|
                0 <= i < fields@.len() ==> exists|at: int|
                    0 <= at <= text@.len() && ("::dial9_trace_format::schema::FieldDef { name: \""@
                        + (#[trigger] fields@[i]).name@ + "\".to_string(), field_type: <"@
                        + fields@[i].ty@
                        + " as ::dial9_trace_format::TraceField>::field_type() }, "@).is_prefix_of(
                        #[trigger] text@.skip(at),
                    ),
            DeriveShape::OtherFields => r matches Err(e) && e == DeriveError::OtherFields,
            DeriveShape::NotAStruct => r matches Err(e) && e == DeriveError::NotAStruct,
        },
{
    match shape {
        DeriveShape::NamedFields(fields) => {
            let mut text = String::new();
            push_ref_struct(&mut text, name, fields);
            let ghost head = text@;
            assert(head =~= ref_struct(name@, field_texts(fields@)));
            push_event_impl(&mut text, name, fields);
            proof {
                let texts = field_texts(fields@);
                assert forall|i: int| 0 <= i < fields@.len() implies exists|at: int|
                    0 <= at <= text@.len() && ("::dial9_trace_format::schema::FieldDef { name: \""@
                        + (#[trigger] fields@[i]).name@ + "\".to_string(), field_type: <"@
                        + fields@[i].ty@
                        + " as ::dial9_trace_format::TraceField>::field_type() }, "@).is_prefix_of(
                        #[trigger] text@.skip(at),
                    ) by {
                    assert(texts[i] == (fields@[i].name@, fields@[i].ty@));
                    let at = lemma_each_field_has_its_definition(name@, texts, i);
                    let whole = event_impl(name@, texts);
                    assert(text@.skip(head.len() + at) =~= whole.skip(at));
                }
            }
            Ok(text)
        },
        DeriveShape::OtherFields => Err(DeriveError::OtherFields),
        DeriveShape::NotAStruct => Err(DeriveError::NotAStruct),
    }
}

/// Fields are defined, encoded and decoded in the order of their declaration:
/// what is generated for a list of fields is what is generated for its first
/// fields, followed by what is generated for the others at their own places.
pub proof fn lemma_parts_follow_declaration_order(
    part: Part,
    fields: Seq<(Seq<char>, Seq<char>)>,
    i: int,
)
    requires
        0 <= i < fields.len(),
    ensures
        parts_text(part, fields.take(i + 1)) == parts_text(part, fields.take(i)) + part_text(
            part,
            i as nat,
            fields[i],
        ),
{
    assert(fields.take(i + 1).drop_last() =~= fields.take(i));
}

/// The name and the type of a field are taken as they are declared.
pub proof fn lemma_field_texts_are_as_declared(fields: Seq<RecordField>, i: int)
    requires
        0 <= i < fields.len(),
    ensures
        field_texts(fields).len() == fields.len(),
        field_texts(fields)[i].0 == fields[i].name@,
        field_texts(fields)[i].1 == fields[i].ty@,
        shape_model(DeriveShape::OtherFields) is OtherFields,
        shape_model(DeriveShape::NotAStruct) is NotAStruct,
{
}

/// The generated code names each field as it is declared. Its definition has
/// its name in quotes and the type whose field type is taken; its encoding takes
/// the field of that name; what is decoded has that name and that type again,
/// from the value at the field's own place.
pub proof fn lemma_fields_are_named_as_declared(fields: Seq<(Seq<char>, Seq<char>)>, i: int)
    requires
        0 <= i < fields.len(),
    ensures
        parts_text(Part::Definition, fields.take(i + 1)) == parts_text(
            Part::Definition,
            fields.take(i),
        ) + ("::dial9_trace_format::schema::FieldDef { name: \""@ + fields[i].0
            + "\".to_string(), field_type: <"@ + fields[i].1
            + " as ::dial9_trace_format::TraceField>::field_type() }, "@),
        parts_text(Part::Encoding, fields.take(i + 1)) == parts_text(Part::Encoding, fields.take(i))
            + ("::dial9_trace_format::TraceField::encode_field(&self."@ + fields[i].0
            + ", buf); "@),
        parts_text(Part::Declaration, fields.take(i + 1)) == parts_text(
            Part::Declaration,
            fields.take(i),
        ) + ("pub "@ + fields[i].0 + ": <"@ + fields[i].1
            + " as ::dial9_trace_format::TraceField>::Ref<'a>, "@),
        parts_text(Part::Decoding, fields.take(i + 1)) == parts_text(Part::Decoding, fields.take(i))
            + (fields[i].0 + ": <"@ + fields[i].1
            + " as ::dial9_trace_format::TraceField>::decode_ref(fields.get("@ + decimal(i as nat)
            + "usize)?)?, "@),
{
    assert(fields.take(i + 1).drop_last() =~= fields.take(i));
}

proof fn lemma_parts_begin_with_the_first(
    part: Part,
    fields: Seq<(Seq<char>, Seq<char>)>,
    n: int,
)
    requires
        0 <= n <= fields.len(),
    ensures
        parts_text(part, fields.take(n)).is_prefix_of(parts_text(part, fields)),
    decreases fields.len() - n,
{
    if n == fields.len() {
        assert(fields.take(n) =~= fields);
    } else {
        lemma_parts_begin_with_the_first(part, fields, n + 1);
        lemma_parts_follow_declaration_order(part, fields, n);
    }
}

/// Somewhere in the implementation stands the definition of each field, with the
/// field's name in quotes as its name, and the field's type as the type whose
/// field type is taken.
pub proof fn lemma_each_field_has_its_definition(
    name: Seq<char>,
    fields: Seq<(Seq<char>, Seq<char>)>,
    i: int,
) -> (at: int)
    requires
        0 <= i < fields.len(),
    ensures
        0 <= at <= event_impl(name, fields).len(),
        ("::dial9_trace_format::schema::FieldDef { name: \""@ + fields[i].0
            + "\".to_string(), field_type: <"@ + fields[i].1
            + " as ::dial9_trace_format::TraceField>::field_type() }, "@).is_prefix_of(
            event_impl(name, fields).skip(at),
        ),
{
    let whole = event_impl(name, fields);
    let defs = parts_text(Part::Definition, fields);
    let before = parts_text(Part::Definition, fields.take(i));
    let own = "::dial9_trace_format::schema::FieldDef { name: \""@ + fields[i].0
        + "\".to_string(), field_type: <"@ + fields[i].1
        + " as ::dial9_trace_format::TraceField>::field_type() }, "@;
    lemma_fields_are_named_as_declared(fields, i);
    lemma_parts_begin_with_the_first(Part::Definition, fields, i + 1);
    assert((before + own).is_prefix_of(defs));
    let start = ("impl ::dial9_trace_format::TraceEvent for "@ + name + " { type Ref<'a> = "@ + name
        + "Ref<'a>; fn event_name() -> &'static str { \""@ + name
        + "\" } fn field_defs() -> Vec<::dial9_trace_format::schema::FieldDef> { vec!["@).len();
    assert(forall|k: int| 0 <= k < defs.len() ==> whole[start + k] == #[trigger] defs[k]);
    let at = start + before.len();
    assert forall|k: int| 0 <= k < own.len() implies #[trigger] whole.skip(at as int)[k]
        == own[k] by {
        assert((before + own)[before.len() + k] == own[k]);
        assert(defs[before.len() + k] == own[k]);
    }
    assert(own =~= whole.skip(at as int).take(own.len() as int));
    at as int
}

/// The implementation is of the trait for the type of the given name, which is
/// the name of the event too. It defines, encodes and decodes the fields, in
/// this order, and a decoded record is the struct whose name has `Ref` behind.
pub proof fn lemma_implementation_is_of_the_named_type(
    name: Seq<char>,
    fields: Seq<(Seq<char>, Seq<char>)>,
)
    ensures
        ("impl ::dial9_trace_format::TraceEvent for "@ + name + " { type Ref<'a> = "@ + name
            + "Ref<'a>; fn event_name() -> &'static str { \""@ + name
            + "\" } fn field_defs() -> Vec<::dial9_trace_format::schema::FieldDef> { vec!["@
            + parts_text(Part::Definition, fields)
            + "] } fn encode_fields(&self, buf: &mut Vec<u8>) { "@ + parts_text(
            Part::Encoding,
            fields,
        )).is_prefix_of(event_impl(name, fields)),
        fields.len() > 0 ==> ("} fn decode<'a>(fields: &[::dial9_trace_format::types::FieldValueRef<'a>]) -> Option<Self::Ref<'a>> { Some("@
            + name + "Ref { "@ + parts_text(
            Part::Decoding,
            fields,
        ) + "}) } }"@).is_suffix_of(event_impl(name, fields)),
        ("#[derive(Debug, Clone)] pub struct "@ + name + "Ref<'a> { "@ + parts_text(
            Part::Declaration,
            fields,
        )).is_prefix_of(ref_struct(name, fields)),
        fields.len() > 0 ==> ref_struct(name, fields) == "#[derive(Debug, Clone)] pub struct "@
            + name + "Ref<'a> { "@ + parts_text(Part::Declaration, fields) + "} "@,
        fields.len() == 0 ==> ("_marker: ::std::marker::PhantomData<&'a ()>, "@
            + "} "@).is_suffix_of(ref_struct(name, fields)),
        fields.len() == 0 ==> ("_marker: ::std::marker::PhantomData, "@
            + "}) } }"@).is_suffix_of(event_impl(name, fields)),
{
}

/// What is derived for a struct with named fields is the struct that a decoded
/// record is, and then the implementation, both for the type's name and its
/// fields; nothing is derived for anything else, and the error says what for.
pub proof fn lemma_named_fields_are_derived(
    name: Seq<char>,
    fields: Seq<RecordField>,
    decl: Vec<RecordField>,
    r: Result<String, DeriveError>,
)
    requires
        decl@ == fields,
    ensures
        is_derived(name, shape_model(DeriveShape::NamedFields(decl)), r) <==> (r matches Ok(text)
            && text@ == ref_struct(name, field_texts(fields)) + event_impl(
            name,
            field_texts(fields),
        )),
        is_derived(name, shape_model(DeriveShape::OtherFields), r) <==> (r matches Err(e) && e
            == DeriveError::OtherFields),
        is_derived(name, shape_model(DeriveShape::NotAStruct), r) <==> (r matches Err(e) && e
            == DeriveError::NotAStruct),
{
}

} // verus!
