//! The YAML side of a CABIDL block: loading a block's text into a tree of
//! plain values (through `serde_yaml`), finding its `kind`, and decoding the
//! tree into the block structures, with unknown fields refused.
use crate::text::{owned, push_str, str_eq};
use vstd::prelude::*;

verus! {

/// A YAML value as plain data.
#[derive(Debug)]
pub enum YamlValue {
    Null,
    Bool(bool),
    /// A number, in the notation `serde_yaml` prints it.
    Number(String),
    Str(String),
    Sequence(Vec<YamlValue>),
    /// Key/value pairs in document order.
    Mapping(Vec<(YamlValue, YamlValue)>),
    /// A value with a `!tag`.
    Tagged(String, Box<YamlValue>),
}

/// What `serde_yaml` makes of a YAML text: a value, or the text of its
/// error. Determined by the text alone.
pub uninterp spec fn yaml_document(text: Seq<char>) -> Result<YamlValue, Seq<char>>;

/// `serde_yaml::Value`, carried through opaque.
#[verifier::external_type_specification]
#[verifier::external_body]
pub struct ExSerdeYamlValue(serde_yaml::Value);

/// Converts a loaded `serde_yaml` value into plain data, variant by
/// variant: a number becomes the text that `Display` gives it, a tag the
/// text of the tag, and a mapping its entries in their order.
#[verifier::external_body]
fn from_serde_value(v: serde_yaml::Value) -> YamlValue {
    match v {
        serde_yaml::Value::Null => YamlValue::Null,
        serde_yaml::Value::Bool(b) => YamlValue::Bool(b),
        serde_yaml::Value::Number(n) => YamlValue::Number(n.to_string()),
        serde_yaml::Value::String(s) => YamlValue::Str(s),
        serde_yaml::Value::Sequence(items) => YamlValue::Sequence(items.into_iter().map(from_serde_value).collect()),
        serde_yaml::Value::Mapping(m) => YamlValue::Mapping(m.into_iter().map(|(k, v)| (from_serde_value(k), from_serde_value(v))).collect()),
        serde_yaml::Value::Tagged(t) => YamlValue::Tagged(t.tag.to_string(), Box::new(from_serde_value(t.value))),
    }
}

/// `serde_yaml::from_str::<serde_yaml::Value>`: loads a YAML text. The
/// contract names the outcome `yaml_document(text)`, the loaded value or the
/// `Display` text of the error; it says nothing of how YAML is read.
#[verifier::external_body]
pub(crate) fn load_yaml(text: &str) -> (r: Result<YamlValue, String>)
    ensures
        match r {
            Ok(v) => yaml_document(text@) == Ok::<YamlValue, Seq<char>>(v),
            Err(e) => yaml_document(text@) == Err::<YamlValue, Seq<char>>(e@),
        },
{
    match serde_yaml::from_str::<serde_yaml::Value>(text) {
        Ok(v) => Ok(from_serde_value(v)),
        Err(e) => Err(e.to_string()),
    }
}

/// The value under any tags.
pub open spec fn untag(v: YamlValue) -> YamlValue
    decreases v,
{
    match v {
        YamlValue::Tagged(_, inner) => untag(*inner),
        _ => v,
    }
}

pub fn untagged(v: &YamlValue) -> (r: &YamlValue)
    ensures
        *r == untag(*v),
    decreases v,
{
    match v {
        YamlValue::Tagged(_, inner) => untagged(&**inner),
        _ => v,
    }
}

/// The text that a scalar stands for when a string is read from it;
/// `None` for a sequence, a mapping or a tagged value. It is read from the
/// loaded value, not from the scalar's text in the block: a null reads as
/// empty, a number as `serde_yaml` prints it (`0x10` as `16`), a boolean
/// as `true` or `false`.
pub open spec fn scalar_text(v: YamlValue) -> Option<Seq<char>> {
    match v {
        YamlValue::Null => Some(Seq::empty()),
        YamlValue::Bool(b) => Some(
            if b {
                "true"@
            } else {
                "false"@
            },
        ),
        YamlValue::Number(t) => Some(t@),
        YamlValue::Str(s) => Some(s@),
        _ => None,
    }
}

pub fn scalar_string(v: &YamlValue) -> (r: Option<String>)
    ensures
        match r {
            Some(s) => scalar_text(*v) == Some(s@),
            None => scalar_text(*v) is None,
        },
{
    match v {
        YamlValue::Null => Some(String::new()),
        YamlValue::Bool(b) => {
            if *b {
                Some(owned("true"))
            } else {
                Some(owned("false"))
            }
        },
        YamlValue::Number(t) => Some(t.clone()),
        YamlValue::Str(s) => Some(s.clone()),
        _ => None,
    }
}

/// A short name of the sort of a value, for error messages.
pub open spec fn describe(v: YamlValue) -> Seq<char> {
    match v {
        YamlValue::Null => "null"@,
        YamlValue::Bool(_) => "boolean"@,
        YamlValue::Number(_) => "number"@,
        YamlValue::Str(_) => "string"@,
        YamlValue::Sequence(_) => "sequence"@,
        YamlValue::Mapping(_) => "map"@,
        YamlValue::Tagged(_, _) => "tagged value"@,
    }
}

pub fn describe_value(v: &YamlValue) -> (r: &'static str)
    ensures
        r@ == describe(*v),
{
    match v {
        YamlValue::Null => "null",
        YamlValue::Bool(_) => "boolean",
        YamlValue::Number(_) => "number",
        YamlValue::Str(_) => "string",
        YamlValue::Sequence(_) => "sequence",
        YamlValue::Mapping(_) => "map",
        YamlValue::Tagged(_, _) => "tagged value",
    }
}

/// `"invalid type: <what>, expected <expected>"`.
pub open spec fn invalid_type(v: YamlValue, expected: Seq<char>) -> Seq<char> {
    "invalid type: "@ + describe(v) + ", expected "@ + expected
}

fn invalid_type_msg(v: &YamlValue, expected: &str) -> (r: String)
    ensures
        r@ == invalid_type(*v, expected@),
{
    let mut r = owned("invalid type: ");
    push_str(&mut r, describe_value(v));
    push_str(&mut r, ", expected ");
    push_str(&mut r, expected);
    r
}

// ---------------------------------------------------------------------------
// The `kind` of a block
// ---------------------------------------------------------------------------
/// The value stored under the string key `key` in a list of entries.
pub open spec fn find_key(entries: Seq<(YamlValue, YamlValue)>, key: Seq<char>, i: int) -> Option<
    YamlValue,
>
    decreases entries.len() - i,
{
    if i < 0 || i >= entries.len() {
        None
    } else if entries[i].0 matches YamlValue::Str(s) && s@ == key {
        Some(entries[i].1)
    } else {
        find_key(entries, key, i + 1)
    }
}

/// The text of the block's `kind` entry, when the block is a mapping whose
/// `kind` entry holds a string (`value.get("kind").and_then(as_str)`).
pub open spec fn kind_of(v: YamlValue) -> Option<Seq<char>> {
    match untag(v) {
        YamlValue::Mapping(entries) => match find_key(entries@, "kind"@, 0) {
            Some(k) => match untag(k) {
                YamlValue::Str(s) => Some(s@),
                _ => None,
            },
            None => None,
        },
        _ => None,
    }
}

/// The index of the entry under the string key `key`, from `i` on.
fn find_key_index(entries: &Vec<(YamlValue, YamlValue)>, key: &str) -> (r: Option<usize>)
    ensures
        match r {
            Some(j) => j < entries@.len() && find_key(entries@, key@, 0) == Some(entries@[j as int].1),
            None => find_key(entries@, key@, 0) is None,
        },
{
    let mut i: usize = 0;
    while i < entries.len()
        invariant
            i <= entries@.len(),
            find_key(entries@, key@, i as int) == find_key(entries@, key@, 0),
        decreases entries@.len() - i,
    {
        match &entries[i].0 {
            YamlValue::Str(s) => {
                if str_eq(s.as_str(), key) {
                    return Some(i);
                }
            },
            _ => {},
        }
        i = i + 1;
    }
    None
}

/// The `kind` of a block, as the block's mapping holds it.
pub fn block_kind(v: &YamlValue) -> (r: Option<String>)
    ensures
        match r {
            Some(s) => kind_of(*v) == Some(s@),
            None => kind_of(*v) is None,
        },
{
    match untagged(v) {
        YamlValue::Mapping(entries) => {
            match find_key_index(entries, "kind") {
                Some(j) => match untagged(&entries[j].1) {
                    YamlValue::Str(s) => Some(s.clone()),
                    _ => None,
                },
                None => None,
            }
        },
        _ => None,
    }
}

// ---------------------------------------------------------------------------
// Decoding a mapping into a block structure
// ---------------------------------------------------------------------------
/// What a field of a block structure holds.
#[derive(Clone, Copy, Debug, PartialEq, Eq, Structural)]
pub enum FieldKind {
    /// A required string.
    Text,
    /// An optional string.
    OptText,
    /// An optional list of strings.
    OptTextList,
    /// An optional `specification` structure.
    OptSpecification,
    /// An optional `boundaries` structure.
    OptBoundaries,
}

/// The fields of a block structure, by name and by what they hold.
pub struct Shape {
    pub names: Vec<String>,
    pub kinds: Vec<FieldKind>,
}

pub open spec fn name_views(names: Seq<String>) -> Seq<Seq<char>> {
    names.map_values(|n: String| n@)
}

pub open spec fn system_names() -> Seq<Seq<char>> {
    seq!["kind"@, "name"@]
}

pub open spec fn system_kinds() -> Seq<FieldKind> {
    seq![FieldKind::Text, FieldKind::Text]
}

pub open spec fn boundary_names() -> Seq<Seq<char>> {
    seq!["kind"@, "name"@, "exposure"@, "specification"@]
}

pub open spec fn boundary_kinds() -> Seq<FieldKind> {
    seq![FieldKind::Text, FieldKind::Text, FieldKind::OptText, FieldKind::OptSpecification]
}

pub open spec fn component_names() -> Seq<Seq<char>> {
    seq!["kind"@, "name"@, "technology"@, "boundaries"@]
}

pub open spec fn component_kinds() -> Seq<FieldKind> {
    seq![FieldKind::Text, FieldKind::Text, FieldKind::OptText, FieldKind::OptBoundaries]
}

pub open spec fn specification_names() -> Seq<Seq<char>> {
    seq!["path"@, "typeDescription"@]
}

pub open spec fn specification_kinds() -> Seq<FieldKind> {
    seq![FieldKind::OptText, FieldKind::OptText]
}

pub open spec fn boundaries_names() -> Seq<Seq<char>> {
    seq!["provides"@, "requires"@]
}

pub open spec fn boundaries_kinds() -> Seq<FieldKind> {
    seq![FieldKind::OptTextList, FieldKind::OptTextList]
}

pub open spec fn shape_is(s: Shape, names: Seq<Seq<char>>, kinds: Seq<FieldKind>) -> bool {
    &&& name_views(s.names@) == names
    &&& s.kinds@ == kinds
}

fn make_shape(a: &str, b: &str, ka: FieldKind, kb: FieldKind) -> (s: Shape)
    ensures
        shape_is(s, seq![a@, b@], seq![ka, kb]),
{
    let s = Shape { names: vec![owned(a), owned(b)], kinds: vec![ka, kb] };
    assert(name_views(s.names@) =~= seq![a@, b@]);
    assert(s.kinds@ =~= seq![ka, kb]);
    s
}

fn make_shape4(
    a: &str,
    b: &str,
    c: &str,
    d: &str,
    kc: FieldKind,
    kd: FieldKind,
) -> (s: Shape)
    ensures
        shape_is(s, seq![a@, b@, c@, d@], seq![FieldKind::Text, FieldKind::Text, kc, kd]),
{
    let s = Shape {
        names: vec![owned(a), owned(b), owned(c), owned(d)],
        kinds: vec![FieldKind::Text, FieldKind::Text, kc, kd],
    };
    assert(name_views(s.names@) =~= seq![a@, b@, c@, d@]);
    assert(s.kinds@ =~= seq![FieldKind::Text, FieldKind::Text, kc, kd]);
    s
}

/// The part of an unknown-field message that lists the known fields.
pub open spec fn expected_fields(names: Seq<Seq<char>>) -> Seq<char> {
    if names.len() == 2 {
        "`"@ + names[0] + "` or `"@ + names[1] + "`"@
    } else if names.len() == 4 {
        "one of `"@ + names[0] + "`, `"@ + names[1] + "`, `"@ + names[2] + "`, `"@ + names[3]
            + "`"@
    } else {
        "a known field"@
    }
}

/// `"unknown field `<key>`, expected <fields>"`.
pub open spec fn unknown_field(key: Seq<char>, names: Seq<Seq<char>>) -> Seq<char> {
    "unknown field `"@ + key + "`, expected "@ + expected_fields(names)
}

fn unknown_field_msg(key: &String, shape: &Shape) -> (r: String)
    ensures
        r@ == unknown_field(key@, name_views(shape.names@)),
{
    let mut r = owned("unknown field `");
    push_str(&mut r, key.as_str());
    push_str(&mut r, "`, expected ");
    let n = shape.names.len();
    if n == 2 {
        push_str(&mut r, "`");
        push_str(&mut r, shape.names[0].as_str());
        push_str(&mut r, "` or `");
        push_str(&mut r, shape.names[1].as_str());
        push_str(&mut r, "`");
    } else if n == 4 {
        push_str(&mut r, "one of `");
        push_str(&mut r, shape.names[0].as_str());
        push_str(&mut r, "`, `");
        push_str(&mut r, shape.names[1].as_str());
        push_str(&mut r, "`, `");
        push_str(&mut r, shape.names[2].as_str());
        push_str(&mut r, "`, `");
        push_str(&mut r, shape.names[3].as_str());
        push_str(&mut r, "`");
    } else {
        push_str(&mut r, "a known field");
    }
    r
}

/// The error, if any, in a value given to a field that holds a string or
/// a list of strings.
pub open spec fn flat_field_error(kind: FieldKind, v: YamlValue) -> Option<Seq<char>> {
    let u = untag(v);
    match kind {
        FieldKind::Text => if scalar_text(u) is Some {
            None
        } else {
            Some(invalid_type(u, "a string"@))
        },
        FieldKind::OptText => if u is Null || scalar_text(u) is Some {
            None
        } else {
            Some(invalid_type(u, "a string"@))
        },
        FieldKind::OptTextList => match u {
            YamlValue::Null => None,
            YamlValue::Sequence(items) => list_item_error(items@, 0),
            _ => Some(invalid_type(u, "a sequence"@)),
        },
        _ => None,
    }
}

/// The error in the first item, from `i` on, that is not a scalar.
pub open spec fn list_item_error(items: Seq<YamlValue>, i: int) -> Option<Seq<char>>
    decreases items.len() - i,
{
    if i < 0 || i >= items.len() {
        None
    } else if scalar_text(untag(items[i])) is None {
        Some(invalid_type(untag(items[i]), "a string"@))
    } else {
        list_item_error(items, i + 1)
    }
}

/// The index of `key` among the field names, from `j` on.
pub open spec fn field_index(names: Seq<Seq<char>>, key: Seq<char>, j: int) -> int
    decreases names.len() - j,
{
    if j < 0 || j >= names.len() {
        -1
    } else if names[j] == key {
        j
    } else {
        field_index(names, key, j + 1)
    }
}

/// Walks the entries of a mapping from `i` on, in order, as a derived
/// deserializer that refuses unknown fields does: a key must be a scalar
/// naming a field not seen before, and its value must suit the field.
/// Gives, for each field, the index of the entry that sets it.
pub open spec fn scan_flat(
    entries: Seq<(YamlValue, YamlValue)>,
    i: int,
    names: Seq<Seq<char>>,
    kinds: Seq<FieldKind>,
    slots: Seq<Option<int>>,
) -> Result<Seq<Option<int>>, Seq<char>>
    decreases entries.len() - i,
{
    if i < 0 || i >= entries.len() {
        Ok(slots)
    } else {
        let k = untag(entries[i].0);
        match scalar_text(k) {
            None => Err(invalid_type(k, "field identifier"@)),
            Some(t) => {
                let f = field_index(names, t, 0);
                if f < 0 || f >= slots.len() || f >= kinds.len() {
                    Err(unknown_field(t, names))
                } else if slots[f] is Some {
                    Err("duplicate field `"@ + t + "`"@)
                } else {
                    match flat_field_error(kinds[f], entries[i].1) {
                        Some(e) => Err(e),
                        None => scan_flat(entries, i + 1, names, kinds, slots.update(f, Some(i))),
                    }
                }
            },
        }
    }
}

/// The error, if any, in a value given to any field.
pub open spec fn field_error(kind: FieldKind, v: YamlValue) -> Option<Seq<char>> {
    let u = untag(v);
    match kind {
        FieldKind::OptSpecification => match u {
            YamlValue::Null => None,
            YamlValue::Mapping(es) => match scan_flat(
                es@,
                0,
                specification_names(),
                specification_kinds(),
                seq![None, None],
            ) {
                Ok(_) => None,
                Err(e) => Some(e),
            },
            _ => Some(invalid_type(u, "struct SpecificationYaml"@)),
        },
        FieldKind::OptBoundaries => match u {
            YamlValue::Null => None,
            YamlValue::Mapping(es) => match scan_flat(
                es@,
                0,
                boundaries_names(),
                boundaries_kinds(),
                seq![None, None],
            ) {
                Ok(_) => None,
                Err(e) => Some(e),
            },
            _ => Some(invalid_type(u, "struct BoundariesYaml"@)),
        },
        _ => flat_field_error(kind, v),
    }
}

/// `scan_flat`, for the fields of a whole block.
pub open spec fn scan_block(
    entries: Seq<(YamlValue, YamlValue)>,
    i: int,
    names: Seq<Seq<char>>,
    kinds: Seq<FieldKind>,
    slots: Seq<Option<int>>,
) -> Result<Seq<Option<int>>, Seq<char>>
    decreases entries.len() - i,
{
    if i < 0 || i >= entries.len() {
        Ok(slots)
    } else {
        let k = untag(entries[i].0);
        match scalar_text(k) {
            None => Err(invalid_type(k, "field identifier"@)),
            Some(t) => {
                let f = field_index(names, t, 0);
                if f < 0 || f >= slots.len() || f >= kinds.len() {
                    Err(unknown_field(t, names))
                } else if slots[f] is Some {
                    Err("duplicate field `"@ + t + "`"@)
                } else {
                    match field_error(kinds[f], entries[i].1) {
                        Some(e) => Err(e),
                        None => scan_block(entries, i + 1, names, kinds, slots.update(f, Some(i))),
                    }
                }
            },
        }
    }
}

/// The first required field, from `j` on, that no entry set.
pub open spec fn missing_field(
    names: Seq<Seq<char>>,
    kinds: Seq<FieldKind>,
    slots: Seq<Option<int>>,
    j: int,
) -> Option<Seq<char>>
    decreases names.len() - j,
{
    if j < 0 || j >= names.len() || j >= kinds.len() || j >= slots.len() {
        None
    } else if kinds[j] == FieldKind::Text && slots[j] is None {
        Some("missing field `"@ + names[j] + "`"@)
    } else {
        missing_field(names, kinds, slots, j + 1)
    }
}

proof fn lemma_scan_flat_slots(
    entries: Seq<(YamlValue, YamlValue)>,
    i: int,
    names: Seq<Seq<char>>,
    kinds: Seq<FieldKind>,
    slots: Seq<Option<int>>,
)
    requires
        0 <= i,
        forall|f: int| 0 <= f < slots.len() ==> (#[trigger] slots[f] matches Some(x) ==> 0 <= x < entries.len()),
    ensures
        scan_flat(entries, i, names, kinds, slots) matches Ok(out) ==> {
            &&& out.len() == slots.len()
            &&& forall|f: int| 0 <= f < out.len() ==> (#[trigger] out[f] matches Some(x) ==> 0 <= x < entries.len())
        },
    decreases entries.len() - i,
{
    if i < entries.len() {
        let k = untag(entries[i].0);
        if let Some(t) = scalar_text(k) {
            let f = field_index(names, t, 0);
            if 0 <= f < slots.len() && f < kinds.len() && slots[f] is None {
                if flat_field_error(kinds[f], entries[i].1) is None {
                    let s2 = slots.update(f, Some(i));
                    assert forall|g: int| 0 <= g < s2.len() implies (#[trigger] s2[g] matches Some(x)
                        ==> 0 <= x < entries.len()) by {
                        if g != f {
                            assert(s2[g] == slots[g]);
                        }
                    }
                    lemma_scan_flat_slots(entries, i + 1, names, kinds, s2);
                }
            }
        }
    }
}

proof fn lemma_scan_block_slots(
    entries: Seq<(YamlValue, YamlValue)>,
    i: int,
    names: Seq<Seq<char>>,
    kinds: Seq<FieldKind>,
    slots: Seq<Option<int>>,
)
    requires
        0 <= i,
        forall|f: int| 0 <= f < slots.len() ==> (#[trigger] slots[f] matches Some(x) ==> 0 <= x < entries.len()),
    ensures
        scan_block(entries, i, names, kinds, slots) matches Ok(out) ==> {
            &&& out.len() == slots.len()
            &&& forall|f: int| 0 <= f < out.len() ==> (#[trigger] out[f] matches Some(x) ==> 0 <= x < entries.len())
        },
    decreases entries.len() - i,
{
    if i < entries.len() {
        let k = untag(entries[i].0);
        if let Some(t) = scalar_text(k) {
            let f = field_index(names, t, 0);
            if 0 <= f < slots.len() && f < kinds.len() && slots[f] is None {
                if field_error(kinds[f], entries[i].1) is None {
                    let s2 = slots.update(f, Some(i));
                    assert forall|g: int| 0 <= g < s2.len() implies (#[trigger] s2[g] matches Some(x)
                        ==> 0 <= x < entries.len()) by {
                        if g != f {
                            assert(s2[g] == slots[g]);
                        }
                    }
                    lemma_scan_block_slots(entries, i + 1, names, kinds, s2);
                }
            }
        }
    }
}

fn field_position(shape: &Shape, key: &String) -> (r: Option<usize>)
    ensures
        match r {
            Some(f) => f < shape.names@.len() && field_index(name_views(shape.names@), key@, 0) == f,
            None => field_index(name_views(shape.names@), key@, 0) == -1,
        },
{
    let ghost names = name_views(shape.names@);
    let mut j: usize = 0;
    while j < shape.names.len()
        invariant
            j <= shape.names@.len(),
            names == name_views(shape.names@),
            field_index(names, key@, j as int) == field_index(names, key@, 0),
        decreases shape.names@.len() - j,
    {
        if str_eq(shape.names[j].as_str(), key.as_str()) {
            return Some(j);
        }
        j = j + 1;
    }
    None
}

fn list_error(items: &Vec<YamlValue>) -> (r: Option<String>)
    ensures
        match r {
            Some(e) => list_item_error(items@, 0) == Some(e@),
            None => list_item_error(items@, 0) is None,
        },
{
    let mut i: usize = 0;
    while i < items.len()
        invariant
            i <= items@.len(),
            list_item_error(items@, i as int) == list_item_error(items@, 0),
        decreases items@.len() - i,
    {
        let u = untagged(&items[i]);
        if scalar_string(u).is_none() {
            return Some(invalid_type_msg(u, "a string"));
        }
        i = i + 1;
    }
    None
}

fn flat_value_error(kind: FieldKind, v: &YamlValue) -> (r: Option<String>)
    ensures
        match r {
            Some(e) => flat_field_error(kind, *v) == Some(e@),
            None => flat_field_error(kind, *v) is None,
        },
{
    let u = untagged(v);
    match kind {
        FieldKind::Text => {
            if scalar_string(u).is_some() {
                None
            } else {
                Some(invalid_type_msg(u, "a string"))
            }
        },
        FieldKind::OptText => {
            if matches!(u, YamlValue::Null) || scalar_string(u).is_some() {
                None
            } else {
                Some(invalid_type_msg(u, "a string"))
            }
        },
        FieldKind::OptTextList => match u {
            YamlValue::Null => None,
            YamlValue::Sequence(items) => list_error(items),
            _ => Some(invalid_type_msg(u, "a sequence")),
        },
        _ => None,
    }
}

pub open spec fn slot_view(s: Seq<Option<usize>>) -> Seq<Option<int>> {
    s.map_values(|o: Option<usize>| match o {
        Some(x) => Some(x as int),
        None => None,
    })
}

pub open spec fn no_slots(n: nat) -> Seq<Option<int>> {
    Seq::new(n, |f: int| None::<int>)
}

fn empty_slots(n: usize) -> (slots: Vec<Option<usize>>)
    ensures
        slot_view(slots@) == no_slots(n as nat),
{
    let mut slots: Vec<Option<usize>> = Vec::new();
    let mut j: usize = 0;
    while j < n
        invariant
            j <= n,
            slots@.len() == j,
            forall|f: int| 0 <= f < j ==> slots@[f] is None,
        decreases n - j,
    {
        slots.push(None);
        j = j + 1;
    }
    assert(slot_view(slots@) =~= no_slots(n as nat));
    slots
}

/// Scans the entries of a nested structure (`scan_flat` from the start).
fn scan_entries_flat(entries: &Vec<(YamlValue, YamlValue)>, shape: &Shape) -> (r: Result<
    Vec<Option<usize>>,
    String,
>)
    requires
        shape.names@.len() == shape.kinds@.len(),
    ensures
        match r {
            Ok(slots) => scan_flat(
                entries@,
                0,
                name_views(shape.names@),
                shape.kinds@,
                no_slots(shape.names@.len()),
            ) == Ok::<Seq<Option<int>>, Seq<char>>(slot_view(slots@)),
            Err(e) => scan_flat(
                entries@,
                0,
                name_views(shape.names@),
                shape.kinds@,
                no_slots(shape.names@.len()),
            ) == Err::<Seq<Option<int>>, Seq<char>>(e@),
        },
{
    let ghost names = name_views(shape.names@);
    let ghost start = no_slots(shape.names@.len());
    let mut slots = empty_slots(shape.names.len());
    let mut i: usize = 0;
    while i < entries.len()
        invariant
            i <= entries@.len(),
            names == name_views(shape.names@),
            names.len() == shape.names@.len(),
            start == no_slots(shape.names@.len()),
            shape.names@.len() == shape.kinds@.len(),
            slots@.len() == shape.names@.len(),
            scan_flat(entries@, i as int, names, shape.kinds@, slot_view(slots@)) == scan_flat(
                entries@,
                0,
                names,
                shape.kinds@,
                start,
            ),
        decreases entries@.len() - i,
    {
        let k = untagged(&entries[i].0);
        match scalar_string(k) {
            None => {
                return Err(invalid_type_msg(k, "field identifier"));
            },
            Some(t) => {
                match field_position(shape, &t) {
                    None => {
                        return Err(unknown_field_msg(&t, shape));
                    },
                    Some(f) => {
                        if slots[f].is_some() {
                            let mut e = owned("duplicate field `");
                            push_str(&mut e, t.as_str());
                            push_str(&mut e, "`");
                            return Err(e);
                        }
                        match flat_value_error(shape.kinds[f], &entries[i].1) {
                            Some(e) => {
                                return Err(e);
                            },
                            None => {
                                let ghost before = slots@;
                                slots.set(f, Some(i));
                                assert(slot_view(slots@) =~= slot_view(before).update(
                                    f as int,
                                    Some(i as int),
                                ));
                            },
                        }
                    },
                }
            },
        }
        i = i + 1;
    }
    Ok(slots)
}

fn value_error(kind: FieldKind, v: &YamlValue) -> (r: Option<String>)
    ensures
        match r {
            Some(e) => field_error(kind, *v) == Some(e@),
            None => field_error(kind, *v) is None,
        },
{
    let u = untagged(v);
    match kind {
        FieldKind::OptSpecification => match u {
            YamlValue::Null => None,
            YamlValue::Mapping(es) => {
                let shape = make_shape("path", "typeDescription", FieldKind::OptText, FieldKind::OptText);
                assert(no_slots(2) =~= seq![None::<int>, None::<int>]);
                match scan_entries_flat(es, &shape) {
                    Ok(_) => None,
                    Err(e) => Some(e),
                }
            },
            _ => Some(invalid_type_msg(u, "struct SpecificationYaml")),
        },
        FieldKind::OptBoundaries => match u {
            YamlValue::Null => None,
            YamlValue::Mapping(es) => {
                let shape = make_shape("provides", "requires", FieldKind::OptTextList, FieldKind::OptTextList);
                assert(no_slots(2) =~= seq![None::<int>, None::<int>]);
                match scan_entries_flat(es, &shape) {
                    Ok(_) => None,
                    Err(e) => Some(e),
                }
            },
            _ => Some(invalid_type_msg(u, "struct BoundariesYaml")),
        },
        _ => flat_value_error(kind, v),
    }
}

/// Scans the entries of a block (`scan_block` from the start).
fn scan_entries_block(entries: &Vec<(YamlValue, YamlValue)>, shape: &Shape) -> (r: Result<
    Vec<Option<usize>>,
    String,
>)
    requires
        shape.names@.len() == shape.kinds@.len(),
    ensures
        match r {
            Ok(slots) => scan_block(
                entries@,
                0,
                name_views(shape.names@),
                shape.kinds@,
                no_slots(shape.names@.len()),
            ) == Ok::<Seq<Option<int>>, Seq<char>>(slot_view(slots@)),
            Err(e) => scan_block(
                entries@,
                0,
                name_views(shape.names@),
                shape.kinds@,
                no_slots(shape.names@.len()),
            ) == Err::<Seq<Option<int>>, Seq<char>>(e@),
        },
{
    let ghost names = name_views(shape.names@);
    let ghost start = no_slots(shape.names@.len());
    let mut slots = empty_slots(shape.names.len());
    let mut i: usize = 0;
    while i < entries.len()
        invariant
            i <= entries@.len(),
            names == name_views(shape.names@),
            names.len() == shape.names@.len(),
            start == no_slots(shape.names@.len()),
            shape.names@.len() == shape.kinds@.len(),
            slots@.len() == shape.names@.len(),
            scan_block(entries@, i as int, names, shape.kinds@, slot_view(slots@)) == scan_block(
                entries@,
                0,
                names,
                shape.kinds@,
                start,
            ),
        decreases entries@.len() - i,
    {
        let k = untagged(&entries[i].0);
        match scalar_string(k) {
            None => {
                return Err(invalid_type_msg(k, "field identifier"));
            },
            Some(t) => {
                match field_position(shape, &t) {
                    None => {
                        return Err(unknown_field_msg(&t, shape));
                    },
                    Some(f) => {
                        if slots[f].is_some() {
                            let mut e = owned("duplicate field `");
                            push_str(&mut e, t.as_str());
                            push_str(&mut e, "`");
                            return Err(e);
                        }
                        match value_error(shape.kinds[f], &entries[i].1) {
                            Some(e) => {
                                return Err(e);
                            },
                            None => {
                                let ghost before = slots@;
                                slots.set(f, Some(i));
                                assert(slot_view(slots@) =~= slot_view(before).update(
                                    f as int,
                                    Some(i as int),
                                ));
                            },
                        }
                    },
                }
            },
        }
        i = i + 1;
    }
    Ok(slots)
}

fn first_missing(shape: &Shape, slots: &Vec<Option<usize>>) -> (r: Option<String>)
    requires
        shape.names@.len() == shape.kinds@.len(),
        slots@.len() == shape.names@.len(),
    ensures
        match r {
            Some(e) => missing_field(name_views(shape.names@), shape.kinds@, slot_view(slots@), 0)
                == Some(e@),
            None => missing_field(name_views(shape.names@), shape.kinds@, slot_view(slots@), 0) is None,
        },
{
    let ghost names = name_views(shape.names@);
    let mut j: usize = 0;
    while j < shape.names.len()
        invariant
            j <= shape.names@.len(),
            names == name_views(shape.names@),
            shape.names@.len() == shape.kinds@.len(),
            slots@.len() == shape.names@.len(),
            missing_field(names, shape.kinds@, slot_view(slots@), j as int) == missing_field(
                names,
                shape.kinds@,
                slot_view(slots@),
                0,
            ),
        decreases shape.names@.len() - j,
    {
        if matches!(shape.kinds[j], FieldKind::Text) && slots[j].is_none() {
            let mut e = owned("missing field `");
            push_str(&mut e, shape.names[j].as_str());
            push_str(&mut e, "`");
            return Some(e);
        }
        j = j + 1;
    }
    None
}

/// Decodes a block's mapping against the fields of a structure: the slots
/// that say which entry sets each field, or the first error.
pub open spec fn decode_fields(v: YamlValue, names: Seq<Seq<char>>, kinds: Seq<FieldKind>, what: Seq<
    char,
>) -> Result<(Seq<(YamlValue, YamlValue)>, Seq<Option<int>>), Seq<char>> {
    match untag(v) {
        YamlValue::Mapping(es) => match scan_block(es@, 0, names, kinds, no_slots(names.len())) {
            Err(e) => Err(e),
            Ok(slots) => match missing_field(names, kinds, slots, 0) {
                Some(e) => Err(e),
                None => Ok((es@, slots)),
            },
        },
        u => Err(invalid_type(u, what)),
    }
}

/// The string in a field that entry `slot` sets (empty when none does).
pub open spec fn text_at(es: Seq<(YamlValue, YamlValue)>, slot: Option<int>) -> Seq<char> {
    match slot {
        Some(i) => match scalar_text(untag(es[i].1)) {
            Some(t) => t,
            None => Seq::empty(),
        },
        None => Seq::empty(),
    }
}

/// The optional string in a field: absent when no entry sets it or the
/// entry holds null.
pub open spec fn opt_text_at(es: Seq<(YamlValue, YamlValue)>, slot: Option<int>) -> Option<Seq<char>> {
    match slot {
        Some(i) => if untag(es[i].1) is Null {
            None
        } else {
            scalar_text(untag(es[i].1))
        },
        None => None,
    }
}

/// The texts of the items of a list.
pub open spec fn item_texts(items: Seq<YamlValue>) -> Seq<Seq<char>> {
    items.map_values(|x: YamlValue| match scalar_text(untag(x)) {
        Some(t) => t,
        None => Seq::empty(),
    })
}

/// The optional list of strings in a field.
pub open spec fn opt_list_at(es: Seq<(YamlValue, YamlValue)>, slot: Option<int>) -> Option<Seq<Seq<char>>> {
    match slot {
        Some(i) => match untag(es[i].1) {
            YamlValue::Sequence(items) => Some(item_texts(items@)),
            _ => None,
        },
        None => None,
    }
}

pub open spec fn opt_str_view(o: Option<String>) -> Option<Seq<char>> {
    match o {
        Some(s) => Some(s@),
        None => None,
    }
}

pub open spec fn opt_list_view(o: Option<Vec<String>>) -> Option<Seq<Seq<char>>> {
    match o {
        Some(v) => Some(v@.map_values(|s: String| s@)),
        None => None,
    }
}

fn text_in(es: &Vec<(YamlValue, YamlValue)>, slot: Option<usize>) -> (r: String)
    requires
        slot matches Some(i) ==> i < es@.len(),
    ensures
        r@ == text_at(es@, match slot { Some(i) => Some(i as int), None => None }),
{
    match slot {
        Some(i) => match scalar_string(untagged(&es[i].1)) {
            Some(t) => t,
            None => String::new(),
        },
        None => String::new(),
    }
}

fn opt_text_in(es: &Vec<(YamlValue, YamlValue)>, slot: Option<usize>) -> (r: Option<String>)
    requires
        slot matches Some(i) ==> i < es@.len(),
    ensures
        opt_str_view(r) == opt_text_at(es@, match slot { Some(i) => Some(i as int), None => None }),
{
    match slot {
        Some(i) => {
            let u = untagged(&es[i].1);
            if matches!(u, YamlValue::Null) {
                None
            } else {
                scalar_string(u)
            }
        },
        None => None,
    }
}

fn opt_list_in(es: &Vec<(YamlValue, YamlValue)>, slot: Option<usize>) -> (r: Option<Vec<String>>)
    requires
        slot matches Some(i) ==> i < es@.len(),
    ensures
        opt_list_view(r) == opt_list_at(es@, match slot { Some(i) => Some(i as int), None => None }),
{
    match slot {
        Some(i) => match untagged(&es[i].1) {
            YamlValue::Sequence(items) => {
                let mut out: Vec<String> = Vec::new();
                let mut j: usize = 0;
                while j < items.len()
                    invariant
                        j <= items@.len(),
                        out@.len() == j,
                        forall|k: int| 0 <= k < j ==> #[trigger] out@[k]@ == item_texts(items@)[k],
                    decreases items@.len() - j,
                {
                    let t = match scalar_string(untagged(&items[j])) {
                        Some(t) => t,
                        None => String::new(),
                    };
                    out.push(t);
                    j = j + 1;
                }
                assert(out@.map_values(|s: String| s@) =~= item_texts(items@));
                Some(out)
            },
            _ => None,
        },
        None => None,
    }
}

// ---------------------------------------------------------------------------
// The block structures
// ---------------------------------------------------------------------------
/// A `kind: system` block.
#[derive(Debug)]
pub struct SystemYaml {
    pub kind: String,
    pub name: String,
}

/// A `kind: boundary` block.
#[derive(Debug)]
pub struct BoundaryYaml {
    pub kind: String,
    pub name: String,
    pub exposure: Option<String>,
    pub specification: Option<SpecificationYaml>,
}

/// The `specification` of a boundary (`path`, `typeDescription`).
#[derive(Debug)]
pub struct SpecificationYaml {
    pub path: Option<String>,
    pub type_description: Option<String>,
}

/// A `kind: component` block.
#[derive(Debug)]
pub struct ComponentYaml {
    pub kind: String,
    pub name: String,
    pub technology: Option<String>,
    pub boundaries: Option<BoundariesYaml>,
}

/// The `boundaries` of a component.
#[derive(Debug)]
pub struct BoundariesYaml {
    pub provides: Option<Vec<String>>,
    pub requires: Option<Vec<String>>,
}

pub struct SystemYamlView {
    pub kind: Seq<char>,
    pub name: Seq<char>,
}

pub struct SpecificationYamlView {
    pub path: Option<Seq<char>>,
    pub type_description: Option<Seq<char>>,
}

pub struct BoundaryYamlView {
    pub kind: Seq<char>,
    pub name: Seq<char>,
    pub exposure: Option<Seq<char>>,
    pub specification: Option<SpecificationYamlView>,
}

pub struct BoundariesYamlView {
    pub provides: Option<Seq<Seq<char>>>,
    pub requires: Option<Seq<Seq<char>>>,
}

pub struct ComponentYamlView {
    pub kind: Seq<char>,
    pub name: Seq<char>,
    pub technology: Option<Seq<char>>,
    pub boundaries: Option<BoundariesYamlView>,
}

impl View for SystemYaml {
    type V = SystemYamlView;

    open spec fn view(&self) -> SystemYamlView {
        SystemYamlView { kind: self.kind@, name: self.name@ }
    }
}

impl View for SpecificationYaml {
    type V = SpecificationYamlView;

    open spec fn view(&self) -> SpecificationYamlView {
        SpecificationYamlView {
            path: opt_str_view(self.path),
            type_description: opt_str_view(self.type_description),
        }
    }
}

impl View for BoundaryYaml {
    type V = BoundaryYamlView;

    open spec fn view(&self) -> BoundaryYamlView {
        BoundaryYamlView {
            kind: self.kind@,
            name: self.name@,
            exposure: opt_str_view(self.exposure),
            specification: match self.specification {
                Some(s) => Some(s@),
                None => None,
            },
        }
    }
}

impl View for BoundariesYaml {
    type V = BoundariesYamlView;

    open spec fn view(&self) -> BoundariesYamlView {
        BoundariesYamlView {
            provides: opt_list_view(self.provides),
            requires: opt_list_view(self.requires),
        }
    }
}

impl View for ComponentYaml {
    type V = ComponentYamlView;

    open spec fn view(&self) -> ComponentYamlView {
        ComponentYamlView {
            kind: self.kind@,
            name: self.name@,
            technology: opt_str_view(self.technology),
            boundaries: match self.boundaries {
                Some(b) => Some(b@),
                None => None,
            },
        }
    }
}

/// The `specification` structure that entry `slot` holds.
pub open spec fn specification_at(es: Seq<(YamlValue, YamlValue)>, slot: Option<int>) -> Option<
    SpecificationYamlView,
> {
    match slot {
        Some(i) => match untag(es[i].1) {
            YamlValue::Mapping(m) => match scan_flat(
                m@,
                0,
                specification_names(),
                specification_kinds(),
                no_slots(2),
            ) {
                Ok(s2) => Some(
                    SpecificationYamlView {
                        path: opt_text_at(m@, s2[0]),
                        type_description: opt_text_at(m@, s2[1]),
                    },
                ),
                Err(_) => None,
            },
            _ => None,
        },
        None => None,
    }
}

/// The `boundaries` structure that entry `slot` holds.
pub open spec fn boundaries_at(es: Seq<(YamlValue, YamlValue)>, slot: Option<int>) -> Option<
    BoundariesYamlView,
> {
    match slot {
        Some(i) => match untag(es[i].1) {
            YamlValue::Mapping(m) => match scan_flat(
                m@,
                0,
                boundaries_names(),
                boundaries_kinds(),
                no_slots(2),
            ) {
                Ok(s2) => Some(
                    BoundariesYamlView {
                        provides: opt_list_at(m@, s2[0]),
                        requires: opt_list_at(m@, s2[1]),
                    },
                ),
                Err(_) => None,
            },
            _ => None,
        },
        None => None,
    }
}

/// A system block decoded, or the error that a derived deserializer that
/// refuses unknown fields reports.
pub open spec fn decode_system(v: YamlValue) -> Result<SystemYamlView, Seq<char>> {
    match decode_fields(v, system_names(), system_kinds(), "struct SystemYaml"@) {
        Err(e) => Err(e),
        Ok((es, sl)) => Ok(SystemYamlView { kind: text_at(es, sl[0]), name: text_at(es, sl[1]) }),
    }
}

/// A boundary block decoded, or its error.
pub open spec fn decode_boundary(v: YamlValue) -> Result<BoundaryYamlView, Seq<char>> {
    match decode_fields(v, boundary_names(), boundary_kinds(), "struct BoundaryYaml"@) {
        Err(e) => Err(e),
        Ok((es, sl)) => Ok(
            BoundaryYamlView {
                kind: text_at(es, sl[0]),
                name: text_at(es, sl[1]),
                exposure: opt_text_at(es, sl[2]),
                specification: specification_at(es, sl[3]),
            },
        ),
    }
}

/// A component block decoded, or its error.
pub open spec fn decode_component(v: YamlValue) -> Result<ComponentYamlView, Seq<char>> {
    match decode_fields(v, component_names(), component_kinds(), "struct ComponentYaml"@) {
        Err(e) => Err(e),
        Ok((es, sl)) => Ok(
            ComponentYamlView {
                kind: text_at(es, sl[0]),
                name: text_at(es, sl[1]),
                technology: opt_text_at(es, sl[2]),
                boundaries: boundaries_at(es, sl[3]),
            },
        ),
    }
}

pub open spec fn slot_int(o: Option<usize>) -> Option<int> {
    match o {
        Some(i) => Some(i as int),
        None => None,
    }
}

/// Scans a whole block against a structure and checks the required fields.
fn decode_entries(es: &Vec<(YamlValue, YamlValue)>, shape: &Shape) -> (r: Result<
    Vec<Option<usize>>,
    String,
>)
    requires
        shape.names@.len() == shape.kinds@.len(),
    ensures
        match r {
            Ok(slots) => {
                &&& slots@.len() == shape.names@.len()
                &&& forall|f: int| 0 <= f < slots@.len() ==> (#[trigger] slots@[f] matches Some(x) ==> x < es@.len())
                &&& scan_block(es@, 0, name_views(shape.names@), shape.kinds@, no_slots(shape.names@.len())) == Ok::<Seq<Option<int>>, Seq<char>>(slot_view(slots@))
                &&& missing_field(name_views(shape.names@), shape.kinds@, slot_view(slots@), 0) is None
            },
            Err(e) => match scan_block(es@, 0, name_views(shape.names@), shape.kinds@, no_slots(shape.names@.len())) {
                Err(e2) => e2 == e@,
                Ok(sl) => missing_field(name_views(shape.names@), shape.kinds@, sl, 0) == Some(e@),
            },
        },
{
    let ghost names = name_views(shape.names@);
    proof {
        assert forall|f: int| 0 <= f < no_slots(shape.names@.len()).len() implies (
        #[trigger] no_slots(shape.names@.len())[f] matches Some(x) ==> 0 <= x < es@.len()) by {}
        lemma_scan_block_slots(es@, 0, names, shape.kinds@, no_slots(shape.names@.len()));
    }
    let slots = scan_entries_block(es, shape)?;
    proof {
        let sv = slot_view(slots@);
        assert forall|f: int| 0 <= f < slots@.len() implies (#[trigger] slots@[f] matches Some(x) ==> x < es@.len()) by {
            assert(sv[f] == slot_int(slots@[f]));
        }
    }
    match first_missing(shape, &slots) {
        Some(e) => Err(e),
        None => Ok(slots),
    }
}

/// Decodes a nested `specification` structure held by entry `slot`.
fn specification_in(es: &Vec<(YamlValue, YamlValue)>, slot: Option<usize>) -> (r: Option<SpecificationYaml>)
    requires
        slot matches Some(i) ==> i < es@.len(),
    ensures
        match r {
            Some(s) => specification_at(es@, slot_int(slot)) == Some(s@),
            None => specification_at(es@, slot_int(slot)) is None,
        },
{
    match slot {
        Some(i) => match untagged(&es[i].1) {
            YamlValue::Mapping(m) => {
                let shape = make_shape("path", "typeDescription", FieldKind::OptText, FieldKind::OptText);
                proof {
                    assert forall|f: int| 0 <= f < no_slots(2).len() implies (
                    #[trigger] no_slots(2)[f] matches Some(x) ==> 0 <= x < m@.len()) by {}
                    lemma_scan_flat_slots(m@, 0, specification_names(), specification_kinds(), no_slots(2));
                }
                match scan_entries_flat(m, &shape) {
                    Ok(s2) => {
                        proof {
                            let sv = slot_view(s2@);
                            assert(sv[0] == slot_int(s2@[0]));
                            assert(sv[1] == slot_int(s2@[1]));
                        }
                        Some(SpecificationYaml { path: opt_text_in(m, s2[0]), type_description: opt_text_in(m, s2[1]) })
                    },
                    Err(_) => None,
                }
            },
            _ => None,
        },
        None => None,
    }
}

/// Decodes a nested `boundaries` structure held by entry `slot`.
fn boundaries_in(es: &Vec<(YamlValue, YamlValue)>, slot: Option<usize>) -> (r: Option<BoundariesYaml>)
    requires
        slot matches Some(i) ==> i < es@.len(),
    ensures
        match r {
            Some(s) => boundaries_at(es@, slot_int(slot)) == Some(s@),
            None => boundaries_at(es@, slot_int(slot)) is None,
        },
{
    match slot {
        Some(i) => match untagged(&es[i].1) {
            YamlValue::Mapping(m) => {
                let shape = make_shape("provides", "requires", FieldKind::OptTextList, FieldKind::OptTextList);
                proof {
                    assert forall|f: int| 0 <= f < no_slots(2).len() implies (
                    #[trigger] no_slots(2)[f] matches Some(x) ==> 0 <= x < m@.len()) by {}
                    lemma_scan_flat_slots(m@, 0, boundaries_names(), boundaries_kinds(), no_slots(2));
                }
                match scan_entries_flat(m, &shape) {
                    Ok(s2) => {
                        proof {
                            let sv = slot_view(s2@);
                            assert(sv[0] == slot_int(s2@[0]));
                            assert(sv[1] == slot_int(s2@[1]));
                        }
                        Some(BoundariesYaml { provides: opt_list_in(m, s2[0]), requires: opt_list_in(m, s2[1]) })
                    },
                    Err(_) => None,
                }
            },
            _ => None,
        },
        None => None,
    }
}

/// Decodes a system block.
pub fn system_yaml(v: &YamlValue) -> (r: Result<SystemYaml, String>)
    ensures
        match r {
            Ok(s) => decode_system(*v) == Ok::<SystemYamlView, Seq<char>>(s@),
            Err(e) => decode_system(*v) == Err::<SystemYamlView, Seq<char>>(e@),
        },
{
    match untagged(v) {
        YamlValue::Mapping(es) => {
            let shape = make_shape("kind", "name", FieldKind::Text, FieldKind::Text);
            let slots = decode_entries(es, &shape)?;
            proof {
                let sv = slot_view(slots@);
                assert(sv[0] == slot_int(slots@[0]));
                assert(sv[1] == slot_int(slots@[1]));
            }
            Ok(SystemYaml { kind: text_in(es, slots[0]), name: text_in(es, slots[1]) })
        },
        u => Err(invalid_type_msg(u, "struct SystemYaml")),
    }
}

/// Decodes a boundary block.
pub fn boundary_yaml(v: &YamlValue) -> (r: Result<BoundaryYaml, String>)
    ensures
        match r {
            Ok(s) => decode_boundary(*v) == Ok::<BoundaryYamlView, Seq<char>>(s@),
            Err(e) => decode_boundary(*v) == Err::<BoundaryYamlView, Seq<char>>(e@),
        },
{
    match untagged(v) {
        YamlValue::Mapping(es) => {
            let shape = make_shape4("kind", "name", "exposure", "specification", FieldKind::OptText, FieldKind::OptSpecification);
            let slots = decode_entries(es, &shape)?;
            proof {
                let sv = slot_view(slots@);
                assert(sv[0] == slot_int(slots@[0]));
                assert(sv[1] == slot_int(slots@[1]));
                assert(sv[2] == slot_int(slots@[2]));
                assert(sv[3] == slot_int(slots@[3]));
            }
            Ok(BoundaryYaml {
                kind: text_in(es, slots[0]),
                name: text_in(es, slots[1]),
                exposure: opt_text_in(es, slots[2]),
                specification: specification_in(es, slots[3]),
            })
        },
        u => Err(invalid_type_msg(u, "struct BoundaryYaml")),
    }
}

/// Decodes a component block.
pub fn component_yaml(v: &YamlValue) -> (r: Result<ComponentYaml, String>)
    ensures
        match r {
            Ok(s) => decode_component(*v) == Ok::<ComponentYamlView, Seq<char>>(s@),
            Err(e) => decode_component(*v) == Err::<ComponentYamlView, Seq<char>>(e@),
        },
{
    match untagged(v) {
        YamlValue::Mapping(es) => {
            let shape = make_shape4("kind", "name", "technology", "boundaries", FieldKind::OptText, FieldKind::OptBoundaries);
            let slots = decode_entries(es, &shape)?;
            proof {
                let sv = slot_view(slots@);
                assert(sv[0] == slot_int(slots@[0]));
                assert(sv[1] == slot_int(slots@[1]));
                assert(sv[2] == slot_int(slots@[2]));
                assert(sv[3] == slot_int(slots@[3]));
            }
            Ok(ComponentYaml {
                kind: text_in(es, slots[0]),
                name: text_in(es, slots[1]),
                technology: opt_text_in(es, slots[2]),
                boundaries: boundaries_in(es, slots[3]),
            })
        },
        u => Err(invalid_type_msg(u, "struct ComponentYaml")),
    }
}

} // verus!
