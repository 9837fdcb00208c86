//! The declared, ordered schema of typed attribute fields.
//!
//! A schema is an ordered list of `(name, type tag, layout tag)` entries.  It
//! is declared from source type descriptors (the names used by the callers'
//! numeric stack: `"bool"`, `"float32"`, `"float64"`, `"int32"`, `"int64"`,
//! `"uint32"`, `"uint64"`, and `"<U..."` for fixed-width strings); each
//! descriptor maps to exactly one [`TypeTag`] and one canonical layout tag.

use vstd::prelude::*;

use crate::chars_util::str_eq;

verus! {

/// The type of one attribute field.  Exactly one tag per field.
#[derive(Clone, Copy, Debug, PartialEq, Eq)]
pub enum TypeTag {
    /// A 64-bit IEEE-754 floating-point field (stored values keep their
    /// numeric flavour; any numeric value is accepted on write).
    Float64,
    /// A signed 64-bit integer field.
    Int64,
    /// An unsigned 64-bit integer field.
    UInt64,
    /// A boolean field.
    Bool,
    /// A string field.
    Text,
}

/// One declared attribute field.
#[derive(Debug)]
pub struct SchemaField {
    /// The field's name; unique within a schema.
    pub name: String,
    /// The field's type.
    pub tag: TypeTag,
    /// The canonical layout tag used for structured-array output
    /// (for example `"<f8"` for a 64-bit float).
    pub layout: String,
}

/// The error returned when a schema declaration holds a descriptor that is
/// not one of the supported source types.
#[derive(Debug, PartialEq, Eq)]
pub enum SchemaError {
    UnsupportedType {
        /// The name of the offending field.
        field: String,
        /// The descriptor that was not recognized.
        descriptor: String,
    },
}

/// The index of the first field of `fields` named `name`, or -1 if none is.
pub open spec fn field_index_of(fields: Seq<SchemaField>, name: Seq<char>) -> int
    decreases fields.len(),
{
    if fields.len() == 0 {
        -1
    } else if fields[0].name@ == name {
        0
    } else {
        let r = field_index_of(fields.drop_first(), name);
        if r == -1 {
            -1
        } else {
            r + 1
        }
    }
}

pub proof fn lemma_field_index_of(fields: Seq<SchemaField>, name: Seq<char>)
    ensures
        field_index_of(fields, name) == -1 ==> forall|k: int|
            0 <= k < fields.len() ==> fields[k].name@ != name,
        field_index_of(fields, name) != -1 ==> {
            &&& 0 <= field_index_of(fields, name) < fields.len()
            &&& fields[field_index_of(fields, name)].name@ == name
            &&& forall|k: int| 0 <= k < field_index_of(fields, name) ==> fields[k].name@ != name
        },
    decreases fields.len(),
{
    if fields.len() == 0 {
    } else if fields[0].name@ == name {
    } else {
        lemma_field_index_of(fields.drop_first(), name);
        assert forall|k: int| 1 <= k < fields.len() implies fields.drop_first()[k - 1]
            == fields[k] by {}
    }
}

/// The index of the first `(name, descriptor)` pair whose descriptor is not
/// a supported source type, or -1 if all are supported.
pub open spec fn first_unsupported(ds: Seq<(String, String)>) -> int
    decreases ds.len(),
{
    if ds.len() == 0 {
        -1
    } else if spec_descr_tag(ds[0].1@) is None {
        0
    } else {
        let r = first_unsupported(ds.drop_first());
        if r == -1 {
            -1
        } else {
            r + 1
        }
    }
}

pub proof fn lemma_first_unsupported(ds: Seq<(String, String)>, i: int)
    requires
        0 <= i <= ds.len(),
        forall|k: int| 0 <= k < i ==> spec_descr_tag(#[trigger] ds[k].1@) is Some,
        i < ds.len() ==> spec_descr_tag(ds[i].1@) is None,
    ensures
        i < ds.len() ==> first_unsupported(ds) == i,
        i == ds.len() ==> first_unsupported(ds) == -1,
    decreases ds.len(),
{
    if ds.len() == 0 {
    } else if i == 0 {
    } else {
        assert(spec_descr_tag(ds[0].1@) is Some);
        assert forall|k: int| 0 <= k < i - 1 implies spec_descr_tag(
            #[trigger] ds.drop_first()[k].1@,
        ) is Some by {
            assert(ds.drop_first()[k] == ds[k + 1]);
        }
        if i < ds.len() {
            assert(ds.drop_first()[i - 1] == ds[i]);
        }
        lemma_first_unsupported(ds.drop_first(), i - 1);
    }
}

/// Whether `d` is the descriptor of a fixed-width string field.
pub open spec fn spec_is_text_descr(d: Seq<char>) -> bool {
    d.len() >= 2 && d[0] == '<' && d[1] == 'U'
}

/// The type tag a source descriptor maps to, if it is supported.
pub open spec fn spec_descr_tag(d: Seq<char>) -> Option<TypeTag> {
    if d == "bool"@ {
        Some(TypeTag::Bool)
    } else if d == "float32"@ || d == "float64"@ {
        Some(TypeTag::Float64)
    } else if d == "int32"@ || d == "int64"@ {
        Some(TypeTag::Int64)
    } else if d == "uint32"@ || d == "uint64"@ {
        Some(TypeTag::UInt64)
    } else if spec_is_text_descr(d) {
        Some(TypeTag::Text)
    } else {
        None
    }
}

/// The layout tag of a supported descriptor.  A fixed-width string keeps its
/// own descriptor (which carries the width) as layout tag.
pub open spec fn spec_descr_layout(d: Seq<char>) -> Seq<char> {
    if d == "bool"@ {
        "?"@
    } else if d == "float32"@ {
        "<f4"@
    } else if d == "float64"@ {
        "<f8"@
    } else if d == "int32"@ {
        "<i4"@
    } else if d == "int64"@ {
        "<i8"@
    } else if d == "uint32"@ {
        "<u4"@
    } else if d == "uint64"@ {
        "<u8"@
    } else {
        d
    }
}

/// An ordered schema of named, typed attribute fields: the single source of
/// truth for which attribute names are storable and how they serialize.
pub struct AttributeSchema {
    pub fields: Vec<SchemaField>,
}

impl AttributeSchema {
    /// Well-formedness: field names are unique within the schema.
    pub open spec fn wf(self) -> bool {
        forall|i: int, j: int|
            0 <= i < j < self.fields@.len() ==> self.fields@[i].name@ != self.fields@[j].name@
    }

    /// The index of the field named `name`, or `None` if the schema has no
    /// such field.
    pub fn resolve_index(&self, name: &str) -> (r: Option<usize>)
        ensures
            match r {
                Some(j) => field_index_of(self.fields@, name@) == j,
                None => field_index_of(self.fields@, name@) == -1,
            },
    {
        let n = self.fields.len();
        let mut i: usize = 0;
        while i < n
            invariant
                n == self.fields@.len(),
                0 <= i <= n,
                forall|k: int| 0 <= k < i ==> self.fields@[k].name@ != name@,
            decreases n - i,
        {
            if str_eq(self.fields[i].name.as_str(), name) {
                proof {
                    lemma_field_index_of_first(self.fields@, name@, i as int);
                }
                return Some(i);
            }
            i += 1;
        }
        proof {
            lemma_field_index_of(self.fields@, name@);
        }
        None
    }

    /// The type tag of the field named `name`, or `None` if the schema has
    /// no such field.
    pub fn resolve(&self, name: &str) -> (r: Option<TypeTag>)
        ensures
            match r {
                Some(tag) => {
                    &&& field_index_of(self.fields@, name@) >= 0
                    &&& self.fields@[field_index_of(self.fields@, name@)].tag == tag
                },
                None => field_index_of(self.fields@, name@) == -1,
            },
    {
        match self.resolve_index(name) {
            Some(j) => {
                proof {
                    lemma_field_index_of(self.fields@, name@);
                }
                Some(self.fields[j].tag)
            },
            None => None,
        }
    }

    /// The ordered `(name, layout tag)` pairs of the schema, used to build
    /// the structured-array output shape.
    pub fn layout(&self) -> (r: Vec<(String, String)>)
        ensures
            r@.len() == self.fields@.len(),
            forall|k: int|
                0 <= k < r@.len() ==> r@[k].0@ == self.fields@[k].name@ && r@[k].1@
                    == self.fields@[k].layout@,
    {
        let n = self.fields.len();
        let mut r: Vec<(String, String)> = Vec::new();
        let mut i: usize = 0;
        while i < n
            invariant
                n == self.fields@.len(),
                0 <= i <= n,
                r@.len() == i,
                forall|k: int|
                    0 <= k < i ==> r@[k].0@ == self.fields@[k].name@ && r@[k].1@
                        == self.fields@[k].layout@,
            decreases n - i,
        {
            r.push((self.fields[i].name.clone(), self.fields[i].layout.clone()));
            i += 1;
        }
        r
    }
}

/// If `i` is a match and nothing before `i` is, then `i` is the first match.
pub proof fn lemma_field_index_of_first(fields: Seq<SchemaField>, name: Seq<char>, i: int)
    requires
        0 <= i < fields.len(),
        fields[i].name@ == name,
        forall|k: int| 0 <= k < i ==> fields[k].name@ != name,
    ensures
        field_index_of(fields, name) == i,
    decreases fields.len(),
{
    if i == 0 {
    } else {
        assert forall|k: int| 0 <= k < i - 1 implies fields.drop_first()[k].name@ != name by {
            assert(fields.drop_first()[k] == fields[k + 1]);
        }
        assert(fields.drop_first()[i - 1] == fields[i]);
        lemma_field_index_of_first(fields.drop_first(), name, i - 1);
    }
}

/// Maps one source descriptor to its type tag and layout tag; `None` for an
/// unsupported descriptor.
pub fn descr_tag_layout(d: &str) -> (r: Option<(TypeTag, String)>)
    ensures
        match r {
            Some(p) => spec_descr_tag(d@) == Some(p.0) && p.1@ == spec_descr_layout(d@),
            None => spec_descr_tag(d@) is None,
        },
{
    if str_eq(d, "bool") {
        Some((TypeTag::Bool, "?".to_owned()))
    } else if str_eq(d, "float32") {
        Some((TypeTag::Float64, "<f4".to_owned()))
    } else if str_eq(d, "float64") {
        Some((TypeTag::Float64, "<f8".to_owned()))
    } else if str_eq(d, "int32") {
        Some((TypeTag::Int64, "<i4".to_owned()))
    } else if str_eq(d, "int64") {
        Some((TypeTag::Int64, "<i8".to_owned()))
    } else if str_eq(d, "uint32") {
        Some((TypeTag::UInt64, "<u4".to_owned()))
    } else if str_eq(d, "uint64") {
        Some((TypeTag::UInt64, "<u8".to_owned()))
    } else {
        let n = d.unicode_len();
        if n >= 2 && d.get_char(0) == '<' && d.get_char(1) == 'U' {
            Some((TypeTag::Text, d.to_owned()))
        } else {
            None
        }
    }
}

} // verus!
