//! The structured-array codec: marshals the whole attribute store into a
//! row-per-vertex-slot, column-per-field array matching the schema's
//! declared order, substituting a deterministic per-type sentinel for every
//! absent field.

use vstd::prelude::*;

use crate::schema::TypeTag;
use crate::store::AttributeStore;
use crate::values::{TypedValue, TypedValueModel};

verus! {

/// The bit pattern of the quiet not-a-number substituted for an absent
/// 64-bit float attribute.
pub const NAN_BITS: u64 = 0x7FF8_0000_0000_0000;

/// The sentinel emitted for an absent attribute of each field type:
/// not-a-number for `Float64`, the maximum representable value for `Int64`
/// and `UInt64`, `false` for `Bool`, and the empty string for `Text`.
pub open spec fn sentinel_model(tag: TypeTag) -> TypedValueModel {
    match tag {
        TypeTag::Float64 => TypedValueModel::Float(NAN_BITS),
        TypeTag::Int64 => TypedValueModel::Int(i64::MAX),
        TypeTag::UInt64 => TypedValueModel::UInt(u64::MAX),
        TypeTag::Bool => TypedValueModel::Bool(false),
        TypeTag::Text => TypedValueModel::Text(Seq::<char>::empty()),
    }
}

/// One cell of the encoded output: the stored value where the attribute is
/// present, the sentinel of the field's type where it is absent.
pub open spec fn cell_model(entry: Option<TypedValue>, tag: TypeTag) -> TypedValueModel {
    match entry {
        Some(v) => v@,
        None => sentinel_model(tag),
    }
}

/// The sentinel of a field type, as an executable value.
pub fn sentinel_value(tag: TypeTag) -> (r: TypedValue)
    ensures
        r@ == sentinel_model(tag),
{
    match tag {
        TypeTag::Float64 => TypedValue::Float(NAN_BITS),
        TypeTag::Int64 => TypedValue::Int(i64::MAX),
        TypeTag::UInt64 => TypedValue::UInt(u64::MAX),
        TypeTag::Bool => TypedValue::Bool(false),
        TypeTag::Text => TypedValue::Text(String::new()),
    }
}

/// Law: an absent attribute encodes to its type's sentinel — not-a-number
/// for a 64-bit float field, the maximum representable value for signed and
/// unsigned 64-bit integer fields, `false` for a boolean field, and the
/// empty string for a string field.
pub proof fn lemma_absent_encodes_to_sentinel()
    ensures
        cell_model(None, TypeTag::Float64) == TypedValueModel::Float(NAN_BITS),
        cell_model(None, TypeTag::Int64) == TypedValueModel::Int(i64::MAX),
        cell_model(None, TypeTag::UInt64) == TypedValueModel::UInt(u64::MAX),
        cell_model(None, TypeTag::Bool) == TypedValueModel::Bool(false),
        cell_model(None, TypeTag::Text) == TypedValueModel::Text(Seq::<char>::empty()),
{
}

impl AttributeStore {
    /// Encodes the whole store as a structured array: one row per vertex
    /// slot of a table of `n_slots` slots (slot 0 and removed slots
    /// included, preserving positional correspondence with the coordinate
    /// table), one cell per schema field in declared order, each cell the
    /// stored value or the type's sentinel.  Without a schema the result is
    /// the zero-length buffer.
    pub fn encode(&self, n_slots: usize) -> (r: Vec<Vec<TypedValue>>)
        requires
            self.wf(),
        ensures
            self.schema is None ==> r@.len() == 0,
            self.schema is Some ==> {
                &&& r@.len() == n_slots
                &&& forall|i: int|
                    0 <= i < n_slots ==> (#[trigger] r@[i])@.len() == self.spec_fields().len()
                &&& forall|i: int, j: int|
                    0 <= i < n_slots && 0 <= j < self.spec_fields().len() ==> (#[trigger] r@[i]@[j])@
                        == cell_model(self.store_record(i)[j], self.spec_fields()[j].tag)
            },
    {
        match &self.schema {
            None => Vec::new(),
            Some(s) => {
                let nf = s.fields.len();
                let mut rows: Vec<Vec<TypedValue>> = Vec::new();
                let mut i: usize = 0;
                while i < n_slots
                    invariant
                        self.wf(),
                        self.schema is Some,
                        s.fields@ == self.spec_fields(),
                        nf == self.spec_fields().len(),
                        0 <= i <= n_slots,
                        rows@.len() == i,
                        forall|k: int| 0 <= k < i ==> (#[trigger] rows@[k])@.len() == nf,
                        forall|k: int, j: int|
                            0 <= k < i && 0 <= j < nf ==> (#[trigger] rows@[k]@[j])@ == cell_model(
                                self.store_record(k)[j],
                                self.spec_fields()[j].tag,
                            ),
                    decreases n_slots - i,
                {
                    let mut row: Vec<TypedValue> = Vec::new();
                    let mut j: usize = 0;
                    while j < nf
                        invariant
                            self.wf(),
                            self.schema is Some,
                            s.fields@ == self.spec_fields(),
                            nf == self.spec_fields().len(),
                            i < n_slots,
                            0 <= j <= nf,
                            row@.len() == j,
                            forall|jj: int|
                                0 <= jj < j ==> (#[trigger] row@[jj])@ == cell_model(
                                    self.store_record(i as int)[jj],
                                    self.spec_fields()[jj].tag,
                                ),
                        decreases nf - j,
                    {
                        let tag = s.fields[j].tag;
                        let cell = if i < self.records.len() {
                            match &self.records[i][j] {
                                Some(v) => v.clone(),
                                None => sentinel_value(tag),
                            }
                        } else {
                            proof {
                                assert(self.store_record(i as int)[j as int] is None);
                            }
                            sentinel_value(tag)
                        };
                        row.push(cell);
                        j += 1;
                    }
                    rows.push(row);
                    i += 1;
                }
                rows
            },
        }
    }
}

} // verus!
