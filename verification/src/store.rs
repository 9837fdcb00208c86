//! The per-vertex attribute store, validated against the declared schema.
//!
//! The store keeps one record per vertex slot of the triangulation's vertex
//! table (slot 0 — the infinite vertex — and removed slots included), as a
//! growable array parallel to that table.  The table itself belongs to the
//! external triangulation engine; its slot count and removed-vertex flags
//! are handed in by the caller where an operation needs them.
//!
//! Writes are validated against the schema and degrade silently: entries
//! whose name is unknown or whose value cannot be coerced are dropped, never
//! an error.  Declaring a new schema replaces the old one and clears every
//! stored record.

use vstd::prelude::*;

use crate::schema::{
    field_index_of, first_unsupported, lemma_field_index_of, lemma_first_unsupported,
    AttributeSchema, SchemaError, SchemaField, TypeTag,
};
use crate::values::{coerce, fits_tag, spec_coerce, AttributeValue, TypedValue};

verus! {

/// Errors when reading attributes from the store.
#[derive(Debug, PartialEq, Eq)]
pub enum AttrError {
    /// No schema has ever been declared.
    NoSchema,
    /// The vertex slot was never allocated, or the vertex has been removed.
    UnknownVertex,
}

/// One stored record: for each schema field, in declared order, the stored
/// value or `None` where the attribute was never set.
pub type AttributeRecord = Vec<Option<TypedValue>>;

/// The attribute store: the declared schema, if any, and the records, one
/// per vertex slot, grown lazily.  A slot beyond `records` holds no
/// attribute; it reads as an all-`None` record.
pub struct AttributeStore {
    pub schema: Option<AttributeSchema>,
    pub records: Vec<AttributeRecord>,
}

/// Well-formedness of one record against the schema's fields.
pub open spec fn record_wf(rec: Seq<Option<TypedValue>>, fields: Seq<SchemaField>) -> bool {
    &&& rec.len() == fields.len()
    &&& forall|j: int|
        0 <= j < rec.len() ==> (#[trigger] rec[j] matches Some(v) ==> fits_tag(fields[j].tag, v))
}

/// Applies one `(name, value)` entry to a record: resolves the name, coerces
/// the value, and overwrites the field on success; a record is unchanged by
/// an unknown name or an incompatible value.
pub open spec fn apply_pair(
    fields: Seq<SchemaField>,
    rec: Seq<Option<TypedValue>>,
    pair: (String, AttributeValue),
) -> Seq<Option<TypedValue>> {
    let j = field_index_of(fields, pair.0@);
    if j >= 0 {
        match spec_coerce(fields[j].tag, pair.1) {
            Some(tv) => rec.update(j, Some(tv)),
            None => rec,
        }
    } else {
        rec
    }
}

/// Folds a sequence of entries into a record, first to last; a later entry
/// for the same field overwrites an earlier one.
pub open spec fn merge_pairs(
    fields: Seq<SchemaField>,
    rec: Seq<Option<TypedValue>>,
    pairs: Seq<(String, AttributeValue)>,
) -> Seq<Option<TypedValue>>
    decreases pairs.len(),
{
    if pairs.len() == 0 {
        rec
    } else {
        merge_pairs(fields, apply_pair(fields, rec, pairs[0]), pairs.drop_first())
    }
}

/// Law: right after a schema declaration the store holds no attribute at
/// all — reading any live vertex of the table succeeds and yields the
/// attribute-less (all-`None`) record, for every vertex.
pub proof fn lemma_declared_schema_clears_store(
    s: AttributeStore,
    vi: usize,
    n_slots: usize,
    vi_removed: bool,
)
    requires
        s.wf(),
        s.schema is Some,
        s.records@.len() == 0,
        vi < n_slots,
        !vi_removed,
    ensures
        s.spec_get(vi, n_slots, vi_removed) == Ok::<Seq<Option<TypedValue>>, AttrError>(
            s.spec_empty_record(),
        ),
        forall|j: int| 0 <= j < s.spec_empty_record().len() ==> s.spec_empty_record()[j] is None,
{
}

/// Law: writing one schema-compatible entry and reading the record back
/// yields exactly that entry's coerced value at its field, every other
/// field untouched.
pub proof fn lemma_set_get_round_trip(
    fields: Seq<SchemaField>,
    rec: Seq<Option<TypedValue>>,
    name: String,
    v: AttributeValue,
)
    requires
        field_index_of(fields, name@) >= 0,
        spec_coerce(fields[field_index_of(fields, name@)].tag, v) is Some,
    ensures
        merge_pairs(fields, rec, seq![(name, v)]) == rec.update(
            field_index_of(fields, name@),
            spec_coerce(fields[field_index_of(fields, name@)].tag, v),
        ),
{
    let pairs = seq![(name, v)];
    assert(pairs[0] == (name, v));
    assert(pairs.drop_first() =~= Seq::<(String, AttributeValue)>::empty());
    assert(merge_pairs(fields, rec, pairs) == merge_pairs(
        fields,
        apply_pair(fields, rec, (name, v)),
        pairs.drop_first(),
    ));
}

/// Law: an entry whose name is not a schema field, or whose value cannot be
/// coerced to the field's type, leaves the record without that entry —
/// unchanged.
pub proof fn lemma_incompatible_entry_dropped(
    fields: Seq<SchemaField>,
    rec: Seq<Option<TypedValue>>,
    name: String,
    v: AttributeValue,
)
    requires
        field_index_of(fields, name@) == -1 || spec_coerce(
            fields[field_index_of(fields, name@)].tag,
            v,
        ) is None,
    ensures
        merge_pairs(fields, rec, seq![(name, v)]) == rec,
{
    let pairs = seq![(name, v)];
    assert(pairs[0] == (name, v));
    assert(pairs.drop_first() =~= Seq::<(String, AttributeValue)>::empty());
    assert(apply_pair(fields, rec, (name, v)) == rec);
    assert(merge_pairs(fields, rec, pairs) == merge_pairs(
        fields,
        apply_pair(fields, rec, (name, v)),
        pairs.drop_first(),
    ));
}

/// The records that survive a compaction of the first `upto` slots: in
/// table order, the record of every slot whose vertex is not removed.
pub open spec fn compacted_records(
    s: AttributeStore,
    removed: Seq<bool>,
    upto: int,
) -> Seq<Seq<Option<TypedValue>>>
    decreases upto,
{
    if upto <= 0 {
        Seq::empty()
    } else if removed[upto - 1] {
        compacted_records(s, removed, upto - 1)
    } else {
        compacted_records(s, removed, upto - 1).push(s.store_record(upto - 1))
    }
}

/// A fresh all-`None` record of width `nf`.
fn empty_row(nf: usize) -> (r: AttributeRecord)
    ensures
        r@.len() == nf,
        forall|j: int| 0 <= j < nf ==> r@[j] is None,
{
    let mut r: AttributeRecord = Vec::new();
    let mut j: usize = 0;
    while j < nf
        invariant
            0 <= j <= nf,
            r@.len() == j,
            forall|k: int| 0 <= k < j ==> r@[k] is None,
        decreases nf - j,
    {
        r.push(None);
        j += 1;
    }
    r
}

/// A copy of a record, equal to it entry for entry.
fn clone_row(row: &AttributeRecord) -> (r: AttributeRecord)
    ensures
        r@ == row@,
{
    let n = row.len();
    let mut r: AttributeRecord = Vec::new();
    let mut j: usize = 0;
    while j < n
        invariant
            n == row@.len(),
            0 <= j <= n,
            r@.len() == j,
            forall|k: int| 0 <= k < j ==> r@[k] == row@[k],
        decreases n - j,
    {
        let cell = match &row[j] {
            Some(x) => Some(x.clone()),
            None => None,
        };
        r.push(cell);
        j += 1;
    }
    proof {
        assert(r@ =~= row@);
    }
    r
}

impl AttributeStore {
    /// An empty store: no schema, no records.
    pub fn new() -> (r: AttributeStore)
        ensures
            r.schema is None,
            r.records@.len() == 0,
            r.wf(),
    {
        AttributeStore { schema: None, records: Vec::new() }
    }

    /// The declared fields (meaningful only when a schema exists).
    pub open spec fn spec_fields(self) -> Seq<SchemaField>
        recommends
            self.schema is Some,
    {
        self.schema.unwrap().fields@
    }

    /// The all-`None` record of the current schema.
    pub open spec fn spec_empty_record(self) -> Seq<Option<TypedValue>> {
        Seq::new(self.spec_fields().len(), |j: int| None::<TypedValue>)
    }

    /// The record stored for slot `vi`: the kept one, or the all-`None`
    /// record for a slot the store never grew to.
    pub open spec fn store_record(self, vi: int) -> Seq<Option<TypedValue>> {
        if 0 <= vi < self.records@.len() {
            self.records@[vi]@
        } else {
            self.spec_empty_record()
        }
    }

    /// Well-formedness: without a schema there are no records; with one,
    /// every record matches the schema's width and every stored value its
    /// field's type.
    pub open spec fn wf(self) -> bool {
        match self.schema {
            None => self.records@.len() == 0,
            Some(s) => {
                &&& s.wf()
                &&& forall|i: int|
                    0 <= i < self.records@.len() ==> record_wf(#[trigger] self.records@[i]@, s.fields@)
            },
        }
    }

    /// Declares the attribute schema from `(name, descriptor)` pairs.
    ///
    /// On success the new schema replaces any prior one and every stored
    /// attribute record is cleared — a full reset, not a merge.  The first
    /// unsupported descriptor fails the declaration with
    /// [`SchemaError::UnsupportedType`] naming the offending field, and the
    /// store is left unchanged.
    pub fn set_attributes_schema(&mut self, fields: Vec<(String, String)>) -> (r: Result<
        bool,
        SchemaError,
    >)
        requires
            old(self).wf(),
            forall|i: int, j: int|
                0 <= i < j < fields@.len() ==> fields@[i].0@ != fields@[j].0@,
        ensures
            final(self).wf(),
            r is Ok <==> first_unsupported(fields@) == -1,
            r matches Ok(b) ==> {
                &&& b == true
                &&& final(self).schema is Some
                &&& final(self).records@.len() == 0
                &&& final(self).spec_fields().len() == fields@.len()
                &&& forall|k: int|
                    0 <= k < fields@.len() ==> {
                        &&& (#[trigger] final(self).spec_fields()[k]).name == fields@[k].0
                        &&& Some(final(self).spec_fields()[k].tag) == crate::schema::spec_descr_tag(
                            fields@[k].1@,
                        )
                        &&& final(self).spec_fields()[k].layout@ == crate::schema::spec_descr_layout(
                            fields@[k].1@,
                        )
                    }
            },
            r matches Err(e) ==> {
                &&& *final(self) == *old(self)
                &&& e matches SchemaError::UnsupportedType { field, descriptor } && field
                    == fields@[first_unsupported(fields@)].0 && descriptor == fields@[
                    first_unsupported(fields@)
                ].1
            },
    {
        let n = fields.len();
        // First pass: find the first unsupported descriptor, touching nothing.
        let mut i: usize = 0;
        while i < n
            invariant
                *self == *old(self),
                old(self).wf(),
                n == fields@.len(),
                0 <= i <= n,
                forall|k: int|
                    0 <= k < i ==> crate::schema::spec_descr_tag(#[trigger] fields@[k].1@) is Some,
            decreases n - i,
        {
            if crate::schema::descr_tag_layout(fields[i].1.as_str()).is_none() {
                proof {
                    lemma_first_unsupported(fields@, i as int);
                }
                return Err(
                    SchemaError::UnsupportedType {
                        field: fields[i].0.clone(),
                        descriptor: fields[i].1.clone(),
                    },
                );
            }
            i += 1;
        }
        proof {
            lemma_first_unsupported(fields@, n as int);
        }
        // Second pass: every descriptor is supported; build the new schema.
        let ghost all = fields@;
        let mut rest = fields;
        let mut built: Vec<SchemaField> = Vec::new();
        while rest.len() > 0
            invariant
                built@.len() + rest@.len() == all.len(),
                rest@ =~= all.subrange(built@.len() as int, all.len() as int),
                forall|k: int|
                    0 <= k < all.len() ==> crate::schema::spec_descr_tag(
                        #[trigger] all[k].1@,
                    ) is Some,
                forall|k: int|
                    0 <= k < built@.len() ==> {
                        &&& (#[trigger] built@[k]).name == all[k].0
                        &&& Some(built@[k].tag) == crate::schema::spec_descr_tag(all[k].1@)
                        &&& built@[k].layout@ == crate::schema::spec_descr_layout(all[k].1@)
                    },
            decreases rest@.len(),
        {
            let pair = rest.remove(0);
            let ghost kk = built@.len() as int;
            let (name, descr) = pair;
            match crate::schema::descr_tag_layout(descr.as_str()) {
                Some((tag, layout)) => {
                    built.push(SchemaField { name, tag, layout });
                },
                None => {
                    proof {
                        assert(all[kk].1 == descr);
                        assert(false);
                    }
                },
            }
            proof {
                assert(rest@ =~= all.subrange(built@.len() as int, all.len() as int));
            }
        }
        let new_schema = AttributeSchema { fields: built };
        proof {
            assert forall|i2: int, j2: int|
                0 <= i2 < j2 < new_schema.fields@.len() implies new_schema.fields@[i2].name@
                != new_schema.fields@[j2].name@ by {
                assert(new_schema.fields@[i2].name == all[i2].0);
                assert(new_schema.fields@[j2].name == all[j2].0);
            }
        }
        self.schema = Some(new_schema);
        self.records = Vec::new();
        Ok(true)
    }

    /// What a read of slot `vi` yields, given the table's slot count and
    /// whether that vertex is removed: the stored record, or the error.
    pub open spec fn spec_get(self, vi: usize, n_slots: usize, vi_removed: bool) -> Result<
        Seq<Option<TypedValue>>,
        AttrError,
    > {
        if vi >= n_slots || vi_removed {
            Err(AttrError::UnknownVertex)
        } else if self.schema is None {
            Err(AttrError::NoSchema)
        } else {
            Ok(self.store_record(vi as int))
        }
    }

    /// Adds attribute entries to vertex `vi` of a table of `n_slots` slots.
    ///
    /// Each entry is validated against the schema: an entry whose name is
    /// not a schema field, or whose value cannot be coerced to the field's
    /// type, is silently dropped.  Accepted entries overwrite the prior
    /// value of that field; fields not mentioned are left untouched — an
    /// incremental merge, not a replacement.  Without a schema, or for a
    /// slot outside the table, nothing is stored.  The call always returns
    /// `true`; the result does not say whether anything changed.
    pub fn set_vertex_attributes(
        &mut self,
        vi: usize,
        n_slots: usize,
        values: Vec<(String, AttributeValue)>,
    ) -> (r: bool)
        requires
            old(self).wf(),
        ensures
            final(self).wf(),
            r == true,
            final(self).schema == old(self).schema,
            old(self).schema is None || vi >= n_slots ==> *final(self) == *old(self),
            old(self).schema is Some && vi < n_slots ==> {
                &&& forall|w: int|
                    0 <= w && w != vi ==> #[trigger] final(self).store_record(w) == old(
                        self,
                    ).store_record(w)
                &&& final(self).store_record(vi as int) == merge_pairs(
                    old(self).spec_fields(),
                    old(self).store_record(vi as int),
                    values@,
                )
            },
    {
        if self.schema.is_none() || vi >= n_slots {
            return true;
        }
        let nf = match &self.schema {
            Some(s) => s.fields.len(),
            None => 0,
        };
        // Grow the record arena so that slot `vi` exists.
        while self.records.len() <= vi
            invariant
                old(self).wf(),
                old(self).schema is Some,
                self.wf(),
                self.schema == old(self).schema,
                nf == self.spec_fields().len(),
                forall|w: int|
                    0 <= w ==> #[trigger] self.store_record(w) == old(self).store_record(w),
            decreases vi + 1 - self.records.len(),
        {
            let ghost prev = *self;
            let ghost at = self.records@.len() as int;
            let row = empty_row(nf);
            self.records.push(row);
            proof {
                assert(self.store_record(at) =~= self.spec_empty_record());
                assert forall|w: int| 0 <= w implies #[trigger] self.store_record(w) == old(
                    self,
                ).store_record(w) by {
                    if w < at {
                        assert(self.records@[w] == prev.records@[w]);
                        assert(self.store_record(w) == prev.store_record(w));
                    } else if w == at {
                        assert(prev.store_record(w) == prev.spec_empty_record());
                    } else {
                        assert(self.store_record(w) == self.spec_empty_record());
                        assert(prev.store_record(w) == prev.spec_empty_record());
                    }
                    assert(prev.store_record(w) == old(self).store_record(w));
                }
            }
        }
        // Merge the entries, first to last.
        let ghost fields = self.spec_fields();
        let ghost orig_rec = self.store_record(vi as int);
        let ghost allvals = values@;
        let mut rest = values;
        while rest.len() > 0
            invariant
                old(self).wf(),
                old(self).schema is Some,
                vi < n_slots,
                self.wf(),
                self.schema == old(self).schema,
                fields == self.spec_fields(),
                nf == fields.len(),
                vi < self.records@.len(),
                forall|w: int|
                    0 <= w && w != vi ==> #[trigger] self.store_record(w) == old(
                        self,
                    ).store_record(w),
                orig_rec == old(self).store_record(vi as int),
                merge_pairs(fields, self.store_record(vi as int), rest@) == merge_pairs(
                    fields,
                    orig_rec,
                    allvals,
                ),
            decreases rest@.len(),
        {
            let ghost rest_before = rest@;
            let ghost prev_rec = self.store_record(vi as int);
            let pair = rest.remove(0);
            proof {
                assert(rest_before[0] == pair);
                assert(rest@ =~= rest_before.drop_first());
            }
            let (name, v) = pair;
            let idx = match &self.schema {
                Some(s) => s.resolve_index(name.as_str()),
                None => None,
            };
            if let Some(j) = idx {
                proof {
                    lemma_field_index_of(fields, name@);
                }
                let tag = match &self.schema {
                    Some(s) => s.fields[j].tag,
                    None => TypeTag::Bool,
                };
                match coerce(tag, v) {
                    Some(tv) => {
                        proof {
                            crate::values::lemma_coerce_fits(tag, pair.1);
                        }
                        let mut new_row: AttributeRecord = Vec::new();
                        let mut jj: usize = 0;
                        while jj < nf
                            invariant
                                nf == self.records@[vi as int]@.len(),
                                vi < self.records@.len(),
                                j < nf,
                                0 <= jj <= nf,
                                new_row@.len() == jj,
                                forall|k: int|
                                    0 <= k < jj ==> #[trigger] new_row@[k] == (if k == j {
                                        Some(tv)
                                    } else {
                                        self.records@[vi as int]@[k]
                                    }),
                            decreases nf - jj,
                        {
                            if jj == j {
                                new_row.push(Some(tv.clone()));
                            } else {
                                let cell = match &self.records[vi][jj] {
                                    Some(x) => Some(x.clone()),
                                    None => None,
                                };
                                new_row.push(cell);
                            }
                            jj += 1;
                        }
                        proof {
                            assert(new_row@ =~= prev_rec.update(j as int, Some(tv)));
                        }
                        let ghost before_set = *self;
                        self.records.set(vi, new_row);
                        proof {
                            assert(self.store_record(vi as int) == prev_rec.update(
                                j as int,
                                Some(tv),
                            ));
                            assert(apply_pair(fields, prev_rec, pair) == self.store_record(
                                vi as int,
                            ));
                            assert forall|w: int| 0 <= w && w != vi implies #[trigger] self.store_record(
                                w,
                            ) == old(self).store_record(w) by {
                                if w < self.records@.len() {
                                    assert(self.records@[w] == before_set.records@[w]);
                                    assert(self.store_record(w) == before_set.store_record(w));
                                } else {
                                    assert(self.store_record(w) == self.spec_empty_record());
                                    assert(before_set.store_record(w)
                                        == before_set.spec_empty_record());
                                }
                                assert(before_set.store_record(w) == old(self).store_record(w));
                            }
                        }
                    },
                    None => {
                        proof {
                            assert(apply_pair(fields, prev_rec, pair) == prev_rec);
                        }
                    },
                }
            } else {
                proof {
                    assert(apply_pair(fields, prev_rec, pair) == prev_rec);
                }
            }
            proof {
                assert(merge_pairs(fields, prev_rec, rest_before) == merge_pairs(
                    fields,
                    apply_pair(fields, prev_rec, pair),
                    rest_before.drop_first(),
                ));
            }
        }
        true
    }

    /// Reads the attribute record of vertex `vi`, given the table's slot
    /// count and whether that vertex is removed.
    ///
    /// Fails with [`AttrError::UnknownVertex`] for a slot never allocated
    /// or a removed vertex, and with [`AttrError::NoSchema`] when no schema
    /// has ever been declared; otherwise yields the stored record, which is
    /// attribute-less (all `None`) for a vertex never written to.
    pub fn get_vertex_attributes(&self, vi: usize, n_slots: usize, vi_removed: bool) -> (r: Result<
        AttributeRecord,
        AttrError,
    >)
        requires
            self.wf(),
        ensures
            r is Ok <==> self.spec_get(vi, n_slots, vi_removed) is Ok,
            r matches Ok(rec) ==> self.spec_get(vi, n_slots, vi_removed) matches Ok(m) && rec@
                == m,
            r matches Err(e) ==> self.spec_get(vi, n_slots, vi_removed) matches Err(e2) && e
                == e2,
    {
        if vi >= n_slots || vi_removed {
            return Err(AttrError::UnknownVertex);
        }
        match &self.schema {
            None => Err(AttrError::NoSchema),
            Some(s) => {
                if vi < self.records.len() {
                    Ok(clone_row(&self.records[vi]))
                } else {
                    let row = empty_row(s.fields.len());
                    proof {
                        assert(row@ =~= self.spec_empty_record());
                    }
                    Ok(row)
                }
            },
        }
    }

    /// All attribute records, one per vertex slot of a table of `n_slots`
    /// slots, in table order — the infinite vertex's slot and removed slots
    /// included.  `None` when no schema has been declared.
    pub fn all_attributes(&self, n_slots: usize) -> (r: Option<Vec<AttributeRecord>>)
        requires
            self.wf(),
        ensures
            r is Some <==> self.schema is Some,
            r matches Some(rows) ==> {
                &&& rows@.len() == n_slots
                &&& forall|i: int| 0 <= i < n_slots ==> #[trigger] rows@[i]@ == self.store_record(i)
            },
    {
        match &self.schema {
            None => None,
            Some(s) => {
                let nf = s.fields.len();
                let mut rows: Vec<AttributeRecord> = Vec::new();
                let mut i: usize = 0;
                while i < n_slots
                    invariant
                        self.wf(),
                        self.schema is Some,
                        nf == self.spec_fields().len(),
                        0 <= i <= n_slots,
                        rows@.len() == i,
                        forall|k: int| 0 <= k < i ==> #[trigger] rows@[k]@ == self.store_record(k),
                    decreases n_slots - i,
                {
                    if i < self.records.len() {
                        rows.push(clone_row(&self.records[i]));
                    } else {
                        let row = empty_row(nf);
                        proof {
                            assert(row@ =~= self.spec_empty_record());
                        }
                        rows.push(row);
                    }
                    i += 1;
                }
                Some(rows)
            },
        }
    }

    /// Compacts the store after the vertex table compacted its garbage:
    /// keeps, in table order, the records of the slots that survive
    /// (`removed[i]` false), so the record arena stays parallel to the
    /// compacted table; the records of compacted-away vertices are cleared.
    pub fn compact(&mut self, removed: &Vec<bool>)
        requires
            old(self).wf(),
        ensures
            final(self).wf(),
            final(self).schema == old(self).schema,
            old(self).schema is None ==> *final(self) == *old(self),
            old(self).schema is Some ==> {
                &&& final(self).records@.len() == compacted_records(
                    *old(self),
                    removed@,
                    removed@.len() as int,
                ).len()
                &&& forall|w: int|
                    0 <= w < final(self).records@.len() ==> #[trigger] final(self).store_record(w)
                        == compacted_records(*old(self), removed@, removed@.len() as int)[w]
            },
    {
        if self.schema.is_none() {
            return;
        }
        let n = removed.len();
        let nf = match &self.schema {
            Some(s) => s.fields.len(),
            None => 0,
        };
        let mut kept: Vec<AttributeRecord> = Vec::new();
        let mut i: usize = 0;
        while i < n
            invariant
                old(self).wf(),
                old(self).schema is Some,
                *self == *old(self),
                n == removed@.len(),
                nf == self.spec_fields().len(),
                0 <= i <= n,
                kept@.len() == compacted_records(*old(self), removed@, i as int).len(),
                forall|w: int|
                    0 <= w < kept@.len() ==> #[trigger] kept@[w]@ == compacted_records(
                        *old(self),
                        removed@,
                        i as int,
                    )[w],
                forall|w: int|
                    0 <= w < kept@.len() ==> record_wf(
                        #[trigger] kept@[w]@,
                        old(self).spec_fields(),
                    ),
            decreases n - i,
        {
            let ghost before = compacted_records(*old(self), removed@, i as int);
            if !removed[i] {
                if i < self.records.len() {
                    kept.push(clone_row(&self.records[i]));
                } else {
                    let row = empty_row(nf);
                    proof {
                        assert(row@ =~= self.spec_empty_record());
                    }
                    kept.push(row);
                }
                proof {
                    assert(compacted_records(*old(self), removed@, i as int + 1) =~= before.push(
                        old(self).store_record(i as int),
                    ));
                }
            }
            i += 1;
        }
        self.records = kept;
    }

    /// The ordered `(name, layout tag)` pairs of the declared schema; empty
    /// when no schema has been declared.
    pub fn get_attributes_schema(&self) -> (r: Vec<(String, String)>)
        ensures
            match self.schema {
                None => r@.len() == 0,
                Some(s) => {
                    &&& r@.len() == s.fields@.len()
                    &&& forall|k: int|
                        0 <= k < r@.len() ==> (#[trigger] r@[k]).0@ == s.fields@[k].name@
                            && r@[k].1@ == s.fields@[k].layout@
                },
            },
    {
        match &self.schema {
            None => Vec::new(),
            Some(s) => s.layout(),
        }
    }
}

} // verus!
