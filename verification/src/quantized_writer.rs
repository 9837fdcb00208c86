//! The quantized geometry writer: a nested-object interchange document with
//! a scale/translate transform and an integer-triple vertex array.
//!
//! For every slot from index 1 on, in ascending order, one integer triple
//! is emitted: a removed vertex contributes the placeholder's coordinates
//! (the first non-removed vertex), any other its own; each coordinate is
//! quantized by deleting the decimal point of its fixed-point text and
//! parsing the digit string, sign preserved.  Slot 0 is omitted, so every
//! triangle's slot references are shifted down by one to stay valid against
//! the emitted vertex array.

use vstd::prelude::*;

use crate::fixedpoint::{fixed_value, fixed_wf, quantize_fixed};
use crate::geom::{Triangle, VertexText};
use crate::numtext::{dec_digits, i64_dec_string, int_text, usize_dec_string};

verus! {

/// The index of the first non-removed vertex — the placeholder — or -1 if
/// every vertex is removed.
pub open spec fn placeholder_of(vs: Seq<VertexText>) -> int
    decreases vs.len(),
{
    if vs.len() == 0 {
        -1
    } else if !vs[0].removed {
        0
    } else {
        let r = placeholder_of(vs.drop_first());
        if r == -1 {
            -1
        } else {
            r + 1
        }
    }
}

pub proof fn lemma_placeholder_of(vs: Seq<VertexText>)
    ensures
        placeholder_of(vs) == -1 ==> forall|k: int| 0 <= k < vs.len() ==> vs[k].removed,
        placeholder_of(vs) != -1 ==> {
            &&& 0 <= placeholder_of(vs) < vs.len()
            &&& !vs[placeholder_of(vs)].removed
            &&& forall|k: int| 0 <= k < placeholder_of(vs) ==> vs[k].removed
        },
    decreases vs.len(),
{
    if vs.len() == 0 {
    } else if !vs[0].removed {
    } else {
        lemma_placeholder_of(vs.drop_first());
        assert forall|k: int| 1 <= k < vs.len() implies vs.drop_first()[k - 1] == vs[k] by {}
    }
}

/// Whether one vertex's coordinate texts are well-formed fixed-point
/// literals whose quantized values fit a signed 64-bit integer.
pub open spec fn vert_ok(v: VertexText, digits: nat) -> bool {
    &&& fixed_wf(v.x@, digits) && i64::MIN <= fixed_value(v.x@, digits) <= i64::MAX
    &&& fixed_wf(v.y@, digits) && i64::MIN <= fixed_value(v.y@, digits) <= i64::MAX
    &&& fixed_wf(v.z@, digits) && i64::MIN <= fixed_value(v.z@, digits) <= i64::MAX
}

/// What the quantized writer asks of its vertex rows: unless the table is
/// empty a placeholder exists (a table whose every vertex is removed has no
/// coordinates to substitute), and every non-removed vertex quantizes.
pub open spec fn quant_verts_wf(vs: Seq<VertexText>, digits: nat) -> bool {
    &&& vs.len() > 0 ==> placeholder_of(vs) >= 0
    &&& forall|k: int| 0 <= k < vs.len() && !(#[trigger] vs[k]).removed ==> vert_ok(vs[k], digits)
}

/// The row whose coordinates slot `k` emits: the placeholder for a removed
/// vertex, the vertex itself otherwise.
pub open spec fn source_of(vs: Seq<VertexText>, k: int) -> int {
    if vs[k].removed {
        placeholder_of(vs)
    } else {
        k
    }
}

/// The quantized coordinates emitted for slot `k`.
pub open spec fn quant_x(vs: Seq<VertexText>, digits: nat, k: int) -> int {
    fixed_value(vs[source_of(vs, k)].x@, digits)
}

pub open spec fn quant_y(vs: Seq<VertexText>, digits: nat, k: int) -> int {
    fixed_value(vs[source_of(vs, k)].y@, digits)
}

pub open spec fn quant_z(vs: Seq<VertexText>, digits: nat, k: int) -> int {
    fixed_value(vs[source_of(vs, k)].z@, digits)
}

/// Law: a removed vertex at any index emits exactly the integer triple of
/// the designated placeholder vertex.
pub proof fn lemma_removed_emits_placeholder_triple(vs: Seq<VertexText>, digits: nat, k: int)
    requires
        quant_verts_wf(vs, digits),
        0 <= k < vs.len(),
        vs[k].removed,
    ensures
        quant_x(vs, digits, k) == quant_x(vs, digits, placeholder_of(vs)),
        quant_y(vs, digits, k) == quant_y(vs, digits, placeholder_of(vs)),
        quant_z(vs, digits, k) == quant_z(vs, digits, placeholder_of(vs)),
{
    lemma_placeholder_of(vs);
}

/// The index of the first non-removed vertex, if any.
pub fn placeholder_index(verts: &Vec<VertexText>) -> (r: Option<usize>)
    ensures
        match r {
            Some(p) => placeholder_of(verts@) == p,
            None => placeholder_of(verts@) == -1,
        },
{
    let n = verts.len();
    let mut i: usize = 0;
    while i < n
        invariant
            n == verts@.len(),
            0 <= i <= n,
            forall|k: int| 0 <= k < i ==> verts@[k].removed,
        decreases n - i,
    {
        if !verts[i].removed {
            proof {
                lemma_placeholder_first(verts@, i as int);
            }
            return Some(i);
        }
        i += 1;
    }
    proof {
        lemma_placeholder_of(verts@);
    }
    None
}

/// If `i` is non-removed and everything before it is removed, `i` is the
/// placeholder.
proof fn lemma_placeholder_first(vs: Seq<VertexText>, i: int)
    requires
        0 <= i < vs.len(),
        !vs[i].removed,
        forall|k: int| 0 <= k < i ==> vs[k].removed,
    ensures
        placeholder_of(vs) == i,
    decreases vs.len(),
{
    if i == 0 {
    } else {
        assert forall|k: int| 0 <= k < i - 1 implies vs.drop_first()[k].removed by {
            assert(vs.drop_first()[k] == vs[k + 1]);
        }
        assert(vs.drop_first()[i - 1] == vs[i]);
        lemma_placeholder_first(vs.drop_first(), i - 1);
    }
}

/// The integer triples of the emitted vertex array, one per slot from index
/// 1 on, in ascending slot order.
pub fn quantized_triples(verts: &Vec<VertexText>, digits: usize) -> (r: Vec<(i64, i64, i64)>)
    requires
        quant_verts_wf(verts@, digits as nat),
    ensures
        r@.len() == verts@.len(),
        forall|k: int|
            0 <= k < r@.len() ==> {
                &&& (#[trigger] r@[k]).0 == quant_x(verts@, digits as nat, k)
                &&& r@[k].1 == quant_y(verts@, digits as nat, k)
                &&& r@[k].2 == quant_z(verts@, digits as nat, k)
            },
{
    let n = verts.len();
    let ph_opt = placeholder_index(verts);
    let mut out: Vec<(i64, i64, i64)> = Vec::new();
    let mut k: usize = 0;
    while k < n
        invariant
            n == verts@.len(),
            quant_verts_wf(verts@, digits as nat),
            match ph_opt {
                Some(p) => placeholder_of(verts@) == p,
                None => placeholder_of(verts@) == -1,
            },
            0 <= k <= n,
            out@.len() == k,
            forall|w: int|
                0 <= w < k ==> {
                    &&& (#[trigger] out@[w]).0 == quant_x(verts@, digits as nat, w)
                    &&& out@[w].1 == quant_y(verts@, digits as nat, w)
                    &&& out@[w].2 == quant_z(verts@, digits as nat, w)
                },
        decreases n - k,
    {
        proof {
            lemma_placeholder_of(verts@);
        }
        let src: usize = if verts[k].removed {
            match ph_opt {
                Some(p) => p,
                None => {
                    proof {
                        assert(false);
                    }
                    0
                },
            }
        } else {
            k
        };
        proof {
            assert(src as int == source_of(verts@, k as int));
            assert(!verts@[src as int].removed);
            assert(vert_ok(verts@[src as int], digits as nat));
        }
        let qx = match quantize_fixed(verts[src].x.as_str(), digits) {
            Some(v) => v,
            None => {
                proof {
                    assert(false);
                }
                0
            },
        };
        let qy = match quantize_fixed(verts[src].y.as_str(), digits) {
            Some(v) => v,
            None => {
                proof {
                    assert(false);
                }
                0
            },
        };
        let qz = match quantize_fixed(verts[src].z.as_str(), digits) {
            Some(v) => v,
            None => {
                proof {
                    assert(false);
                }
                0
            },
        };
        out.push((qx, qy, qz));
        k += 1;
    }
    out
}

/// The text of one emitted vertex triple.
pub open spec fn triple_text(x: int, y: int, z: int) -> Seq<char> {
    "["@ + int_text(x) + ","@ + int_text(y) + ","@ + int_text(z) + "]"@
}

/// The comma-separated text of the first `upto` emitted vertex triples.
pub open spec fn triples_text(vs: Seq<VertexText>, digits: nat, upto: int) -> Seq<char>
    decreases upto,
{
    if upto <= 0 {
        Seq::empty()
    } else if upto == 1 {
        triple_text(quant_x(vs, digits, 0), quant_y(vs, digits, 0), quant_z(vs, digits, 0))
    } else {
        triples_text(vs, digits, upto - 1) + ","@ + triple_text(
            quant_x(vs, digits, upto - 1),
            quant_y(vs, digits, upto - 1),
            quant_z(vs, digits, upto - 1),
        )
    }
}

/// The text of one boundary record: a surface of one ring whose slot
/// references are shifted down by one against the emitted vertex array.
pub open spec fn boundary_text(t: Triangle) -> Seq<char> {
    "[["@ + int_text(t.a - 1) + ","@ + int_text(t.b - 1) + ","@ + int_text(t.c - 1) + "]]"@
}

/// The comma-separated text of the first `upto` boundary records.
pub open spec fn boundaries_text(ts: Seq<Triangle>, upto: int) -> Seq<char>
    decreases upto,
{
    if upto <= 0 {
        Seq::empty()
    } else if upto == 1 {
        boundary_text(ts[0])
    } else {
        boundaries_text(ts, upto - 1) + ","@ + boundary_text(ts[upto - 1])
    }
}

/// The full quantized document: format tag, version tag, the uniform
/// scale and the translate (whose third component is always zero), one
/// terrain object of boundary surfaces, and the emitted vertex array.
pub open spec fn spec_cityjson_doc(
    vs: Seq<VertexText>,
    ts: Seq<Triangle>,
    digits: nat,
    scale: Seq<char>,
    translate_x: Seq<char>,
    translate_y: Seq<char>,
) -> Seq<char> {
    "{\"type\":\"CityJSON\",\"version\":\"2.0\",\"transform\":{\"scale\":["@ + scale + ","@ + scale
        + ","@ + scale + "],\"translate\":["@ + translate_x + ","@ + translate_y
        + ",0.0]},\"CityObjects\":{\"myterrain\":{\"geometry\":[{\"boundaries\":["@
        + boundaries_text(ts, ts.len() as int)
        + "],\"lod\":\"1\",\"type\":\"CompositeSurface\"}],\"type\":\"TINRelief\"}},\"vertices\":["@
        + triples_text(vs, digits, vs.len() as int) + "]}"@
}

/// Law: the quantized writer is deterministic — the document is a function
/// of the vertex rows, the triangles, the digit count and the transform
/// text alone, so two runs on identical inputs produce byte-identical
/// output.
pub proof fn lemma_quantized_doc_deterministic(
    vs1: Seq<VertexText>,
    ts1: Seq<Triangle>,
    digits1: nat,
    scale1: Seq<char>,
    tx1: Seq<char>,
    ty1: Seq<char>,
    vs2: Seq<VertexText>,
    ts2: Seq<Triangle>,
    digits2: nat,
    scale2: Seq<char>,
    tx2: Seq<char>,
    ty2: Seq<char>,
)
    requires
        vs1 == vs2,
        ts1 == ts2,
        digits1 == digits2,
        scale1 == scale2,
        tx1 == tx2,
        ty1 == ty2,
    ensures
        spec_cityjson_doc(vs1, ts1, digits1, scale1, tx1, ty1) == spec_cityjson_doc(
            vs2,
            ts2,
            digits2,
            scale2,
            tx2,
            ty2,
        ),
{
}

/// Appends the text of one vertex triple.
fn append_triple(doc: &mut String, t: (i64, i64, i64))
    ensures
        final(doc)@ == old(doc)@ + triple_text(t.0 as int, t.1 as int, t.2 as int),
{
    doc.append("[");
    let s0 = i64_dec_string(t.0);
    doc.append(s0.as_str());
    doc.append(",");
    let s1 = i64_dec_string(t.1);
    doc.append(s1.as_str());
    doc.append(",");
    let s2 = i64_dec_string(t.2);
    doc.append(s2.as_str());
    doc.append("]");
    proof {
        assert(doc@ =~= old(doc)@ + triple_text(t.0 as int, t.1 as int, t.2 as int));
    }
}

/// Whether the vertex rows and triangles meet the quantized writer's
/// requirements: a placeholder where one is needed, every used coordinate
/// text well-formed and in range, and every triangle's slot references at
/// least 1.
pub fn quant_inputs_ok(verts: &Vec<VertexText>, triangles: &Vec<Triangle>, digits: usize) -> (b:
    bool)
    ensures
        b == (quant_verts_wf(verts@, digits as nat) && forall|k: int|
            0 <= k < triangles@.len() ==> (#[trigger] triangles@[k]).a >= 1 && triangles@[k].b >= 1
                && triangles@[k].c >= 1),
{
    let n = verts.len();
    if n > 0 {
        if placeholder_index(verts).is_none() {
            return false;
        }
    }
    let mut k: usize = 0;
    while k < n
        invariant
            n == verts@.len(),
            0 <= k <= n,
            forall|w: int|
                0 <= w < k && !(#[trigger] verts@[w]).removed ==> vert_ok(
                    verts@[w],
                    digits as nat,
                ),
        decreases n - k,
    {
        if !verts[k].removed {
            if quantize_fixed(verts[k].x.as_str(), digits).is_none() {
                return false;
            }
            if quantize_fixed(verts[k].y.as_str(), digits).is_none() {
                return false;
            }
            if quantize_fixed(verts[k].z.as_str(), digits).is_none() {
                return false;
            }
        }
        k += 1;
    }
    let nt = triangles.len();
    let mut j: usize = 0;
    while j < nt
        invariant
            n == verts@.len(),
            nt == triangles@.len(),
            quant_verts_wf(verts@, digits as nat),
            0 <= j <= nt,
            forall|w: int|
                0 <= w < j ==> (#[trigger] triangles@[w]).a >= 1 && triangles@[w].b >= 1
                    && triangles@[w].c >= 1,
        decreases nt - j,
    {
        let t = triangles[j];
        if t.a < 1 || t.b < 1 || t.c < 1 {
            return false;
        }
        j += 1;
    }
    true
}

/// Builds the quantized document from the vertex rows (slots 1 on, each
/// coordinate as fixed-point text with `digits` fractional digits), the
/// finite triangles, and the transform's number text (the scale entry, and
/// the two translate offsets).
pub fn cityjson_doc(
    verts: &Vec<VertexText>,
    triangles: &Vec<Triangle>,
    digits: usize,
    scale: &str,
    translate_x: &str,
    translate_y: &str,
) -> (r: String)
    requires
        quant_verts_wf(verts@, digits as nat),
        forall|k: int|
            0 <= k < triangles@.len() ==> (#[trigger] triangles@[k]).a >= 1 && triangles@[k].b >= 1
                && triangles@[k].c >= 1,
    ensures
        r@ == spec_cityjson_doc(
            verts@,
            triangles@,
            digits as nat,
            scale@,
            translate_x@,
            translate_y@,
        ),
{
    let mut doc = String::new();
    doc.append("{\"type\":\"CityJSON\",\"version\":\"2.0\",\"transform\":{\"scale\":[");
    doc.append(scale);
    doc.append(",");
    doc.append(scale);
    doc.append(",");
    doc.append(scale);
    doc.append("],\"translate\":[");
    doc.append(translate_x);
    doc.append(",");
    doc.append(translate_y);
    doc.append(",0.0]},\"CityObjects\":{\"myterrain\":{\"geometry\":[{\"boundaries\":[");
    let ghost prefix1 = doc@;
    let nt = triangles.len();
    let mut k: usize = 0;
    while k < nt
        invariant
            nt == triangles@.len(),
            forall|w: int|
                0 <= w < nt ==> (#[trigger] triangles@[w]).a >= 1 && triangles@[w].b >= 1
                    && triangles@[w].c >= 1,
            0 <= k <= nt,
            doc@ == prefix1 + boundaries_text(triangles@, k as int),
        decreases nt - k,
    {
        let ghost before = doc@;
        if k > 0 {
            doc.append(",");
        }
        let t = triangles[k];
        doc.append("[[");
        let sa = usize_dec_string(t.a - 1);
        doc.append(sa.as_str());
        doc.append(",");
        let sb = usize_dec_string(t.b - 1);
        doc.append(sb.as_str());
        doc.append(",");
        let sc = usize_dec_string(t.c - 1);
        doc.append(sc.as_str());
        doc.append("]]");
        proof {
            assert(int_text(t.a - 1) == dec_digits(t.a - 1));
            assert(int_text(t.b - 1) == dec_digits(t.b - 1));
            assert(int_text(t.c - 1) == dec_digits(t.c - 1));
            if k == 0 {
                assert(doc@ =~= before + boundary_text(triangles@[0]));
            } else {
                assert(doc@ =~= before + ","@ + boundary_text(triangles@[k as int]));
            }
            assert(doc@ =~= prefix1 + boundaries_text(triangles@, k as int + 1));
        }
        k += 1;
    }
    doc.append("],\"lod\":\"1\",\"type\":\"CompositeSurface\"}],\"type\":\"TINRelief\"}},\"vertices\":[");
    let triples = quantized_triples(verts, digits);
    let ghost prefix2 = doc@;
    let n = triples.len();
    let mut i: usize = 0;
    while i < n
        invariant
            n == triples@.len(),
            n == verts@.len(),
            forall|w: int|
                0 <= w < n ==> {
                    &&& (#[trigger] triples@[w]).0 == quant_x(verts@, digits as nat, w)
                    &&& triples@[w].1 == quant_y(verts@, digits as nat, w)
                    &&& triples@[w].2 == quant_z(verts@, digits as nat, w)
                },
            0 <= i <= n,
            doc@ == prefix2 + triples_text(verts@, digits as nat, i as int),
        decreases n - i,
    {
        let ghost before = doc@;
        if i > 0 {
            doc.append(",");
        }
        let t = triples[i];
        append_triple(&mut doc, t);
        proof {
            if i == 0 {
                assert(doc@ =~= before + triple_text(
                    quant_x(verts@, digits as nat, 0),
                    quant_y(verts@, digits as nat, 0),
                    quant_z(verts@, digits as nat, 0),
                ));
            } else {
                assert(doc@ =~= before + ","@ + triple_text(
                    quant_x(verts@, digits as nat, i as int),
                    quant_y(verts@, digits as nat, i as int),
                    quant_z(verts@, digits as nat, i as int),
                ));
            }
            assert(doc@ =~= prefix2 + triples_text(verts@, digits as nat, i as int + 1));
        }
        i += 1;
    }
    doc.append("]}");
    proof {
        assert(doc@ =~= spec_cityjson_doc(
            verts@,
            triangles@,
            digits as nat,
            scale@,
            translate_x@,
            translate_y@,
        ));
    }
    doc
}

} // verus!
