//! The direct geometry writer: a feature-collection document carrying one
//! point feature per non-removed vertex from slot 1 on (its slot index and
//! z-coordinate as string-valued properties) and one unattributed
//! closed-ring polygon feature per finite triangle.

use vstd::prelude::*;

use crate::geom::{Triangle, VertexText};
use crate::numtext::{dec_digits, usize_dec_string};

verus! {

/// The text of the point feature of one vertex: its x/y as the geometry,
/// its slot index and z-coordinate as string-valued properties.
pub open spec fn point_feature_text(v: VertexText, id: int) -> Seq<char> {
    "{\"type\":\"Feature\",\"geometry\":{\"type\":\"Point\",\"coordinates\":["@ + v.x@ + ","@
        + v.y@ + "]},\"properties\":{\"id\":\""@ + dec_digits(id) + "\",\"z\":\""@ + v.z@
        + "\"}}"@
}

/// The text of the polygon feature of one triangle: a single ring through
/// its three vertices, closed by repeating the first, with no properties.
pub open spec fn polygon_feature_text(vs: Seq<VertexText>, t: Triangle) -> Seq<char> {
    "{\"type\":\"Feature\",\"geometry\":{\"type\":\"Polygon\",\"coordinates\":[[["@ + vs[t.a - 1].x@
        + ","@ + vs[t.a - 1].y@ + "],["@ + vs[t.b - 1].x@ + ","@ + vs[t.b - 1].y@ + "],["@ + vs[t.c
        - 1].x@ + ","@ + vs[t.c - 1].y@ + "],["@ + vs[t.a - 1].x@ + ","@ + vs[t.a - 1].y@
        + "]]]},\"properties\":null}"@
}

/// The feature texts of the non-removed vertices among the first `upto`
/// rows, in slot order (row `k` is slot `k + 1`); removed vertices and the
/// infinite vertex contribute no feature.
pub open spec fn point_list(vs: Seq<VertexText>, upto: int) -> Seq<Seq<char>>
    decreases upto,
{
    if upto <= 0 {
        Seq::empty()
    } else if vs[upto - 1].removed {
        point_list(vs, upto - 1)
    } else {
        point_list(vs, upto - 1).push(point_feature_text(vs[upto - 1], upto))
    }
}

/// The feature texts of the first `upto` triangles, in order.
pub open spec fn polygon_list(vs: Seq<VertexText>, ts: Seq<Triangle>, upto: int) -> Seq<Seq<char>>
    decreases upto,
{
    if upto <= 0 {
        Seq::empty()
    } else {
        polygon_list(vs, ts, upto - 1).push(polygon_feature_text(vs, ts[upto - 1]))
    }
}

/// All feature texts of the document: every point feature, then every
/// polygon feature.
pub open spec fn feature_list(vs: Seq<VertexText>, ts: Seq<Triangle>) -> Seq<Seq<char>> {
    point_list(vs, vs.len() as int) + polygon_list(vs, ts, ts.len() as int)
}

/// Comma-separated concatenation of feature texts.
pub open spec fn join_features(l: Seq<Seq<char>>) -> Seq<char>
    decreases l.len(),
{
    if l.len() == 0 {
        Seq::empty()
    } else if l.len() == 1 {
        l[0]
    } else {
        join_features(l.drop_last()) + ","@ + l.last()
    }
}

/// Appending one feature text extends the joined text with a comma
/// separator exactly when a feature already preceded it.
pub proof fn lemma_join_push(l: Seq<Seq<char>>, t: Seq<char>)
    ensures
        join_features(l.push(t)) == if l.len() == 0 {
            t
        } else {
            join_features(l) + ","@ + t
        },
{
    assert(l.push(t).drop_last() =~= l);
    assert(l.push(t).last() == t);
    if l.len() == 0 {
        assert(l.push(t)[0] == t);
    }
}

/// The full direct document: a feature collection of the point features
/// and the polygon features.
pub open spec fn spec_geojson_doc(vs: Seq<VertexText>, ts: Seq<Triangle>) -> Seq<char> {
    "{\"type\":\"FeatureCollection\",\"features\":["@ + join_features(feature_list(vs, ts)) + "]}"@
}

/// Appends one point feature.
fn append_point_feature(doc: &mut String, v: &VertexText, id: usize)
    ensures
        final(doc)@ == old(doc)@ + point_feature_text(*v, id as int),
{
    doc.append("{\"type\":\"Feature\",\"geometry\":{\"type\":\"Point\",\"coordinates\":[");
    doc.append(v.x.as_str());
    doc.append(",");
    doc.append(v.y.as_str());
    doc.append("]},\"properties\":{\"id\":\"");
    let ids = usize_dec_string(id);
    doc.append(ids.as_str());
    doc.append("\",\"z\":\"");
    doc.append(v.z.as_str());
    doc.append("\"}}");
    proof {
        assert(doc@ =~= old(doc)@ + point_feature_text(*v, id as int));
    }
}

/// Appends one polygon feature.
fn append_polygon_feature(doc: &mut String, verts: &Vec<VertexText>, t: Triangle)
    requires
        1 <= t.a <= verts@.len(),
        1 <= t.b <= verts@.len(),
        1 <= t.c <= verts@.len(),
    ensures
        final(doc)@ == old(doc)@ + polygon_feature_text(verts@, t),
{
    doc.append("{\"type\":\"Feature\",\"geometry\":{\"type\":\"Polygon\",\"coordinates\":[[[");
    doc.append(verts[t.a - 1].x.as_str());
    doc.append(",");
    doc.append(verts[t.a - 1].y.as_str());
    doc.append("],[");
    doc.append(verts[t.b - 1].x.as_str());
    doc.append(",");
    doc.append(verts[t.b - 1].y.as_str());
    doc.append("],[");
    doc.append(verts[t.c - 1].x.as_str());
    doc.append(",");
    doc.append(verts[t.c - 1].y.as_str());
    doc.append("],[");
    doc.append(verts[t.a - 1].x.as_str());
    doc.append(",");
    doc.append(verts[t.a - 1].y.as_str());
    doc.append("]]]},\"properties\":null}");
    proof {
        assert(doc@ =~= old(doc)@ + polygon_feature_text(verts@, t));
    }
}

/// Whether every triangle's three slot references point at rows the vertex
/// table has (all at least 1 and at most the row count).
pub fn direct_inputs_ok(verts: &Vec<VertexText>, triangles: &Vec<Triangle>) -> (b: bool)
    ensures
        b == (forall|k: int|
            0 <= k < triangles@.len() ==> {
                &&& 1 <= (#[trigger] triangles@[k]).a <= verts@.len()
                &&& 1 <= triangles@[k].b <= verts@.len()
                &&& 1 <= triangles@[k].c <= verts@.len()
            }),
{
    let n = verts.len();
    let nt = triangles.len();
    let mut j: usize = 0;
    while j < nt
        invariant
            n == verts@.len(),
            nt == triangles@.len(),
            0 <= j <= nt,
            forall|w: int|
                0 <= w < j ==> {
                    &&& 1 <= (#[trigger] triangles@[w]).a <= n
                    &&& 1 <= triangles@[w].b <= n
                    &&& 1 <= triangles@[w].c <= n
                },
        decreases nt - j,
    {
        let t = triangles[j];
        if t.a < 1 || t.a > n || t.b < 1 || t.b > n || t.c < 1 || t.c > n {
            return false;
        }
        j += 1;
    }
    true
}

/// Builds the direct document from the vertex rows (slots 1 on, x/y/z as
/// number text) and the finite triangles.
pub fn geojson_doc(verts: &Vec<VertexText>, triangles: &Vec<Triangle>) -> (r: String)
    requires
        forall|k: int|
            0 <= k < triangles@.len() ==> {
                &&& 1 <= (#[trigger] triangles@[k]).a <= verts@.len()
                &&& 1 <= triangles@[k].b <= verts@.len()
                &&& 1 <= triangles@[k].c <= verts@.len()
            },
    ensures
        r@ == spec_geojson_doc(verts@, triangles@),
{
    let mut doc = String::new();
    doc.append("{\"type\":\"FeatureCollection\",\"features\":[");
    let ghost header = doc@;
    let n = verts.len();
    let mut started = false;
    let mut k: usize = 0;
    while k < n
        invariant
            n == verts@.len(),
            0 <= k <= n,
            started == (point_list(verts@, k as int).len() > 0),
            doc@ == header + join_features(point_list(verts@, k as int)),
        decreases n - k,
    {
        let ghost before_list = point_list(verts@, k as int);
        if !verts[k].removed {
            if started {
                doc.append(",");
            }
            append_point_feature(&mut doc, &verts[k], k + 1);
            started = true;
            proof {
                lemma_join_push(before_list, point_feature_text(verts@[k as int], k as int + 1));
                assert(doc@ =~= header + join_features(point_list(verts@, k as int + 1)));
            }
        }
        k += 1;
    }
    let ghost points_done = point_list(verts@, n as int);
    proof {
        assert(points_done + polygon_list(verts@, triangles@, 0) =~= points_done);
    }
    let nt = triangles.len();
    let mut j: usize = 0;
    while j < nt
        invariant
            n == verts@.len(),
            nt == triangles@.len(),
            forall|w: int|
                0 <= w < nt ==> {
                    &&& 1 <= (#[trigger] triangles@[w]).a <= n
                    &&& 1 <= triangles@[w].b <= n
                    &&& 1 <= triangles@[w].c <= n
                },
            0 <= j <= nt,
            points_done == point_list(verts@, n as int),
            started == ((points_done + polygon_list(verts@, triangles@, j as int)).len() > 0),
            doc@ == header + join_features(
                points_done + polygon_list(verts@, triangles@, j as int),
            ),
        decreases nt - j,
    {
        let ghost before_list = points_done + polygon_list(verts@, triangles@, j as int);
        if started {
            doc.append(",");
        }
        let t = triangles[j];
        append_polygon_feature(&mut doc, verts, t);
        started = true;
        proof {
            lemma_join_push(before_list, polygon_feature_text(verts@, triangles@[j as int]));
            assert(points_done + polygon_list(verts@, triangles@, j as int + 1) =~= before_list.push(
                polygon_feature_text(verts@, triangles@[j as int]),
            ));
            assert(doc@ =~= header + join_features(
                points_done + polygon_list(verts@, triangles@, j as int + 1),
            ));
        }
        j += 1;
    }
    doc.append("]}");
    proof {
        assert(doc@ =~= spec_geojson_doc(verts@, triangles@));
    }
    doc
}

} // verus!
