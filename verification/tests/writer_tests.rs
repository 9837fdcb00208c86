use startinpy::direct_writer::{direct_inputs_ok, geojson_doc};
use startinpy::geom::{Triangle, VertexText};
use startinpy::quantized_writer::{
    cityjson_doc, placeholder_index, quant_inputs_ok, quantized_triples,
};

/// A vertex row whose coordinates are already rendered as text.
fn row(x: &str, y: &str, z: &str, removed: bool) -> VertexText {
    VertexText { x: x.to_string(), y: y.to_string(), z: z.to_string(), removed }
}

/// A vertex row rendered the way the exporting caller renders it: plain
/// JSON number text for the direct writer.
fn num_row(x: f64, y: f64, z: f64, removed: bool) -> VertexText {
    VertexText {
        x: serde_json::to_string(&x).unwrap(),
        y: serde_json::to_string(&y).unwrap(),
        z: z.to_string(),
        removed,
    }
}

/// A vertex row rendered for the quantized writer: fixed-point text with
/// `digits` fractional digits, x/y translated by the bounding-box minimum.
fn fixed_row(x: f64, y: f64, z: f64, minx: f64, miny: f64, digits: usize, removed: bool) -> VertexText {
    VertexText {
        x: format!("{:.*}", digits, x - minx),
        y: format!("{:.*}", digits, y - miny),
        z: format!("{:.*}", digits, z),
        removed,
    }
}

fn tri(a: usize, b: usize, c: usize) -> Triangle {
    Triangle { a, b, c }
}

#[test]
fn direct_writer_emits_three_points_and_one_closed_ring_polygon() {
    // One finite triangle over vertices 1, 2, 3 and no removed vertices.
    let verts = vec![
        num_row(0.0, 0.0, 1.5, false),
        num_row(10.0, 0.0, 2.5, false),
        num_row(0.0, 10.0, 3.5, false),
    ];
    let triangles = vec![tri(1, 2, 3)];
    assert!(direct_inputs_ok(&verts, &triangles));
    let doc = geojson_doc(&verts, &triangles);
    let fc: geojson::FeatureCollection = doc.parse().unwrap();
    assert_eq!(fc.features.len(), 4);
    let mut points = 0;
    let mut polygons = 0;
    for f in &fc.features {
        match &f.geometry.as_ref().unwrap().value {
            geojson::GeometryValue::Point { coordinates } => {
                points += 1;
                assert_eq!(coordinates.len(), 2);
            }
            geojson::GeometryValue::Polygon { coordinates } => {
                polygons += 1;
                assert_eq!(coordinates.len(), 1);
                let ring = &coordinates[0];
                assert_eq!(ring.len(), 4);
                assert_eq!(ring[0].as_slice(), ring[3].as_slice());
                assert_eq!(ring[0].as_slice(), &[0.0, 0.0]);
                assert_eq!(ring[1].as_slice(), &[10.0, 0.0]);
                assert_eq!(ring[2].as_slice(), &[0.0, 10.0]);
            }
            other => panic!("unexpected geometry {:?}", other),
        }
    }
    assert_eq!(points, 3);
    assert_eq!(polygons, 1);
}

#[test]
fn direct_writer_point_properties_carry_id_and_z_as_strings() {
    let verts = vec![num_row(1.25, 2.0, 11.5, false)];
    let doc = geojson_doc(&verts, &vec![]);
    let v: serde_json::Value = serde_json::from_str(&doc).unwrap();
    assert_eq!(v["type"], serde_json::Value::String("FeatureCollection".to_string()));
    let feats = v["features"].as_array().unwrap();
    assert_eq!(feats.len(), 1);
    let props = &feats[0]["properties"];
    assert_eq!(props["id"].as_str(), Some("1"));
    assert_eq!(props["z"].as_str(), Some("11.5"));
    let coords = feats[0]["geometry"]["coordinates"].as_array().unwrap();
    assert_eq!(coords[0].as_f64(), Some(1.25));
    assert_eq!(coords[1].as_f64(), Some(2.0));
}

#[test]
fn direct_writer_skips_removed_vertices_and_polygons_have_null_properties() {
    let verts = vec![
        num_row(0.0, 0.0, 1.0, false),
        num_row(5.0, 0.0, 2.0, true),
        num_row(0.0, 5.0, 3.0, false),
    ];
    let doc = geojson_doc(&verts, &vec![tri(1, 3, 3)]);
    let v: serde_json::Value = serde_json::from_str(&doc).unwrap();
    let feats = v["features"].as_array().unwrap();
    // Two point features (slot 2 is removed) and one polygon feature.
    assert_eq!(feats.len(), 3);
    assert_eq!(feats[0]["properties"]["id"].as_str(), Some("1"));
    assert_eq!(feats[1]["properties"]["id"].as_str(), Some("3"));
    assert!(feats[2]["properties"].is_null());
}

#[test]
fn direct_inputs_ok_rejects_out_of_table_triangles() {
    let verts = vec![num_row(0.0, 0.0, 1.0, false)];
    assert!(direct_inputs_ok(&verts, &vec![tri(1, 1, 1)]));
    assert!(!direct_inputs_ok(&verts, &vec![tri(0, 1, 1)]));
    assert!(!direct_inputs_ok(&verts, &vec![tri(1, 2, 1)]));
}

#[test]
fn quantized_writer_emits_the_formatted_digit_string_as_integer() {
    // A vertex at local x = 12.3456 after translation, with digits = 3:
    // the formatted text reads "12.346" and the emitted integer is 12346.
    let verts = vec![fixed_row(12.3456, 1.0, 2.0, 0.0, 0.0, 3, false)];
    assert!(quant_inputs_ok(&verts, &vec![], 3));
    let doc = cityjson_doc(&verts, &vec![], 3, "0.001", "0.0", "0.0");
    let v: serde_json::Value = serde_json::from_str(&doc).unwrap();
    assert_eq!(v["vertices"][0][0].as_i64(), Some(12346));
    assert_eq!(v["vertices"][0][1].as_i64(), Some(1000));
    assert_eq!(v["vertices"][0][2].as_i64(), Some(2000));
}

#[test]
fn quantized_writer_document_structure_matches_the_format() {
    let verts = vec![
        fixed_row(85000.0, 444003.2, 2.2, 85000.0, 444003.2, 3, false),
        fixed_row(85010.0, 444003.2, 3.2, 85000.0, 444003.2, 3, false),
        fixed_row(85000.0, 444013.2, 4.2, 85000.0, 444003.2, 3, false),
    ];
    let triangles = vec![tri(1, 2, 3)];
    let scale = serde_json::to_string(&0.001f64).unwrap();
    let tx = serde_json::to_string(&85000.0f64).unwrap();
    let ty = serde_json::to_string(&444003.2f64).unwrap();
    assert!(quant_inputs_ok(&verts, &triangles, 3));
    let doc = cityjson_doc(&verts, &triangles, 3, &scale, &tx, &ty);
    let v: serde_json::Value = serde_json::from_str(&doc).unwrap();
    assert_eq!(v["type"].as_str(), Some("CityJSON"));
    assert_eq!(v["version"].as_str(), Some("2.0"));
    assert_eq!(v["transform"]["scale"][0].as_f64(), Some(0.001));
    assert_eq!(v["transform"]["scale"][2].as_f64(), Some(0.001));
    assert_eq!(v["transform"]["translate"][0].as_f64(), Some(85000.0));
    assert_eq!(v["transform"]["translate"][1].as_f64(), Some(444003.2));
    assert_eq!(v["transform"]["translate"][2].as_f64(), Some(0.0));
    let terrain = &v["CityObjects"]["myterrain"];
    assert_eq!(terrain["type"].as_str(), Some("TINRelief"));
    let geometry = &terrain["geometry"][0];
    assert_eq!(geometry["type"].as_str(), Some("CompositeSurface"));
    assert_eq!(geometry["lod"].as_str(), Some("1"));
    // Slot references are shifted down by one against the emitted array.
    let boundary = &geometry["boundaries"][0][0];
    assert_eq!(boundary[0].as_i64(), Some(0));
    assert_eq!(boundary[1].as_i64(), Some(1));
    assert_eq!(boundary[2].as_i64(), Some(2));
    let vertices = v["vertices"].as_array().unwrap();
    assert_eq!(vertices.len(), 3);
    assert_eq!(vertices[0][0].as_i64(), Some(0));
    assert_eq!(vertices[1][0].as_i64(), Some(10000));
    assert_eq!(vertices[2][1].as_i64(), Some(10000));
    assert_eq!(vertices[1][2].as_i64(), Some(3200));
}

#[test]
fn removed_vertex_emits_the_placeholder_triple() {
    let verts = vec![
        row("1.000", "2.000", "3.000", false),
        row("7.000", "8.000", "9.000", true),
        row("4.000", "5.000", "6.000", false),
        row("0.000", "0.000", "0.000", true),
    ];
    assert_eq!(placeholder_index(&verts), Some(0));
    let triples = quantized_triples(&verts, 3);
    assert_eq!(triples.len(), 4);
    assert_eq!(triples[0], (1000, 2000, 3000));
    // Both removed slots carry the placeholder's coordinates, not their own.
    assert_eq!(triples[1], triples[0]);
    assert_eq!(triples[3], triples[0]);
    assert_eq!(triples[2], (4000, 5000, 6000));
}

#[test]
fn placeholder_is_the_first_non_removed_vertex() {
    let verts = vec![
        row("1.000", "1.000", "1.000", true),
        row("2.000", "2.000", "2.000", false),
        row("3.000", "3.000", "3.000", false),
    ];
    assert_eq!(placeholder_index(&verts), Some(1));
    let triples = quantized_triples(&verts, 3);
    assert_eq!(triples[0], (2000, 2000, 2000));
    let all_removed = vec![row("1.000", "1.000", "1.000", true)];
    assert_eq!(placeholder_index(&all_removed), None);
    assert!(!quant_inputs_ok(&all_removed, &vec![], 3));
}

#[test]
fn quantized_writer_is_idempotent_byte_for_byte() {
    let verts = vec![
        fixed_row(1.2345, 5.4321, -3.25, 1.0, 5.0, 3, false),
        fixed_row(2.5, 6.5, 0.125, 1.0, 5.0, 3, true),
        fixed_row(3.5, 7.5, 1.0, 1.0, 5.0, 3, false),
    ];
    let triangles = vec![tri(1, 2, 3)];
    let once = cityjson_doc(&verts, &triangles, 3, "0.001", "1.0", "5.0");
    let twice = cityjson_doc(&verts, &triangles, 3, "0.001", "1.0", "5.0");
    assert_eq!(once, twice);
    assert_eq!(once.as_bytes(), twice.as_bytes());
}

#[test]
fn quantized_writer_empty_terrain_has_empty_arrays() {
    let doc = cityjson_doc(&vec![], &vec![], 3, "0.001", "0.0", "0.0");
    let v: serde_json::Value = serde_json::from_str(&doc).unwrap();
    assert_eq!(v["vertices"].as_array().unwrap().len(), 0);
    assert_eq!(
        v["CityObjects"]["myterrain"]["geometry"][0]["boundaries"]
            .as_array()
            .unwrap()
            .len(),
        0
    );
}

#[test]
fn quant_inputs_ok_rejects_bad_coordinate_text_and_zero_slots() {
    let bad = vec![row("12.34", "0.000", "0.000", false)];
    assert!(!quant_inputs_ok(&bad, &vec![], 3));
    let good = vec![row("12.340", "0.000", "0.000", false)];
    assert!(quant_inputs_ok(&good, &vec![], 3));
    // A triangle referencing slot 0 cannot be shifted down.
    assert!(!quant_inputs_ok(&good, &vec![tri(0, 1, 1)], 3));
}
