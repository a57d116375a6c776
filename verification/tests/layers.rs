use rgis::geom_type::{GeomType, LINE_STRING, POINT, POLYGON};
use rgis::geometry::{Coord, Geometry, Polygon};
use rgis::layer::{Color, ColorSlot, LayerId, Metadata, PendingLayer};
use rgis::layers::{Layers, MoveDirection};
use rgis::transform::TransformError;

type Transform = fn(&Coord<f64>) -> Coord<f64>;

fn keep(c: &Coord<f64>) -> Coord<f64> {
    Coord { x: c.x, y: c.y }
}

fn shift_east(c: &Coord<f64>) -> Coord<f64> {
    Coord { x: c.x + 1000.0, y: c.y }
}

fn known(id: &str) -> bool {
    id == "EPSG:4326" || id == "LOCAL:EAST"
}

fn lookup(source: &str, target: &str) -> Result<Transform, TransformError> {
    if !known(source) {
        return Err(TransformError { identifier: source.to_string() });
    }
    if !known(target) {
        return Err(TransformError { identifier: target.to_string() });
    }
    if source == target {
        Ok(keep)
    } else {
        Ok(shift_east)
    }
}

fn point(x: f64, y: f64) -> Geometry<f64> {
    Geometry::Point(Coord { x, y })
}

fn square(min: f64, max: f64) -> Geometry<f64> {
    Geometry::Polygon(Polygon {
        exterior: vec![
            Coord { x: min, y: min },
            Coord { x: max, y: min },
            Coord { x: max, y: max },
            Coord { x: min, y: max },
            Coord { x: min, y: min },
        ],
        interiors: vec![],
    })
}

fn add(
    layers: &mut Layers<f64>,
    geometry: Geometry<f64>,
    name: &str,
    source: &str,
    target: &str,
) -> Result<LayerId, TransformError> {
    layers.add(geometry, name.to_string(), None, source, target, &lookup)
}

fn store_of(names: &[&str]) -> (Layers<f64>, Vec<LayerId>) {
    let mut layers: Layers<f64> = Layers::new();
    let mut ids = Vec::new();
    for (i, name) in names.iter().enumerate() {
        let id = layers
            .add(point(i as f64, 0.0), name.to_string(), None, "EPSG:4326", "EPSG:4326", &lookup)
            .unwrap();
        ids.push(id);
    }
    (layers, ids)
}

fn names(layers: &Layers<f64>) -> Vec<String> {
    layers.ids().iter().map(|id| layers.get(*id).unwrap().name.clone()).collect()
}

fn assert_index_matches_sequence(layers: &Layers<f64>) {
    assert!(layers.is_consistent());
    let ids = layers.ids();
    assert_eq!(ids.len(), layers.len());
    for (position, id) in ids.iter().enumerate() {
        let (layer, z_index) = layers.get_with_z_index(*id).unwrap();
        assert_eq!(z_index, position);
        assert_eq!(layer.id, *id);
        assert_eq!(layers.get(*id).unwrap().id, *id);
    }
    for (i, a) in ids.iter().enumerate() {
        for b in ids.iter().skip(i + 1) {
            assert_ne!(a, b);
        }
    }
}

#[test]
fn new_store_is_empty() {
    let layers: Layers<f64> = Layers::new();
    assert_eq!(layers.next_layer_id(), LayerId(0));
    assert_eq!(layers.len(), 0);
    assert!(layers.is_empty());
    assert!(layers.ids().is_empty());
    assert!(layers.get(LayerId(0)).is_none());
}

#[test]
fn add_appends_on_top_with_the_next_id() {
    let (layers, ids) = store_of(&["A", "B", "C"]);
    assert_eq!(ids, vec![LayerId(0), LayerId(1), LayerId(2)]);
    assert_eq!(layers.ids(), ids);
    assert_eq!(names(&layers), vec!["A", "B", "C"]);
    for (position, id) in ids.iter().enumerate() {
        assert_eq!(layers.get_with_z_index(*id).unwrap().1, position);
    }
}

#[test]
fn add_makes_a_visible_layer_with_all_its_fields() {
    let mut layers: Layers<f64> = Layers::new();
    let mut properties = Metadata::new();
    properties.insert("name".to_string(), serde_json::Value::from("harbour"));
    let id = layers
        .add(
            point(1.0, 2.0),
            "pier".to_string(),
            Some(properties.clone()),
            "EPSG:4326",
            "LOCAL:EAST",
            &lookup,
        )
        .unwrap();
    let layer = layers.get(id).unwrap();
    assert_eq!(layer.id, id);
    assert_eq!(layer.name, "pier");
    assert_eq!(layer.crs, "EPSG:4326");
    assert_eq!(layer.metadata, Some(properties));
    assert!(layer.visible);
    assert_eq!(layer.geom_type.bits(), POINT);
    assert_eq!(layer.geometry, point(1001.0, 2.0));
}

#[test]
fn add_reprojects_every_coordinate() {
    let mut layers: Layers<f64> = Layers::new();
    let line = Geometry::LineString(vec![
        Coord { x: 0.0, y: 0.0 },
        Coord { x: 1.0, y: 1.0 },
        Coord { x: 2.0, y: 4.0 },
    ]);
    let id = add(&mut layers, line, "l", "EPSG:4326", "LOCAL:EAST").unwrap();
    let layer = layers.get(id).unwrap();
    assert_eq!(
        layer.geometry,
        Geometry::LineString(vec![
            Coord { x: 1000.0, y: 0.0 },
            Coord { x: 1001.0, y: 1.0 },
            Coord { x: 1002.0, y: 4.0 },
        ])
    );
    assert_eq!(layer.geom_type.bits(), LINE_STRING);
}

#[test]
fn new_layer_is_black_and_filled_only_if_it_has_an_area() {
    let mut layers: Layers<f64> = Layers::new();
    let p = add(&mut layers, point(0.0, 0.0), "p", "EPSG:4326", "EPSG:4326").unwrap();
    let s = add(&mut layers, square(0.0, 1.0), "s", "EPSG:4326", "EPSG:4326").unwrap();
    let black = Color { red: 0, green: 0, blue: 0, alpha: 255 };
    let grey = Color { red: 128, green: 128, blue: 128, alpha: 128 };
    assert_eq!(layers.get(p).unwrap().color.stroke, black);
    assert_eq!(layers.get(p).unwrap().color.fill, None);
    assert_eq!(layers.get(s).unwrap().color.stroke, black);
    assert_eq!(layers.get(s).unwrap().color.fill, Some(grey));
    assert_eq!(layers.get(s).unwrap().geom_type.bits(), POLYGON);
    assert!(layers.get(s).unwrap().geom_type.has_fill());
    assert!(!layers.get(p).unwrap().geom_type.has_fill());
}

#[test]
fn add_with_unrecognized_target_returns_error_and_changes_nothing() {
    let (mut layers, ids) = store_of(&["A", "B"]);
    let result = add(&mut layers, point(5.0, 5.0), "X", "EPSG:4326", "EPSG:0");
    assert_eq!(result, Err(TransformError { identifier: "EPSG:0".to_string() }));
    assert_eq!(layers.len(), 2);
    assert_eq!(layers.ids(), ids);
    assert_eq!(names(&layers), vec!["A", "B"]);
    assert_eq!(layers.get(ids[0]).unwrap().geometry, point(0.0, 0.0));
    assert_eq!(layers.get(ids[1]).unwrap().geometry, point(1.0, 0.0));
    assert_index_matches_sequence(&layers);
}

#[test]
fn add_with_unrecognized_source_returns_error_and_changes_nothing() {
    let mut layers: Layers<f64> = Layers::new();
    let result = add(&mut layers, point(5.0, 5.0), "X", "nowhere", "EPSG:4326");
    assert_eq!(result, Err(TransformError { identifier: "nowhere".to_string() }));
    assert!(layers.is_empty());
}

#[test]
fn failed_add_does_not_use_up_an_id() {
    let mut layers: Layers<f64> = Layers::new();
    let a = add(&mut layers, point(0.0, 0.0), "A", "EPSG:4326", "EPSG:4326").unwrap();
    assert!(add(&mut layers, point(0.0, 0.0), "X", "EPSG:4326", "EPSG:0").is_err());
    let b = add(&mut layers, point(0.0, 0.0), "B", "EPSG:4326", "EPSG:4326").unwrap();
    assert_eq!(a, LayerId(0));
    assert_eq!(b, LayerId(1));
}

#[test]
fn get_of_a_stale_id_is_none() {
    let (mut layers, ids) = store_of(&["A", "B"]);
    assert!(layers.get(LayerId(7)).is_none());
    assert!(layers.get_mut(LayerId(7)).is_none());
    assert!(layers.get_with_z_index(LayerId(7)).is_none());
    layers.remove(ids[0]);
    assert!(layers.get(ids[0]).is_none());
    assert!(layers.get_mut(ids[0]).is_none());
    assert!(layers.get_with_z_index(ids[0]).is_none());
}

#[test]
fn get_mut_changes_the_layer_in_place() {
    let (mut layers, ids) = store_of(&["A", "B", "C"]);
    {
        let layer = layers.get_mut(ids[1]).unwrap();
        layer.name = "renamed".to_string();
        layer.visible = false;
    }
    assert_eq!(names(&layers), vec!["A", "renamed", "C"]);
    assert!(!layers.get(ids[1]).unwrap().visible);
    assert!(layers.get(ids[0]).unwrap().visible);
    assert_index_matches_sequence(&layers);
}

#[test]
fn remove_middle_layer_shifts_the_layers_above() {
    let (mut layers, ids) = store_of(&["A", "B", "C"]);
    let removed = layers.remove(ids[1]).unwrap();
    assert_eq!(removed.id, ids[1]);
    assert_eq!(removed.name, "B");
    assert_eq!(names(&layers), vec!["A", "C"]);
    assert_eq!(layers.ids(), vec![ids[0], ids[2]]);
    let (layer, position) = layers.get_with_z_index(ids[2]).unwrap();
    assert_eq!(layer.name, "C");
    assert_eq!(position, 1);
    assert_eq!(layers.get_with_z_index(ids[0]).unwrap().1, 0);
    assert_index_matches_sequence(&layers);
}

#[test]
fn remove_first_and_last() {
    let (mut layers, ids) = store_of(&["A", "B", "C", "D"]);
    layers.remove(ids[0]);
    assert_eq!(names(&layers), vec!["B", "C", "D"]);
    assert_index_matches_sequence(&layers);
    layers.remove(ids[3]);
    assert_eq!(names(&layers), vec!["B", "C"]);
    assert_index_matches_sequence(&layers);
    layers.remove(ids[1]);
    layers.remove(ids[2]);
    assert!(layers.is_empty());
}

#[test]
fn remove_of_an_absent_id_changes_nothing() {
    let (mut layers, ids) = store_of(&["A", "B"]);
    assert!(layers.remove(LayerId(9)).is_none());
    assert_eq!(layers.ids(), ids);
    assert!(layers.remove(ids[0]).is_some());
    assert!(layers.remove(ids[0]).is_none());
    assert_eq!(layers.ids(), vec![ids[1]]);
}

#[test]
fn ids_are_not_reused_after_removal() {
    let (mut layers, ids) = store_of(&["A", "B"]);
    layers.remove(ids[1]);
    layers.remove(ids[0]);
    let c = add(&mut layers, point(0.0, 0.0), "C", "EPSG:4326", "EPSG:4326").unwrap();
    assert_eq!(c, LayerId(2));
    assert_eq!(layers.next_layer_id(), LayerId(3));
    assert_eq!(layers.get_with_z_index(c).unwrap().1, 0);
}

#[test]
fn move_up_exchanges_with_the_layer_above() {
    let (mut layers, ids) = store_of(&["A", "B", "C"]);
    let other = layers.move_layer(ids[0], MoveDirection::Up);
    assert_eq!(other, Some(ids[1]));
    assert_eq!(names(&layers), vec!["B", "A", "C"]);
    assert_eq!(layers.get_with_z_index(ids[0]).unwrap().1, 1);
    assert_eq!(layers.get_with_z_index(ids[1]).unwrap().1, 0);
    assert_eq!(layers.get_with_z_index(ids[2]).unwrap().1, 2);
    assert_index_matches_sequence(&layers);
}

#[test]
fn move_down_exchanges_with_the_layer_below() {
    let (mut layers, ids) = store_of(&["A", "B", "C"]);
    let other = layers.move_layer(ids[2], MoveDirection::Down);
    assert_eq!(other, Some(ids[1]));
    assert_eq!(names(&layers), vec!["A", "C", "B"]);
    assert_index_matches_sequence(&layers);
}

#[test]
fn move_up_then_down_restores_the_order() {
    for count in 2..6usize {
        for position in 0..count - 1 {
            let labels: Vec<String> = (0..count).map(|i| format!("L{}", i)).collect();
            let refs: Vec<&str> = labels.iter().map(|s| s.as_str()).collect();
            let (mut layers, ids) = store_of(&refs);
            assert!(layers.move_layer(ids[position], MoveDirection::Up).is_some());
            assert_ne!(layers.ids(), ids);
            assert!(layers.move_layer(ids[position], MoveDirection::Down).is_some());
            assert_eq!(layers.ids(), ids);
            assert_eq!(names(&layers), labels);
            assert_index_matches_sequence(&layers);
        }
    }
}

#[test]
fn move_down_then_up_restores_the_order() {
    let (mut layers, ids) = store_of(&["A", "B", "C"]);
    layers.move_layer(ids[2], MoveDirection::Down);
    layers.move_layer(ids[2], MoveDirection::Up);
    assert_eq!(layers.ids(), ids);
}

#[test]
fn move_at_a_boundary_changes_nothing() {
    let (mut layers, ids) = store_of(&["A", "B", "C"]);
    assert_eq!(layers.move_layer(ids[2], MoveDirection::Up), None);
    assert_eq!(layers.ids(), ids);
    assert_eq!(layers.move_layer(ids[0], MoveDirection::Down), None);
    assert_eq!(layers.ids(), ids);
    assert_index_matches_sequence(&layers);
}

#[test]
fn move_in_a_store_of_one_changes_nothing() {
    let (mut layers, ids) = store_of(&["A"]);
    assert_eq!(layers.move_layer(ids[0], MoveDirection::Up), None);
    assert_eq!(layers.move_layer(ids[0], MoveDirection::Down), None);
    assert_eq!(layers.ids(), ids);
}

#[test]
fn move_of_an_absent_id_changes_nothing() {
    let (mut layers, ids) = store_of(&["A", "B"]);
    assert_eq!(layers.move_layer(LayerId(5), MoveDirection::Up), None);
    assert_eq!(layers.move_layer(LayerId(5), MoveDirection::Down), None);
    assert_eq!(layers.ids(), ids);
}

#[test]
fn up_at_the_top_then_down_does_move_the_layer() {
    let (mut layers, ids) = store_of(&["A", "B"]);
    assert_eq!(layers.move_layer(ids[1], MoveDirection::Up), None);
    assert_eq!(layers.move_layer(ids[1], MoveDirection::Down), Some(ids[0]));
    assert_eq!(layers.ids(), vec![ids[1], ids[0]]);
}

#[test]
fn index_matches_sequence_after_every_operation() {
    let mut layers: Layers<f64> = Layers::new();
    assert_index_matches_sequence(&layers);
    let mut ids = Vec::new();
    for i in 0..6 {
        let id = layers
            .add(point(i as f64, 0.0), format!("L{}", i), None, "EPSG:4326", "LOCAL:EAST", &lookup)
            .unwrap();
        ids.push(id);
        assert_index_matches_sequence(&layers);
    }
    layers.move_layer(ids[0], MoveDirection::Up);
    assert_index_matches_sequence(&layers);
    layers.move_layer(ids[0], MoveDirection::Up);
    assert_index_matches_sequence(&layers);
    layers.remove(ids[3]);
    assert_index_matches_sequence(&layers);
    layers.move_layer(ids[5], MoveDirection::Down);
    assert_index_matches_sequence(&layers);
    layers.move_layer(ids[5], MoveDirection::Up);
    assert_index_matches_sequence(&layers);
    layers.remove(ids[0]);
    assert_index_matches_sequence(&layers);
    let _ = add(&mut layers, point(0.0, 0.0), "bad", "?", "EPSG:4326");
    assert_index_matches_sequence(&layers);
    let id = add(&mut layers, point(9.0, 9.0), "L6", "EPSG:4326", "EPSG:4326").unwrap();
    assert_eq!(id, LayerId(6));
    assert_index_matches_sequence(&layers);
    layers.move_layer(id, MoveDirection::Down);
    assert_index_matches_sequence(&layers);
    layers.remove(ids[1]);
    layers.remove(ids[2]);
    assert_index_matches_sequence(&layers);
    assert_eq!(names(&layers), vec!["L4", "L6", "L5"]);
}

#[test]
fn toggle_visibility_flips_and_reports() {
    let (mut layers, ids) = store_of(&["A", "B"]);
    assert_eq!(layers.toggle_visibility(ids[0]), Some(false));
    assert!(!layers.get(ids[0]).unwrap().visible);
    assert!(layers.get(ids[1]).unwrap().visible);
    assert_eq!(layers.toggle_visibility(ids[0]), Some(true));
    assert!(layers.get(ids[0]).unwrap().visible);
    assert_eq!(layers.toggle_visibility(LayerId(4)), None);
    assert_eq!(layers.ids(), ids);
}

#[test]
fn set_color_changes_one_slot() {
    let mut layers: Layers<f64> = Layers::new();
    let id = add(&mut layers, square(0.0, 1.0), "s", "EPSG:4326", "EPSG:4326").unwrap();
    let red = Color { red: 255, green: 0, blue: 0, alpha: 255 };
    let blue = Color { red: 0, green: 0, blue: 255, alpha: 40 };
    let before = layers.get(id).unwrap().color;
    assert!(layers.set_color(id, ColorSlot::Stroke, red));
    assert_eq!(layers.get(id).unwrap().color.stroke, red);
    assert_eq!(layers.get(id).unwrap().color.fill, before.fill);
    assert!(layers.set_color(id, ColorSlot::Fill, blue));
    assert_eq!(layers.get(id).unwrap().color.stroke, red);
    assert_eq!(layers.get(id).unwrap().color.fill, Some(blue));
    assert!(!layers.set_color(LayerId(3), ColorSlot::Fill, blue));
}

#[test]
fn insert_batch_hands_out_consecutive_ids() {
    let (mut layers, _) = store_of(&["A"]);
    let batch = vec![
        PendingLayer {
            name: "x".to_string(),
            geometry: point(1.0, 1.0),
            metadata: None,
            crs: "c".to_string(),
        },
        PendingLayer {
            name: "y".to_string(),
            geometry: square(0.0, 2.0),
            metadata: None,
            crs: "c".to_string(),
        },
    ];
    let ids = layers.insert_batch(batch);
    assert_eq!(ids, vec![LayerId(1), LayerId(2)]);
    assert_eq!(names(&layers), vec!["A", "x", "y"]);
    assert_eq!(layers.get(LayerId(2)).unwrap().geom_type.bits(), POLYGON);
    assert_eq!(layers.insert_batch(Vec::new()), Vec::<LayerId>::new());
    assert_eq!(layers.len(), 3);
    assert_index_matches_sequence(&layers);
}

#[test]
fn layer_at_follows_the_drawing_order() {
    let (mut layers, ids) = store_of(&["A", "B", "C"]);
    assert_eq!(layers.layer_at(0).unwrap().id, ids[0]);
    assert_eq!(layers.layer_at(2).unwrap().id, ids[2]);
    assert!(layers.layer_at(3).is_none());
    layers.move_layer(ids[2], MoveDirection::Down);
    assert_eq!(layers.layer_at(1).unwrap().id, ids[2]);
    assert_eq!(layers.layer_at(2).unwrap().id, ids[1]);
    let empty: Layers<f64> = Layers::new();
    assert!(empty.layer_at(0).is_none());
}

#[test]
fn many_operations_agree_with_a_plain_list() {
    let mut layers: Layers<f64> = Layers::new();
    let mut model: Vec<LayerId> = Vec::new();
    let mut handed_out: Vec<LayerId> = Vec::new();
    let mut state: u64 = 0x2545F4914F6CDD1D;
    let mut next = move || {
        state ^= state << 13;
        state ^= state >> 7;
        state ^= state << 17;
        state
    };
    for step in 0..3000 {
        let choice = next() % 5;
        let pick = if handed_out.is_empty() {
            LayerId(0)
        } else {
            handed_out[(next() % handed_out.len() as u64) as usize]
        };
        match choice {
            0 | 1 => {
                let target = if next() % 7 == 0 { "unknown" } else { "EPSG:4326" };
                let name = format!("L{}", step);
                let result = add(&mut layers, point(step as f64, 0.0), &name, "EPSG:4326", target);
                if target == "unknown" {
                    assert!(result.is_err());
                } else {
                    let id = result.unwrap();
                    assert_eq!(id, LayerId(handed_out.len() as u64));
                    handed_out.push(id);
                    model.push(id);
                }
            }
            2 => {
                let expected = model.iter().position(|id| *id == pick);
                let removed = layers.remove(pick);
                assert_eq!(removed.map(|layer| layer.id), expected.map(|_| pick));
                if let Some(at) = expected {
                    model.remove(at);
                }
            }
            3 => {
                let other = layers.move_layer(pick, MoveDirection::Up);
                match model.iter().position(|id| *id == pick) {
                    Some(at) if at + 1 < model.len() => {
                        assert_eq!(other, Some(model[at + 1]));
                        model.swap(at, at + 1);
                    }
                    _ => assert_eq!(other, None),
                }
            }
            _ => {
                let other = layers.move_layer(pick, MoveDirection::Down);
                match model.iter().position(|id| *id == pick) {
                    Some(at) if at >= 1 => {
                        assert_eq!(other, Some(model[at - 1]));
                        model.swap(at, at - 1);
                    }
                    _ => assert_eq!(other, None),
                }
            }
        }
        assert_eq!(layers.ids(), model);
        if step % 50 == 0 {
            assert_index_matches_sequence(&layers);
        }
    }
    assert_index_matches_sequence(&layers);
}

#[test]
fn is_consistent_sees_a_layer_under_a_wrong_identifier() {
    let (mut layers, ids) = store_of(&["A", "B"]);
    assert!(layers.is_consistent());
    layers.get_mut(ids[0]).unwrap().id = LayerId(40);
    assert!(!layers.is_consistent());
    layers.get_mut(ids[0]).unwrap().id = ids[0];
    assert!(layers.is_consistent());
    layers.get_mut(ids[0]).unwrap().id = ids[1];
    assert!(!layers.is_consistent());
}

#[test]
fn is_consistent_sees_a_wrong_kind_summary() {
    let (mut layers, ids) = store_of(&["A"]);
    layers.get_mut(ids[0]).unwrap().geometry = square(0.0, 1.0);
    assert!(!layers.is_consistent());
    layers.get_mut(ids[0]).unwrap().geom_type = GeomType::from_bits_truncate(POLYGON);
    assert!(layers.is_consistent());
}

#[test]
fn is_consistent_holds_for_the_empty_store() {
    let layers: Layers<f64> = Layers::new();
    assert!(layers.is_consistent());
}
