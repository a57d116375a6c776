use rgis::events::{
    deliver, drain, handle_create_layer_event, handle_delete_layer_event, handle_loaded_layers,
    handle_move_layer_event, handle_toggle_layer_visibility_event, handle_update_color_event,
    Drained, JobOutcome, Notification, Sent,
};
use rgis::geometry::{Coord, Geometry};
use rgis::layer::{Color, ColorSlot, LayerId, PendingLayer};
use rgis::layers::{Layers, MoveDirection};
use rgis::loader::JobError;
use rgis::transform::TransformError;

type Transform = fn(&Coord<f64>) -> Coord<f64>;

fn keep(c: &Coord<f64>) -> Coord<f64> {
    Coord { x: c.x, y: c.y }
}

fn lookup(source: &str, target: &str) -> Result<Transform, TransformError> {
    if source != "EPSG:4326" {
        Err(TransformError { identifier: source.to_string() })
    } else if target != "EPSG:4326" {
        Err(TransformError { identifier: target.to_string() })
    } else {
        Ok(keep)
    }
}

fn pending(name: &str) -> PendingLayer<f64> {
    PendingLayer {
        name: name.to_string(),
        geometry: Geometry::Point(Coord { x: 0.0, y: 0.0 }),
        metadata: None,
        crs: "EPSG:4326".to_string(),
    }
}

fn store_of(names: &[&str]) -> (Layers<f64>, Vec<LayerId>) {
    let mut layers: Layers<f64> = Layers::new();
    let ids = layers.insert_batch(names.iter().map(|n| pending(n)).collect());
    (layers, ids)
}

#[test]
fn toggling_announces_the_new_state() {
    let (mut layers, ids) = store_of(&["A"]);
    assert_eq!(
        handle_toggle_layer_visibility_event(&mut layers, ids[0]),
        Some(Notification::LayerBecameHidden(ids[0]))
    );
    assert!(!layers.get(ids[0]).unwrap().visible);
    assert_eq!(
        handle_toggle_layer_visibility_event(&mut layers, ids[0]),
        Some(Notification::LayerBecameVisible(ids[0]))
    );
    assert!(layers.get(ids[0]).unwrap().visible);
}

#[test]
fn toggling_a_stale_id_announces_nothing() {
    let (mut layers, ids) = store_of(&["A"]);
    assert_eq!(handle_toggle_layer_visibility_event(&mut layers, LayerId(8)), None);
    assert!(layers.get(ids[0]).unwrap().visible);
}

#[test]
fn recolouring_announces_the_update() {
    let (mut layers, ids) = store_of(&["A"]);
    let green = Color { red: 0, green: 200, blue: 0, alpha: 255 };
    assert_eq!(
        handle_update_color_event(&mut layers, ids[0], ColorSlot::Stroke, green),
        Some(Notification::LayerColorUpdated(ids[0]))
    );
    assert_eq!(layers.get(ids[0]).unwrap().color.stroke, green);
    assert_eq!(handle_update_color_event(&mut layers, LayerId(8), ColorSlot::Fill, green), None);
}

#[test]
fn deleting_announces_the_deletion_even_for_a_stale_id() {
    let (mut layers, ids) = store_of(&["A", "B"]);
    assert_eq!(
        handle_delete_layer_event(&mut layers, ids[0]),
        Notification::LayerDeleted(ids[0])
    );
    assert_eq!(layers.ids(), vec![ids[1]]);
    assert_eq!(
        handle_delete_layer_event(&mut layers, ids[0]),
        Notification::LayerDeleted(ids[0])
    );
    assert_eq!(layers.ids(), vec![ids[1]]);
}

#[test]
fn moving_announces_both_layers() {
    let (mut layers, ids) = store_of(&["A", "B", "C"]);
    assert_eq!(
        handle_move_layer_event(&mut layers, ids[0], MoveDirection::Up),
        vec![Notification::LayerZIndexUpdated(ids[0]), Notification::LayerZIndexUpdated(ids[1])]
    );
    assert_eq!(layers.ids(), vec![ids[1], ids[0], ids[2]]);
    assert_eq!(
        handle_move_layer_event(&mut layers, ids[0], MoveDirection::Down),
        vec![Notification::LayerZIndexUpdated(ids[0]), Notification::LayerZIndexUpdated(ids[1])]
    );
    assert_eq!(layers.ids(), ids);
}

#[test]
fn a_move_that_moves_nothing_announces_nothing() {
    let (mut layers, ids) = store_of(&["A", "B"]);
    assert!(handle_move_layer_event(&mut layers, ids[1], MoveDirection::Up).is_empty());
    assert!(handle_move_layer_event(&mut layers, ids[0], MoveDirection::Down).is_empty());
    assert!(handle_move_layer_event(&mut layers, LayerId(9), MoveDirection::Down).is_empty());
    assert_eq!(layers.ids(), ids);
}

#[test]
fn creating_announces_the_new_layer() {
    let mut layers: Layers<f64> = Layers::new();
    let note = handle_create_layer_event(
        &mut layers,
        Geometry::Point(Coord { x: 1.0, y: 2.0 }),
        "made".to_string(),
        "EPSG:4326",
        "EPSG:4326",
        &lookup,
    );
    assert_eq!(note, Ok(Notification::LayerCreated(LayerId(0))));
    assert_eq!(layers.get(LayerId(0)).unwrap().name, "made");
    assert_eq!(layers.get(LayerId(0)).unwrap().metadata, None);
}

#[test]
fn creating_with_an_unknown_system_announces_nothing() {
    let mut layers: Layers<f64> = Layers::new();
    let note = handle_create_layer_event(
        &mut layers,
        Geometry::Point(Coord { x: 1.0, y: 2.0 }),
        "made".to_string(),
        "EPSG:4326",
        "EPSG:1",
        &lookup,
    );
    assert_eq!(note, Err(TransformError { identifier: "EPSG:1".to_string() }));
    assert!(layers.is_empty());
}

#[test]
fn delivering_a_batch_creates_its_layers_in_order() {
    let (mut layers, _) = store_of(&["A"]);
    let outcome = deliver(&mut layers, Ok(vec![pending("x"), pending("y"), pending("z")]));
    assert_eq!(outcome, Ok(vec![LayerId(1), LayerId(2), LayerId(3)]));
    assert_eq!(layers.len(), 4);
    assert_eq!(layers.get(LayerId(3)).unwrap().name, "z");
    assert_eq!(layers.get_with_z_index(LayerId(2)).unwrap().1, 2);
    assert_eq!(
        handle_loaded_layers(&outcome),
        vec![
            Notification::LayerCreated(LayerId(1)),
            Notification::LayerCreated(LayerId(2)),
            Notification::LayerCreated(LayerId(3)),
        ]
    );
}

#[test]
fn delivering_an_empty_batch_is_a_success_without_layers() {
    let mut layers: Layers<f64> = Layers::new();
    let outcome = deliver(&mut layers, Ok(Vec::new()));
    assert_eq!(outcome, Ok(Vec::new()));
    assert!(handle_loaded_layers(&outcome).is_empty());
    assert!(layers.is_empty());
}

#[test]
fn delivering_a_parse_failure_changes_nothing() {
    let (mut layers, ids) = store_of(&["A"]);
    let failure = JobError::Parse { message: "expected value at line 1 column 1".to_string() };
    let outcome = deliver(&mut layers, Err(failure.clone()));
    assert_eq!(outcome, Err(failure));
    assert_eq!(layers.ids(), ids);
    assert!(handle_loaded_layers(&outcome).is_empty());
}

#[test]
fn delivering_a_read_failure_changes_nothing() {
    let mut layers: Layers<f64> = Layers::new();
    let failure = JobError::Io { message: "no such file".to_string() };
    let outcome: JobOutcome = deliver(&mut layers, Err(failure.clone()));
    assert_eq!(outcome, Err(failure));
    assert!(layers.is_empty());
}

#[test]
fn batches_are_announced_in_the_order_they_are_delivered() {
    let mut layers: Layers<f64> = Layers::new();
    let mut notes = Vec::new();
    for batch in vec![vec![pending("a"), pending("b")], vec![], vec![pending("c")]] {
        let outcome = deliver(&mut layers, Ok(batch));
        notes.extend(handle_loaded_layers(&outcome));
    }
    assert_eq!(
        notes,
        vec![
            Notification::LayerCreated(LayerId(0)),
            Notification::LayerCreated(LayerId(1)),
            Notification::LayerCreated(LayerId(2)),
        ]
    );
}

#[test]
fn draining_takes_batches_and_failures_in_the_order_of_arrival() {
    let (mut layers, _) = store_of(&["A"]);
    let parse = JobError::Parse { message: "bad".to_string() };
    let io = JobError::Io { message: "gone".to_string() };
    let received: Vec<Sent<f64>> = vec![
        Ok(vec![pending("b"), pending("c")]),
        Err(parse.clone()),
        Ok(vec![]),
        Ok(vec![pending("d")]),
        Err(io.clone()),
    ];
    let drained = drain(&mut layers, received);
    assert_eq!(
        drained,
        Drained {
            notifications: vec![
                Notification::LayerCreated(LayerId(1)),
                Notification::LayerCreated(LayerId(2)),
                Notification::LayerCreated(LayerId(3)),
            ],
            failures: vec![parse, io],
        }
    );
    assert_eq!(layers.ids(), vec![LayerId(0), LayerId(1), LayerId(2), LayerId(3)]);
    let names: Vec<&str> =
        layers.ids().iter().map(|id| layers.get(*id).unwrap().name.as_str()).collect();
    assert_eq!(names, vec!["A", "b", "c", "d"]);
    for (position, id) in layers.ids().iter().enumerate() {
        assert_eq!(layers.get_with_z_index(*id).unwrap().1, position);
    }
}

#[test]
fn draining_nothing_changes_nothing() {
    let (mut layers, ids) = store_of(&["A"]);
    let drained = drain(&mut layers, Vec::new());
    assert_eq!(drained, Drained { notifications: vec![], failures: vec![] });
    assert_eq!(layers.ids(), ids);
}
