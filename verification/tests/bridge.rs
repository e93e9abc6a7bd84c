//! End-to-end exercises of the bridge: registration, object lifecycle,
//! identity checks and conversion.

use ion::convert::{Conversion, ScriptValue};
use ion::descriptor::ClassDescriptor;
use ion::engine::{Engine, Slot};

#[derive(Clone, Copy, Debug, PartialEq)]
struct Point {
    x: f64,
    y: f64,
}

const POINT_KEY: u64 = 1;
const SHAPE_KEY: u64 = 2;
const CIRCLE_KEY: u64 = 3;

fn descriptor(name: &str, key: u64, parent: Option<u64>) -> ClassDescriptor {
    ClassDescriptor {
        name: String::from(name),
        type_key: key,
        parent,
        constructor_nargs: 2,
        functions: Vec::new(),
        properties: Vec::new(),
        static_functions: Vec::new(),
        static_properties: Vec::new(),
    }
}

fn point_engine() -> Engine<Point> {
    let mut e = Engine::new();
    e.register(descriptor("Point", POINT_KEY, None));
    e
}

#[test]
fn new_engine_is_empty() {
    let e: Engine<Point> = Engine::new();
    assert_eq!(e.classes.len(), 0);
    assert_eq!(e.objects.len(), 0);
    assert_eq!(e.registry.len(), 0);
}

#[test]
fn lookup_misses_before_registration() {
    let e: Engine<Point> = Engine::new();
    assert!(e.lookup(POINT_KEY).is_none());
}

#[test]
fn lookup_is_referentially_stable() {
    let mut e = point_engine();
    let first = e.lookup(POINT_KEY).unwrap();
    let second = e.lookup(POINT_KEY).unwrap();
    assert_eq!(first, second);
    // object operations leave every registration as it was
    let id = e.create(POINT_KEY, Point { x: 1.0, y: 2.0 });
    let _ = e.borrow(id, POINT_KEY).unwrap();
    let _ = e.take(id, POINT_KEY).unwrap();
    assert_eq!(e.lookup(POINT_KEY).unwrap(), first);
}

#[test]
fn register_returns_the_registered_info() {
    let mut e: Engine<Point> = Engine::new();
    let info = e.register(descriptor("Point", POINT_KEY, None));
    assert_eq!(e.lookup(POINT_KEY).unwrap(), info);
}

#[test]
fn reregistration_rebinds_to_a_fresh_class() {
    let mut e: Engine<Point> = Engine::new();
    let first = e.register(descriptor("Point", POINT_KEY, None));
    let second = e.register(descriptor("Point", POINT_KEY, None));
    assert_ne!(first, second);
    assert_eq!(e.lookup(POINT_KEY).unwrap(), second);
    // both installed classes stay in the class table
    assert_eq!(e.classes.len(), 2);
}

#[test]
fn create_take_round_trip() {
    let mut e = point_engine();
    let v = Point { x: 4.5, y: -0.5 };
    let id = e.create(POINT_KEY, v);
    let back = e.take(id, POINT_KEY).unwrap();
    assert_eq!(*back, v);
}

#[test]
fn take_is_at_most_once() {
    let mut e = point_engine();
    let id = e.create(POINT_KEY, Point { x: 1.0, y: 2.0 });
    assert!(e.take(id, POINT_KEY).is_ok());
    let again = e.take(id, POINT_KEY);
    assert!(again.is_err());
    assert_eq!(
        again.unwrap_err().message,
        "Could not get private value in Point. It may have been destroyed."
    );
    let borrowed = e.borrow(id, POINT_KEY);
    assert!(borrowed.is_err());
    assert_eq!(
        borrowed.unwrap_err().message,
        "Could not get private value in Point. It may have been destroyed."
    );
}

#[test]
fn borrow_lends_without_detaching() {
    let mut e = point_engine();
    let id = e.create(POINT_KEY, Point { x: 7.0, y: 8.0 });
    assert_eq!(*e.borrow(id, POINT_KEY).unwrap(), Point { x: 7.0, y: 8.0 });
    // borrowing many times keeps the value attached
    assert_eq!(*e.borrow(id, POINT_KEY).unwrap(), Point { x: 7.0, y: 8.0 });
    assert!(matches!(e.objects[id].slot, Slot::Attached(_)));
}

#[test]
fn point_lifecycle_scenario() {
    let mut e = point_engine();
    let p = e.create(POINT_KEY, Point { x: 1.0, y: 2.0 });
    assert_eq!(*e.borrow(p, POINT_KEY).unwrap(), Point { x: 1.0, y: 2.0 });
    let v = e.borrow_mut(p, POINT_KEY);
    v.x = 3.0;
    let taken = e.take(p, POINT_KEY).unwrap();
    assert_eq!(*taken, Point { x: 3.0, y: 2.0 });
    let err = e.borrow(p, POINT_KEY).unwrap_err();
    assert!(err.message.contains("Point"));
    assert_eq!(
        err.message,
        "Could not get private value in Point. It may have been destroyed."
    );
}

#[test]
fn instance_of_honours_the_chain() {
    let mut e: Engine<Point> = Engine::new();
    e.register(descriptor("Shape", SHAPE_KEY, None));
    e.register(descriptor("Circle", CIRCLE_KEY, Some(SHAPE_KEY)));
    e.register(descriptor("Point", POINT_KEY, None));
    let id = e.create(CIRCLE_KEY, Point { x: 0.0, y: 0.0 });
    assert!(e.instance_of(id, CIRCLE_KEY));
    assert!(e.instance_of(id, SHAPE_KEY));
    assert!(!e.instance_of(id, POINT_KEY));
    // an ancestor instance is not an instance of the subclass
    let base = e.create(SHAPE_KEY, Point { x: 0.0, y: 0.0 });
    assert!(!e.instance_of(base, CIRCLE_KEY));
    // an unregistered identity matches nothing
    assert!(!e.instance_of(id, 99));
}

#[test]
fn prototype_objects_are_linked_at_registration() {
    let mut e: Engine<Point> = Engine::new();
    let shape = e.register(descriptor("Shape", SHAPE_KEY, None));
    let circle = e.register(descriptor("Circle", CIRCLE_KEY, Some(SHAPE_KEY)));
    assert_eq!(e.objects[circle.prototype].proto, Some(shape.prototype));
    assert!(matches!(e.objects[circle.prototype].slot, Slot::Detached));
    assert!(matches!(e.objects[shape.constructor].slot, Slot::Detached));
}

#[test]
fn borrow_of_a_never_attached_slot_reports_missing() {
    let mut e = point_engine();
    let info = e.lookup(POINT_KEY).unwrap();
    // the class's prototype object never had a value attached
    let err = e.borrow(info.prototype, POINT_KEY).unwrap_err();
    assert_eq!(
        err.message,
        "Could not get private value in Point. It may have been destroyed."
    );
}

#[test]
fn conversion_of_non_objects_is_a_soft_failure() {
    let mut e = point_engine();
    let _ = e.create(POINT_KEY, Point { x: 1.0, y: 2.0 });
    for val in [
        ScriptValue::Undefined,
        ScriptValue::Null,
        ScriptValue::Boolean(true),
        ScriptValue::Integer(5),
        ScriptValue::Text(String::from("Point")),
    ] {
        match e.from_script_value(&val, POINT_KEY) {
            Ok(Conversion::Failure(m)) => assert_eq!(m, "Value is not an object"),
            other => panic!("expected a soft failure, got {:?}", other),
        }
    }
}

#[test]
fn conversion_of_wrong_class_is_a_soft_failure_naming_the_class() {
    let mut e: Engine<Point> = Engine::new();
    e.register(descriptor("Point", POINT_KEY, None));
    e.register(descriptor("Shape", SHAPE_KEY, None));
    let id = e.create(SHAPE_KEY, Point { x: 1.0, y: 2.0 });
    match e.from_script_value(&ScriptValue::ObjectRef(id), POINT_KEY) {
        Ok(Conversion::Failure(m)) => assert_eq!(m, "Object is not a Point"),
        other => panic!("expected a soft failure, got {:?}", other),
    }
    // the mismatch left the object's slot untouched
    match &e.objects[id].slot {
        Slot::Attached(v) => assert_eq!(*v, Point { x: 1.0, y: 2.0 }),
        Slot::Detached => panic!("slot was mutated on mismatch"),
    }
}

#[test]
fn conversion_of_an_instance_clones_the_value() {
    let mut e = point_engine();
    let id = e.create(POINT_KEY, Point { x: 6.0, y: 7.0 });
    match e.from_script_value(&ScriptValue::ObjectRef(id), POINT_KEY) {
        Ok(Conversion::Success(v)) => assert_eq!(v, Point { x: 6.0, y: 7.0 }),
        other => panic!("expected success, got {:?}", other),
    }
    // conversion clones: the attached value stays in place
    assert_eq!(*e.borrow(id, POINT_KEY).unwrap(), Point { x: 6.0, y: 7.0 });
}

#[test]
fn conversion_of_an_emptied_instance_is_a_hard_error() {
    let mut e = point_engine();
    let id = e.create(POINT_KEY, Point { x: 6.0, y: 7.0 });
    e.take(id, POINT_KEY).unwrap();
    match e.from_script_value(&ScriptValue::ObjectRef(id), POINT_KEY) {
        Err(err) => assert_eq!(
            err.message,
            "Could not get private value in Point. It may have been destroyed."
        ),
        other => panic!("expected a hard error, got {:?}", other),
    }
}

#[test]
fn conversion_of_a_subclass_instance_succeeds_for_the_ancestor() {
    let mut e: Engine<Point> = Engine::new();
    e.register(descriptor("Shape", SHAPE_KEY, None));
    e.register(descriptor("Circle", CIRCLE_KEY, Some(SHAPE_KEY)));
    let id = e.create(CIRCLE_KEY, Point { x: 2.0, y: 3.0 });
    match e.from_script_value(&ScriptValue::ObjectRef(id), SHAPE_KEY) {
        Ok(Conversion::Success(v)) => assert_eq!(v, Point { x: 2.0, y: 3.0 }),
        other => panic!("expected success, got {:?}", other),
    }
}
