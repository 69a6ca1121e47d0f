//! Tests of the schema mapping details: the packed version integer, the
//! enum wire-case conventions, the numeric-keyed connector map, and the
//! decimal token codec.

use factorio_bp::enums::{
    CircuitConnectorId, CompareType, ConditionType, FilterMode, InfinityFilterMode, IoPriority,
    IoType, SignalType,
};
use factorio_bp::error::BpError;
use factorio_bp::json::{parse_u64, u64_to_dec};
use factorio_bp::pipeline::parse_document;
use factorio_bp::version::Version;

#[test]
fn version_unpack_known_value() {
    // big-endian bytes 01 00 01 00 3d 00 00 00: little-endian pairs 1, 1, 61, 0
    let v = Version::unpack(72058694572965888);
    assert_eq!(v, Version { major: 1, minor: 1, patch: 61, developer: 0 });
    assert_eq!(v.pack(), 72058694572965888);
}

#[test]
fn version_pack_unpack_round_trip() {
    let v = Version { major: 65535, minor: 0, patch: 17, developer: 3 };
    assert_eq!(Version::unpack(v.pack()), v);
    assert_eq!(Version::from(v.pack()), v);
}

#[test]
fn enum_wire_names_lowercase() {
    assert_eq!(SignalType::Virtual.wire_name(), "virtual");
    assert_eq!(SignalType::from_wire("fluid").unwrap(), SignalType::Fluid);
    assert_eq!(IoType::Input.wire_name(), "input");
    assert_eq!(IoPriority::from_wire("left").unwrap(), IoPriority::Left);
    assert_eq!(FilterMode::Blacklist.wire_name(), "blacklist");
    assert_eq!(CompareType::And.wire_name(), "and");
}

#[test]
fn enum_wire_names_snake_case() {
    assert_eq!(ConditionType::PassengerNotPresent.wire_name(), "passenger_not_present");
    assert_eq!(ConditionType::from_wire("item_count").unwrap(), ConditionType::ItemCount);
    assert_eq!(ConditionType::from_wire("inactivity").unwrap(), ConditionType::Inactivity);
}

#[test]
fn enum_wire_names_kebab_case() {
    assert_eq!(InfinityFilterMode::AtLeast.wire_name(), "at-least");
    assert_eq!(InfinityFilterMode::from_wire("at-most").unwrap(), InfinityFilterMode::AtMost);
    assert_eq!(InfinityFilterMode::from_wire("exactly").unwrap(), InfinityFilterMode::Exactly);
}

#[test]
fn enum_wire_names_bare_variants() {
    assert_eq!(CircuitConnectorId::ConstantCombinator.wire_name(), "ConstantCombinator");
    assert_eq!(
        CircuitConnectorId::from_wire("OffshorePump").unwrap(),
        CircuitConnectorId::OffshorePump
    );
}

#[test]
fn unknown_enum_value_is_schema_error() {
    match SignalType::from_wire("entity") {
        Err(BpError::SchemaError(_)) => {}
        other => panic!("expected a schema error, got {:?}", other.is_ok()),
    }
}

fn entity_json(connections: &str) -> String {
    format!(
        "{{\"blueprint\":{{\"item\":\"blueprint\",\"label\":\"l\",\"label_color\":{{\"r\":0,\"g\":0,\"b\":0,\"a\":1}},\"entities\":[{{\"entity_number\":1,\"name\":\"small-lamp\",\"position\":{{\"x\":1.5,\"y\":-2}},{}\"items\":{{}},\"recipe\":\"\",\"bar\":0,\"inventory\":{{\"filters\":[],\"bar\":0}},\"infinity_settings\":{{\"remove_unfiltered_items\":false}},\"type\":\"input\",\"filter_mode\":\"whitelist\",\"drop_position\":{{\"x\":0,\"y\":0}},\"pickup_position\":{{\"x\":0,\"y\":0}},\"request_from_buffers\":false,\"parameters\":{{\"playback_volume\":1,\"playback_globally\":false,\"allow_polyphony\":false}},\"alert_parameters\":{{\"show_alert\":false,\"show_on_map\":false,\"icon_signal_id\":{{\"name\":\"s\",\"type\":\"item\"}},\"alert_message\":\"\"}},\"auto_launch\":false,\"variation\":0,\"color\":{{\"r\":0,\"g\":0,\"b\":0,\"a\":1}},\"station\":\"\"}}],\"tiles\":[],\"icons\":[],\"schedules\":[],\"version\":0}}}}",
        connections
    )
}

#[test]
fn connector_key_zero_is_schema_error() {
    let with_zero_key = entity_json(
        "\"connections\":{\"0\":{\"1\":{\"red\":[],\"green\":[]},\"2\":{\"red\":[],\"green\":[]}}},",
    );
    match parse_document(&with_zero_key) {
        Err(BpError::SchemaError(_)) => {}
        other => panic!("expected a schema error, got {:?}", other.is_ok()),
    }
}

#[test]
fn connector_key_one_is_accepted() {
    let with_key_one = entity_json(
        "\"connections\":{\"1\":{\"1\":{\"red\":[{\"entity_id\":1,\"circuit_id\":\"Lamp\"}],\"green\":[]},\"2\":{\"red\":[],\"green\":[]}}},",
    );
    let doc = parse_document(&with_key_one).unwrap();
    match doc {
        factorio_bp::schema::Document::Blueprint(bp) => {
            let e = &bp.entities[0];
            let conns = e.connections.as_ref().unwrap();
            assert_eq!(conns.len(), 1);
            assert_eq!(conns[0].0, 1);
            assert_eq!(conns[0].1.first.red[0].entity_id, 1);
            assert_eq!(conns[0].1.first.red[0].circuit_id, CircuitConnectorId::Lamp);
        }
        _ => panic!("expected a blueprint"),
    }
}

#[test]
fn duplicate_connector_key_is_schema_error() {
    // "1" and "01" read as the same connector number
    let with_dup = entity_json(
        "\"connections\":{\"1\":{\"1\":{\"red\":[],\"green\":[]},\"2\":{\"red\":[],\"green\":[]}},\"01\":{\"1\":{\"red\":[],\"green\":[]},\"2\":{\"red\":[],\"green\":[]}}},",
    );
    match parse_document(&with_dup) {
        Err(BpError::SchemaError(_)) => {}
        other => panic!("expected a schema error, got {:?}", other.is_ok()),
    }
}

#[test]
fn duplicate_item_name_collapses_before_parsing() {
    // a repeated member name never reaches the schema layer: the JSON text
    // parser keeps only the later member, and the parsed map stays unique
    let with_dup = entity_json("").replace("\"items\":{}", "\"items\":{\"coal\":1,\"coal\":2}");
    let doc = parse_document(&with_dup).unwrap();
    match doc {
        factorio_bp::schema::Document::Blueprint(bp) => {
            assert_eq!(bp.entities[0].items.len(), 1);
            assert_eq!(bp.entities[0].items[0].1, 2);
        }
        _ => panic!("expected a blueprint"),
    }
}

#[test]
fn entity_number_zero_is_schema_error() {
    let bad = entity_json("").replace("\"entity_number\":1", "\"entity_number\":0");
    match parse_document(&bad) {
        Err(BpError::SchemaError(_)) => {}
        other => panic!("expected a schema error, got {:?}", other.is_ok()),
    }
}

#[test]
fn neighbours_wire_name_maps_to_neighbors() {
    let with_neighbours = entity_json("\"neighbours\":[2,3],");
    let doc = parse_document(&with_neighbours).unwrap();
    match doc {
        factorio_bp::schema::Document::Blueprint(bp) => {
            assert_eq!(bp.entities[0].neighbors.as_ref().unwrap(), &vec![2u64, 3u64]);
        }
        _ => panic!("expected a blueprint"),
    }
}

#[test]
fn absent_optional_members_stay_absent() {
    let plain = entity_json("");
    let doc = parse_document(&plain).unwrap();
    match doc {
        factorio_bp::schema::Document::Blueprint(bp) => {
            let e = &bp.entities[0];
            assert!(e.direction.is_none());
            assert!(e.orientation.is_none());
            assert!(e.connections.is_none());
            assert!(e.neighbors.is_none());
            assert!(e.filter.is_none());
            assert!(e.filters.is_none());
            assert!(e.override_stack_size.is_none());
            assert!(e.request_filters.is_none());
        }
        _ => panic!("expected a blueprint"),
    }
}

#[test]
fn decimal_tokens_round_trip() {
    assert_eq!(u64_to_dec(0), "0");
    assert_eq!(u64_to_dec(18446744073709551615), "18446744073709551615");
    assert_eq!(parse_u64("18446744073709551615"), Some(18446744073709551615));
    assert_eq!(parse_u64(u64_to_dec(281479271743489).as_str()), Some(281479271743489));
    assert_eq!(parse_u64("18446744073709551616"), None);
    assert_eq!(parse_u64(""), None);
    assert_eq!(parse_u64("12a"), None);
    assert_eq!(parse_u64("-3"), None);
}

#[test]
fn analysis_stubs_expose_their_fields() {
    let item = factorio_bp::analysis::Item::new(String::from("iron-plate"), 100);
    assert_eq!(item.name(), "iron-plate");
    assert_eq!(item.stack_size(), 100);
    let fluid = factorio_bp::analysis::Fluid::new(String::from("water"), 25000);
    assert_eq!(fluid.name(), "water");
    assert_eq!(fluid.stack_size(), 25000);
}
