//! End-to-end tests of the envelope codec, the schema mapping, and the
//! validation step, run against the real outside crates.

use factorio_bp::codec::{decode_exchange_string, encode_exchange_string};
use factorio_bp::error::BpError;
use factorio_bp::pipeline::{decode_document, encode_document, parse_document, render_document, BpFormat};
use factorio_bp::schema::Document;
use factorio_bp::version::Version;

const FIXTURE_JSON: &str = "{\"blueprint\":{\"item\":\"blueprint\",\"label\":\"steel lamp row\",\"label_color\":{\"r\":1,\"g\":0.5,\"b\":0,\"a\":1},\"entities\":[],\"tiles\":[{\"name\":\"concrete\",\"position\":{\"x\":0,\"y\":0}}],\"icons\":[{\"index\":1,\"signal\":{\"name\":\"small-lamp\",\"type\":\"item\"}}],\"schedules\":[],\"version\":72058694572965888}}";

const FIXTURE_EXCHANGE: &str = "0eJxNj90KwjAMhV9Fcl1liptzryIi3Ra0kP7QVt0YfXfT6sCbNJye8yVZoKcnOq9MhG4BFVFD96cJINkjsRYiIm1Iarfx9r1+3AZL1ucol72AO3TVrhbQ8ytAspYEoIkqKgzQXa4CoqLSLmCkRiYP1gweIzLT2cBOazJwKoiZa0ocU2z7xpQZcSrTgrobSdn8QwUtibZ5SYbF2WWt3FQQYXjg+KR1kRf6UGadDlXdNudjfTqcm7pt25Q+tL5ZMA==";

#[test]
fn fixture_decodes_byte_for_byte() {
    let out = decode_exchange_string(FIXTURE_EXCHANGE).unwrap();
    assert_eq!(out, FIXTURE_JSON);
}

#[test]
fn fixture_decodes_with_line_breaks() {
    let mut wrapped = String::new();
    for (i, c) in FIXTURE_EXCHANGE.chars().enumerate() {
        if i > 0 && i % 40 == 0 {
            wrapped.push('\r');
            wrapped.push('\n');
        }
        wrapped.push(c);
    }
    let out = decode_exchange_string(&wrapped).unwrap();
    assert_eq!(out, FIXTURE_JSON);
}

#[test]
fn invalid_base64_is_format_error() {
    let r = decode_exchange_string("0@@@not base64@@@");
    match r {
        Err(BpError::FormatError(_)) => {}
        other => panic!("expected a format error, got {:?}", other.is_ok()),
    }
}

#[test]
fn invalid_zlib_is_format_error() {
    // valid base64 of bytes that are not a zlib stream
    let r = decode_exchange_string("0AAAA");
    match r {
        Err(BpError::FormatError(_)) => {}
        other => panic!("expected a format error, got {:?}", other.is_ok()),
    }
}

#[test]
fn empty_input_is_format_error() {
    let r = decode_exchange_string("\r\n\n");
    match r {
        Err(BpError::FormatError(_)) => {}
        other => panic!("expected a format error, got {:?}", other.is_ok()),
    }
}

#[test]
fn envelope_round_trip() {
    let enc = encode_exchange_string(FIXTURE_JSON);
    assert_eq!(enc.chars().next(), Some('0'));
    let dec = decode_exchange_string(&enc).unwrap();
    assert_eq!(dec, FIXTURE_JSON);
}

#[test]
fn missing_root_keys_is_data_error() {
    let r = parse_document("{\"foo\": 1}");
    match r {
        Err(BpError::DataError(_)) => {}
        other => panic!("expected a data error, got {:?}", other.is_ok()),
    }
}

#[test]
fn non_object_root_is_data_error() {
    let r = parse_document("[1, 2, 3]");
    match r {
        Err(BpError::DataError(_)) => {}
        other => panic!("expected a data error, got {:?}", other.is_ok()),
    }
}

#[test]
fn malformed_json_is_schema_error() {
    let r = parse_document("{\"blueprint\": ");
    match r {
        Err(BpError::SchemaError(_)) => {}
        other => panic!("expected a schema error, got {:?}", other.is_ok()),
    }
}

#[test]
fn missing_required_member_is_schema_error() {
    // label is required and absent
    let r = parse_document(
        "{\"blueprint\":{\"item\":\"blueprint\",\"label_color\":{\"r\":0,\"g\":0,\"b\":0,\"a\":0},\"entities\":[],\"tiles\":[],\"icons\":[],\"schedules\":[],\"version\":0}}",
    );
    match r {
        Err(BpError::SchemaError(_)) => {}
        other => panic!("expected a schema error, got {:?}", other.is_ok()),
    }
}

#[test]
fn fixture_parses_to_expected_document() {
    let doc = parse_document(FIXTURE_JSON).unwrap();
    match &doc {
        Document::Blueprint(bp) => {
            assert_eq!(bp.item, "blueprint");
            assert_eq!(bp.label, "steel lamp row");
            assert_eq!(bp.label_color.g, "0.5");
            assert_eq!(bp.entities.len(), 0);
            assert_eq!(bp.tiles.len(), 1);
            assert_eq!(bp.tiles[0].name, "concrete");
            assert_eq!(bp.icons.len(), 1);
            assert_eq!(bp.icons[0].index, 1);
            assert_eq!(bp.icons[0].signal.name, "small-lamp");
            assert_eq!(
                bp.version,
                Version { major: 1, minor: 1, patch: 61, developer: 0 }
            );
        }
        Document::BlueprintBook(_) => panic!("expected a blueprint"),
    }
}

#[test]
fn document_round_trip_through_render() {
    // parse, render, and parse again: the two documents render identically
    let doc = parse_document(FIXTURE_JSON).unwrap();
    let text1 = render_document(&doc).unwrap();
    let doc2 = parse_document(&text1).unwrap();
    let text2 = render_document(&doc2).unwrap();
    assert_eq!(text1, text2);
}

#[test]
fn full_pipeline_encode_decode() {
    let doc = decode_document(FIXTURE_EXCHANGE).unwrap();
    let enc = encode_document(&doc).unwrap();
    let doc2 = decode_document(&enc).unwrap();
    assert_eq!(render_document(&doc).unwrap(), render_document(&doc2).unwrap());
}

#[test]
fn reordered_and_extended_members_parse_alike() {
    // member order is free on the wire, and unknown members are ignored:
    // a reordered, extended root parses to a document rendering identically
    let reordered = "{\"blueprint\":{\"version\":72058694572965888,\"schedules\":[],\"icons\":[{\"signal\":{\"type\":\"item\",\"name\":\"small-lamp\"},\"index\":1}],\"tiles\":[{\"position\":{\"y\":0,\"x\":0},\"name\":\"concrete\"}],\"entities\":[],\"label_color\":{\"a\":1,\"b\":0,\"g\":0.5,\"r\":1},\"label\":\"steel lamp row\",\"item\":\"blueprint\",\"unknown_member\":true}}";
    let doc1 = parse_document(FIXTURE_JSON).unwrap();
    let doc2 = parse_document(reordered).unwrap();
    assert_eq!(render_document(&doc1).unwrap(), render_document(&doc2).unwrap());
}

#[test]
fn book_active_index_validation() {
    let book_ok = "{\"blueprint_book\":{\"item\":\"blueprint-book\",\"label\":\"bk\",\"label_color\":{\"r\":0,\"g\":0,\"b\":0,\"a\":1},\"blueprints\":[{\"index\":0,\"blueprint\":{\"item\":\"blueprint\",\"label\":\"a\",\"label_color\":{\"r\":0,\"g\":0,\"b\":0,\"a\":1},\"entities\":[],\"tiles\":[],\"icons\":[],\"schedules\":[],\"version\":0}}],\"active_index\":0,\"version\":0}}";
    let doc = parse_document(book_ok).unwrap();
    assert!(doc.validate());
    let book_bad = book_ok.replace("\"active_index\":0", "\"active_index\":3");
    let doc2 = parse_document(&book_bad).unwrap();
    assert!(!doc2.validate());
}

#[test]
fn blueprint_document_always_validates() {
    let doc = parse_document(FIXTURE_JSON).unwrap();
    assert!(doc.validate());
}

#[test]
fn format_names_parse() {
    assert_eq!(BpFormat::from_name("json").unwrap(), BpFormat::JSON);
    assert_eq!(BpFormat::from_name("rust").unwrap(), BpFormat::Rust);
    match BpFormat::from_name("yaml") {
        Err(BpError::DataError(_)) => {}
        other => panic!("expected a data error, got {:?}", other.is_ok()),
    }
    let parsed: BpFormat = "json".parse().unwrap();
    assert_eq!(parsed, BpFormat::JSON);
}
