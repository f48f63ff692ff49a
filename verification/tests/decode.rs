//! The decode scenarios: documents driven through the engine the way a
//! type-directed decode protocol drives it — one request per field shape,
//! with unknown keys skipped.

use collectd_de::{ConfigItem, ConfigValue, Deserializer, FieldSeparated, SeqSeparated};
use collectd_de::from_config;

fn item(key: &str, values: Vec<ConfigValue>, children: Vec<ConfigItem>) -> ConfigItem {
    ConfigItem { key: key.to_string(), values, children }
}

fn engine(items: &Vec<ConfigItem>) -> Deserializer {
    Deserializer::from_collectd(from_config(items))
}

fn number(x: f64) -> ConfigValue {
    ConfigValue::Number(f64::to_bits(x))
}

fn text(s: &str) -> ConfigValue {
    ConfigValue::Str(s.to_string())
}

#[derive(PartialEq, Eq, Debug)]
struct BoolStruct {
    my_bool: bool,
}

#[test]
fn test_serde_simple_bool() {
    let items = vec![item("my_bool", vec![ConfigValue::Boolean(true)], vec![])];
    let mut de = engine(&items);
    let (count, pushed) = de.enter_struct().unwrap();
    assert!(!pushed);
    let mut fields = FieldSeparated::new(count);
    let mut my_bool: Option<bool> = None;
    while fields.next_key(&mut de) {
        let key = de.identifier().unwrap().to_string();
        if key == "my_bool" {
            my_bool = Some(de.grab_bool().unwrap());
        }
    }
    let actual = BoolStruct { my_bool: my_bool.unwrap() };
    assert_eq!(BoolStruct { my_bool: true }, actual);
}

#[derive(PartialEq, Eq, Debug)]
struct OptBoolStruct {
    my_bool: Option<bool>,
}

#[test]
fn test_serde_empty_bool() {
    let items: Vec<ConfigItem> = Vec::default();
    let mut de = engine(&items);
    let (count, pushed) = de.enter_struct().unwrap();
    assert!(!pushed);
    let mut fields = FieldSeparated::new(count);
    let mut my_bool: Option<bool> = None;
    while fields.next_key(&mut de) {
        let key = de.identifier().unwrap().to_string();
        if key == "my_bool" {
            my_bool = Some(de.grab_bool().unwrap());
        }
    }
    let actual = OptBoolStruct { my_bool };
    assert_eq!(OptBoolStruct { my_bool: None }, actual);
}

#[derive(PartialEq, Eq, Debug)]
struct IntStruct {
    my_int: i8,
}

#[test]
fn test_serde_simple_number() {
    let items = vec![item("my_int", vec![number(1.0)], vec![])];
    let mut de = engine(&items);
    let (count, _) = de.enter_struct().unwrap();
    let mut fields = FieldSeparated::new(count);
    let mut my_int: Option<i8> = None;
    while fields.next_key(&mut de) {
        let key = de.identifier().unwrap().to_string();
        if key == "my_int" {
            my_int = Some(f64::from_bits(de.grab_number().unwrap()) as i8);
        }
    }
    let actual = IntStruct { my_int: my_int.unwrap() };
    assert_eq!(IntStruct { my_int: 1 }, actual);
}

#[derive(PartialEq, Eq, Debug)]
struct StringStruct {
    my_string: String,
}

#[test]
fn test_serde_simple_string() {
    let items = vec![item("my_string", vec![text("HEY")], vec![])];
    let mut de = engine(&items);
    let (count, _) = de.enter_struct().unwrap();
    let mut fields = FieldSeparated::new(count);
    let mut my_string: Option<String> = None;
    while fields.next_key(&mut de) {
        let key = de.identifier().unwrap().to_string();
        if key == "my_string" {
            my_string = Some(de.grab_string().unwrap().to_string());
        }
    }
    let actual = StringStruct { my_string: my_string.unwrap() };
    assert_eq!(
        StringStruct { my_string: String::from("HEY") },
        actual
    );
}

#[derive(PartialEq, Eq, Debug)]
struct StrStruct<'a> {
    my_string: &'a str,
}

#[test]
fn test_serde_simple_str() {
    let items = vec![item("my_string", vec![text("HEY")], vec![])];
    let mut de = engine(&items);
    let (count, _) = de.enter_struct().unwrap();
    let mut fields = FieldSeparated::new(count);
    let mut my_string: Option<String> = None;
    while fields.next_key(&mut de) {
        let key = de.identifier().unwrap().to_string();
        if key == "my_string" {
            // the engine hands the text out borrowed; copy it to outlive `de`
            my_string = Some(de.grab_string().unwrap().to_string());
        }
    }
    let owned = my_string.unwrap();
    let actual = StrStruct { my_string: owned.as_str() };
    assert_eq!(StrStruct { my_string: "HEY" }, actual);
}

#[derive(PartialEq, Eq, Debug)]
struct TwoFieldStruct {
    my_bool: bool,
    my_string: String,
}

#[test]
fn test_serde_multiple() {
    let items = vec![
        item("my_bool", vec![ConfigValue::Boolean(true)], vec![]),
        item("my_string", vec![text("/")], vec![]),
    ];
    let mut de = engine(&items);
    let (count, _) = de.enter_struct().unwrap();
    let mut fields = FieldSeparated::new(count);
    let mut my_bool: Option<bool> = None;
    let mut my_string: Option<String> = None;
    while fields.next_key(&mut de) {
        let key = de.identifier().unwrap().to_string();
        if key == "my_bool" {
            my_bool = Some(de.grab_bool().unwrap());
        } else if key == "my_string" {
            my_string = Some(de.grab_string().unwrap().to_string());
        }
    }
    let actual = TwoFieldStruct { my_bool: my_bool.unwrap(), my_string: my_string.unwrap() };
    assert_eq!(
        TwoFieldStruct { my_bool: true, my_string: String::from("/") },
        actual
    );
}

fn decode_bool_seq(de: &mut Deserializer) -> Vec<bool> {
    let n = de.seq_len().unwrap();
    let mut sep = SeqSeparated::new(n);
    let mut out: Vec<bool> = Vec::new();
    while sep.next_element(de) {
        out.push(de.grab_bool().unwrap());
    }
    out
}

#[derive(PartialEq, Eq, Debug)]
struct BoolVecStruct {
    my_bool: Vec<bool>,
}

#[test]
fn test_serde_bool_vec() {
    let items = vec![item(
        "my_bool",
        vec![ConfigValue::Boolean(true), ConfigValue::Boolean(false)],
        vec![],
    )];
    let mut de = engine(&items);
    let (count, _) = de.enter_struct().unwrap();
    let mut fields = FieldSeparated::new(count);
    let mut my_bool: Option<Vec<bool>> = None;
    while fields.next_key(&mut de) {
        let key = de.identifier().unwrap().to_string();
        if key == "my_bool" {
            my_bool = Some(decode_bool_seq(&mut de));
        }
    }
    let actual = BoolVecStruct { my_bool: my_bool.unwrap() };
    assert_eq!(BoolVecStruct { my_bool: vec![true, false] }, actual);
}

#[test]
fn test_serde_bool_vec_sep() {
    let items = vec![
        item("my_bool", vec![ConfigValue::Boolean(true)], vec![]),
        item("my_bool", vec![ConfigValue::Boolean(false)], vec![]),
    ];
    let mut de = engine(&items);
    let (count, _) = de.enter_struct().unwrap();
    let mut fields = FieldSeparated::new(count);
    let mut my_bool: Option<Vec<bool>> = None;
    while fields.next_key(&mut de) {
        let key = de.identifier().unwrap().to_string();
        if key == "my_bool" {
            my_bool = Some(decode_bool_seq(&mut de));
        }
    }
    let actual = BoolVecStruct { my_bool: my_bool.unwrap() };
    assert_eq!(BoolVecStruct { my_bool: vec![true, false] }, actual);
}

#[derive(PartialEq, Debug)]
struct TwoVecStruct {
    my_bool: Vec<bool>,
    my_num: Vec<f64>,
}

#[test]
fn test_serde_multiple_vec() {
    let items = vec![
        item("my_bool", vec![ConfigValue::Boolean(true)], vec![]),
        item("my_bool", vec![ConfigValue::Boolean(false)], vec![]),
        item("my_num", vec![number(10.0), number(12.0)], vec![]),
    ];
    let mut de = engine(&items);
    let (count, _) = de.enter_struct().unwrap();
    let mut fields = FieldSeparated::new(count);
    let mut my_bool: Option<Vec<bool>> = None;
    let mut my_num: Option<Vec<f64>> = None;
    while fields.next_key(&mut de) {
        let key = de.identifier().unwrap().to_string();
        if key == "my_bool" {
            my_bool = Some(decode_bool_seq(&mut de));
        } else if key == "my_num" {
            let n = de.seq_len().unwrap();
            let mut sep = SeqSeparated::new(n);
            let mut out: Vec<f64> = Vec::new();
            while sep.next_element(&mut de) {
                out.push(f64::from_bits(de.grab_number().unwrap()));
            }
            my_num = Some(out);
        }
    }
    let actual = TwoVecStruct { my_bool: my_bool.unwrap(), my_num: my_num.unwrap() };
    assert_eq!(
        TwoVecStruct { my_bool: vec![true, false], my_num: vec![10.0, 12.0] },
        actual
    );
}

#[derive(PartialEq, Eq, Debug)]
struct TwoOptStruct {
    my_bool: Option<bool>,
    my_string: Option<String>,
}

#[test]
fn test_serde_options() {
    let items = vec![item("my_bool", vec![ConfigValue::Boolean(true)], vec![])];
    let mut de = engine(&items);
    let (count, _) = de.enter_struct().unwrap();
    let mut fields = FieldSeparated::new(count);
    let mut my_bool: Option<bool> = None;
    let mut my_string: Option<String> = None;
    while fields.next_key(&mut de) {
        let key = de.identifier().unwrap().to_string();
        if key == "my_bool" {
            my_bool = Some(de.grab_bool().unwrap());
        } else if key == "my_string" {
            my_string = Some(de.grab_string().unwrap().to_string());
        }
    }
    let actual = TwoOptStruct { my_bool, my_string };
    assert_eq!(
        TwoOptStruct { my_bool: Some(true), my_string: None },
        actual
    );
}

#[derive(PartialEq, Eq, Debug, Clone, Copy)]
enum LogLevel {
    Error,
    Warning,
    Notice,
    Info,
    Debug,
}

/// The case-insensitive level names the original plugin API accepts.
fn level_from(s: &str) -> LogLevel {
    match s.to_lowercase().as_str() {
        "err" | "error" => LogLevel::Error,
        "warn" | "warning" => LogLevel::Warning,
        "notice" => LogLevel::Notice,
        "info" => LogLevel::Info,
        "debug" => LogLevel::Debug,
        other => panic!("unknown log level: {}", other),
    }
}

#[derive(PartialEq, Eq, Debug)]
struct LevelStruct {
    warn: LogLevel,
    warning: LogLevel,
    err: LogLevel,
    error: LogLevel,
    debug: LogLevel,
    info: LogLevel,
    notice: LogLevel,
}

#[test]
fn test_serde_log_level() {
    let items = vec![
        item("warn", vec![text("warn")], vec![]),
        item("warning", vec![text("Warning")], vec![]),
        item("err", vec![text("ErR")], vec![]),
        item("error", vec![text("Error")], vec![]),
        item("debug", vec![text("debug")], vec![]),
        item("info", vec![text("INFO")], vec![]),
        item("notice", vec![text("notice")], vec![]),
    ];
    let mut de = engine(&items);
    let (count, _) = de.enter_struct().unwrap();
    let mut fields = FieldSeparated::new(count);
    let mut got: Vec<(String, LogLevel)> = Vec::new();
    while fields.next_key(&mut de) {
        let key = de.identifier().unwrap().to_string();
        let level = level_from(de.grab_string().unwrap());
        got.push((key, level));
    }
    let field = |name: &str| -> LogLevel {
        got.iter().find(|(k, _)| k == name).map(|(_, l)| *l).unwrap()
    };
    let actual = LevelStruct {
        warn: field("warn"),
        warning: field("warning"),
        err: field("err"),
        error: field("error"),
        debug: field("debug"),
        info: field("info"),
        notice: field("notice"),
    };
    assert_eq!(
        LevelStruct {
            warn: LogLevel::Warning,
            warning: LogLevel::Warning,
            err: LogLevel::Error,
            error: LogLevel::Error,
            debug: LogLevel::Debug,
            info: LogLevel::Info,
            notice: LogLevel::Notice,
        },
        actual
    );
}

#[derive(PartialEq, Eq, Debug)]
struct CharStruct {
    my_char: char,
}

#[test]
fn test_serde_char() {
    let items = vec![item("my_char", vec![text("/")], vec![])];
    let mut de = engine(&items);
    let (count, _) = de.enter_struct().unwrap();
    let mut fields = FieldSeparated::new(count);
    let mut my_char: Option<char> = None;
    while fields.next_key(&mut de) {
        let key = de.identifier().unwrap().to_string();
        if key == "my_char" {
            my_char = Some(de.grab_char().unwrap());
        }
    }
    let actual = CharStruct { my_char: my_char.unwrap() };
    assert_eq!(CharStruct { my_char: '/' }, actual);
}

#[test]
fn test_serde_ignore() {
    let items = vec![
        item("my_char", vec![text("/")], vec![]),
        item("my_boat", vec![text("/")], vec![]),
    ];
    let mut de = engine(&items);
    let (count, _) = de.enter_struct().unwrap();
    let mut fields = FieldSeparated::new(count);
    let mut my_char: Option<char> = None;
    while fields.next_key(&mut de) {
        let key = de.identifier().unwrap().to_string();
        if key == "my_char" {
            my_char = Some(de.grab_char().unwrap());
        }
        // unknown keys consume nothing and are skipped
    }
    let actual = CharStruct { my_char: my_char.unwrap() };
    assert_eq!(CharStruct { my_char: '/' }, actual);
}

#[derive(PartialEq, Eq, Debug)]
struct MyPort {
    port: i32,
}

#[derive(PartialEq, Eq, Debug)]
struct PortsStruct {
    ports: Vec<MyPort>,
}

#[test]
fn test_serde_nested() {
    let items = vec![
        item(
            "ports",
            vec![],
            vec![item("port", vec![number(2003.0)], vec![])],
        ),
        item(
            "ports",
            vec![],
            vec![item("port", vec![number(2004.0)], vec![])],
        ),
    ];
    let mut de = engine(&items);
    let (count, _) = de.enter_struct().unwrap();
    let mut fields = FieldSeparated::new(count);
    let mut ports: Option<Vec<MyPort>> = None;
    while fields.next_key(&mut de) {
        let key = de.identifier().unwrap().to_string();
        if key == "ports" {
            let n = de.seq_len().unwrap();
            let mut sep = SeqSeparated::new(n);
            let mut out: Vec<MyPort> = Vec::new();
            while sep.next_element(&mut de) {
                let (inner_count, pushed) = de.enter_struct().unwrap();
                assert!(pushed);
                let mut inner = FieldSeparated::new(inner_count);
                let mut port: Option<i32> = None;
                while inner.next_key(&mut de) {
                    let k2 = de.identifier().unwrap().to_string();
                    if k2 == "port" {
                        port = Some(f64::from_bits(de.grab_number().unwrap()) as i32);
                    }
                }
                de.pop();
                out.push(MyPort { port: port.unwrap() });
            }
            ports = Some(out);
        }
    }
    let actual = PortsStruct { ports: ports.unwrap() };
    assert_eq!(
        PortsStruct { ports: vec![MyPort { port: 2003 }, MyPort { port: 2004 }] },
        actual
    );
}

#[derive(PartialEq, Eq, Debug)]
struct MyAddress {
    port: i32,
    host: String,
}

#[derive(PartialEq, Eq, Debug)]
struct AddressStruct {
    address: Vec<MyAddress>,
}

#[test]
fn test_serde_nested_multiple() {
    let items = vec![
        item(
            "address",
            vec![],
            vec![
                item("port", vec![number(2003.0)], vec![]),
                item("host", vec![text("localhost")], vec![]),
            ],
        ),
        item(
            "address",
            vec![],
            vec![
                item("host", vec![text("127.0.0.1")], vec![]),
                item("port", vec![number(2004.0)], vec![]),
            ],
        ),
    ];
    let mut de = engine(&items);
    let (count, _) = de.enter_struct().unwrap();
    let mut fields = FieldSeparated::new(count);
    let mut address: Option<Vec<MyAddress>> = None;
    while fields.next_key(&mut de) {
        let key = de.identifier().unwrap().to_string();
        if key == "address" {
            let n = de.seq_len().unwrap();
            let mut sep = SeqSeparated::new(n);
            let mut out: Vec<MyAddress> = Vec::new();
            while sep.next_element(&mut de) {
                let (inner_count, pushed) = de.enter_struct().unwrap();
                assert!(pushed);
                let mut inner = FieldSeparated::new(inner_count);
                let mut port: Option<i32> = None;
                let mut host: Option<String> = None;
                while inner.next_key(&mut de) {
                    let k2 = de.identifier().unwrap().to_string();
                    if k2 == "port" {
                        port = Some(f64::from_bits(de.grab_number().unwrap()) as i32);
                    } else if k2 == "host" {
                        host = Some(de.grab_string().unwrap().to_string());
                    }
                }
                de.pop();
                out.push(MyAddress { port: port.unwrap(), host: host.unwrap() });
            }
            address = Some(out);
        }
    }
    let actual = AddressStruct { address: address.unwrap() };
    assert_eq!(
        AddressStruct {
            address: vec![
                MyAddress { host: String::from("localhost"), port: 2003 },
                MyAddress { host: String::from("127.0.0.1"), port: 2004 },
            ],
        },
        actual
    );
}

#[test]
fn can_generate_blank_plugin() {
    // a plugin with no configuration at all still gets a working decoder:
    // an empty document decodes into a target with no required fields
    let items: Vec<ConfigItem> = Vec::new();
    let mut de = engine(&items);
    let (count, pushed) = de.enter_struct().unwrap();
    let mut fields = FieldSeparated::new(count);
    assert!(count == 0 && !pushed && !fields.next_key(&mut de));
}
