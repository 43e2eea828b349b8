use const_json::{AccessError, Json, JsonSmuggler, Numeric, Piece};

fn render_text(v: &Json) -> String {
    let mut out = String::new();
    for piece in v.debug_pieces() {
        match piece {
            Piece::Text(s) => out.push_str(&s),
            Piece::Float(bits) => out.push_str(&format!("{}", f64::from_bits(bits))),
        }
    }
    out
}

fn float(f: f64) -> Json<'static> {
    Json::Float(f.to_bits())
}

#[test]
fn equality_is_reflexive() {
    let inner = vec![Json::Int(2), Json::Null(()), float(1.5)];
    let entries = vec![("a", Json::Int(1)), ("b", Json::Array(&inner)), ("c", Json::Str("s"))];
    let v = Json::Object(&entries);
    assert!(v == v);
    assert!(Json::Null(()) == Json::Null(()));
    assert!(Json::Bool(true) == Json::Bool(true));
}

#[test]
fn equality_is_variant_sensitive() {
    assert!(Json::Int(5) != float(5.0));
    assert!(Json::Null(()) != Json::Bool(false));
    assert!(Json::Str("1") != Json::Int(1));
}

#[test]
fn equality_compares_payloads() {
    let a1 = vec![Json::Int(1), Json::Str("x")];
    let a2 = vec![Json::Int(1), Json::Str("x")];
    let a3 = vec![Json::Int(1), Json::Str("y")];
    let a4 = vec![Json::Int(1)];
    assert!(Json::Array(&a1) == Json::Array(&a2));
    assert!(Json::Array(&a1) != Json::Array(&a3));
    assert!(Json::Array(&a1) != Json::Array(&a4));
    let o1 = vec![("k", Json::Int(1))];
    let o2 = vec![("k", Json::Int(1))];
    let o3 = vec![("j", Json::Int(1))];
    assert!(Json::Object(&o1) == Json::Object(&o2));
    assert!(Json::Object(&o1) != Json::Object(&o3));
    assert!(Json::Str("abc") == Json::Str("abc"));
    assert!(Json::Str("abc") != Json::Str("abd"));
    assert!(Json::Str("é") != Json::Str("e"));
}

#[test]
fn float_equality_follows_ieee() {
    assert!(float(0.0) == float(-0.0));
    assert!(float(f64::NAN) != float(f64::NAN));
    assert!(float(2.5) == float(2.5));
    assert!(float(2.5) != float(3.5));
}

#[test]
fn get_idx_returns_element() {
    let items = vec![Json::Int(10), Json::Str("b"), Json::Null(())];
    let a = Json::Array(&items);
    assert!(*a.get_idx(0).unwrap() == Json::Int(10));
    assert!(*a.get_idx(1).unwrap() == Json::Str("b"));
    assert!(*a.get_idx(2).unwrap() == Json::Null(()));
}

#[test]
fn get_idx_out_of_range() {
    let items = vec![Json::Int(10)];
    let a = Json::Array(&items);
    assert_eq!(a.get_idx(1).err(), Some(AccessError::IndexOutOfRange));
    assert_eq!(a.get_idx(usize::MAX).err(), Some(AccessError::IndexOutOfRange));
    let empty: Vec<Json> = vec![];
    assert_eq!(Json::Array(&empty).get_idx(0).err(), Some(AccessError::IndexOutOfRange));
}

#[test]
fn get_idx_wrong_variant() {
    let entries = vec![("a", Json::Int(1))];
    assert_eq!(Json::Object(&entries).get_idx(0).err(), Some(AccessError::WrongVariant));
    assert_eq!(Json::Int(3).get_idx(0).err(), Some(AccessError::WrongVariant));
}

#[test]
fn get_val_returns_first_match() {
    let entries = vec![("k", Json::Int(1)), ("other", Json::Null(())), ("k", Json::Int(2))];
    let o = Json::Object(&entries);
    assert!(*o.get_val("k").unwrap() == Json::Int(1));
    assert!(*o.get_val("other").unwrap() == Json::Null(()));
}

#[test]
fn get_val_key_not_found() {
    let entries = vec![("key", Json::Int(1))];
    let o = Json::Object(&entries);
    assert_eq!(o.get_val("Key").err(), Some(AccessError::KeyNotFound));
    assert_eq!(o.get_val("ke").err(), Some(AccessError::KeyNotFound));
    assert_eq!(o.get_val("keys").err(), Some(AccessError::KeyNotFound));
    let empty: Vec<(&str, Json)> = vec![];
    assert_eq!(Json::Object(&empty).get_val("").err(), Some(AccessError::KeyNotFound));
}

#[test]
fn get_val_on_array_is_wrong_variant() {
    let items = vec![Json::Int(1)];
    let a = Json::Array(&items);
    assert_eq!(a.get_val("0").err(), Some(AccessError::WrongVariant));
    assert_eq!(Json::Str("k").get_val("k").err(), Some(AccessError::WrongVariant));
}

#[test]
fn float_accepts_float_and_int() {
    assert_eq!(float(12.3).float(), Ok(Numeric::Float(12.3f64.to_bits())));
    assert_eq!(Json::Int(-7).float(), Ok(Numeric::Int(-7)));
    match Json::Int(-7).float() {
        Ok(Numeric::Int(n)) => assert_eq!(n as f64, -7.0),
        other => panic!("unexpected {:?}", other),
    }
    assert_eq!(Json::Bool(true).float(), Err(AccessError::WrongVariant));
    assert_eq!(Json::Str("1.0").float(), Err(AccessError::WrongVariant));
}

#[test]
fn scalar_accessors() {
    assert_eq!(Json::Null(()).null(), Ok(()));
    assert_eq!(Json::Int(0).null(), Err(AccessError::WrongVariant));
    assert_eq!(Json::Bool(false).bool(), Ok(false));
    assert_eq!(Json::Null(()).bool(), Err(AccessError::WrongVariant));
    assert_eq!(Json::Int(i64::MIN).as_int(), Ok(i64::MIN));
    assert_eq!(float(5.0).as_int(), Err(AccessError::WrongVariant));
    assert_eq!(Json::Str("Hello").str(), Ok("Hello"));
    assert_eq!(Json::Int(1).str(), Err(AccessError::WrongVariant));
}

#[test]
fn nested_lookup_round_trip() {
    let inner = vec![Json::Int(2), Json::Null(())];
    let entries = vec![("a", Json::Int(1)), ("b", Json::Array(&inner))];
    let obj = Json::Object(&entries);
    let b = obj.get_val("b").unwrap();
    assert!(*b.get_idx(1).unwrap() == Json::Null(()));
    assert_eq!(b.get_idx(0).unwrap().as_int(), Ok(2));
    assert_eq!(obj.get_val("a").unwrap().as_int(), Ok(1));
}

#[test]
fn render_object_scenario() {
    let entries = vec![("x", Json::Bool(true)), ("y", Json::Str("hi"))];
    let obj = Json::Object(&entries);
    assert_eq!(render_text(&obj), "{ \"x\": true, \"y\": \"hi\" }");
}

#[test]
fn render_scalars() {
    assert_eq!(render_text(&Json::Null(())), "null");
    assert_eq!(render_text(&Json::Bool(false)), "false");
    assert_eq!(render_text(&Json::Int(-42)), "-42");
    assert_eq!(render_text(&Json::Int(0)), "0");
    assert_eq!(render_text(&float(12.3)), "12.3");
    assert_eq!(render_text(&Json::Str("a\"b\n")), "\"a\\\"b\\n\"");
}

#[test]
fn render_float_is_a_bit_pattern_piece() {
    let pieces = float(1.5).debug_pieces();
    assert_eq!(pieces, vec![Piece::Float(1.5f64.to_bits())]);
    let pieces = Json::Int(10).debug_pieces();
    assert_eq!(pieces, vec![Piece::Text("10".to_string())]);
}

#[test]
fn render_composites() {
    let items = vec![Json::Int(1), Json::Null(())];
    assert_eq!(render_text(&Json::Array(&items)), "[1, null]");
    let empty: Vec<Json> = vec![];
    assert_eq!(render_text(&Json::Array(&empty)), "[]");
    let no_entries: Vec<(&str, Json)> = vec![];
    assert_eq!(render_text(&Json::Object(&no_entries)), "{ }");
    let one = vec![("k", Json::Array(&items))];
    assert_eq!(render_text(&Json::Object(&one)), "{ \"k\": [1, null] }");
}

#[test]
fn smuggler_wraps_values() {
    assert!(JsonSmuggler::new(()).to_json() == Json::Null(()));
    assert!(JsonSmuggler::new(true).to_json() == Json::Bool(true));
    assert!(JsonSmuggler::new(42i64).to_json() == Json::Int(42));
    assert!(JsonSmuggler::new("text").to_json() == Json::Str("text"));
    let items = vec![Json::Int(1)];
    let a = Json::Array(&items);
    assert!(JsonSmuggler::new(a).to_json() == a);
}

#[test]
fn example_document() {
    let array = vec![Json::Int(1), Json::Null(())];
    let object = vec![("inner_bool", Json::Bool(false)), ("inner_str", Json::Str("foo bar"))];
    let entries = vec![
        ("null", Json::Null(())),
        ("bool", Json::Bool(true)),
        ("float", float(12.3)),
        ("int", Json::Int(42)),
        ("str", Json::Str("Hello, World!")),
        ("array", Json::Array(&array)),
        ("object", Json::Object(&object)),
        ("rust", JsonSmuggler::new("string").to_json()),
        ("function_result", JsonSmuggler::new(10i64 + 12).to_json()),
    ];
    let json = Json::Object(&entries);
    assert_eq!(json.get_val("null").unwrap().null(), Ok(()));
    assert_eq!(json.get_val("bool").unwrap().bool(), Ok(true));
    assert_eq!(json.get_val("float").unwrap().float(), Ok(Numeric::Float(12.3f64.to_bits())));
    assert_eq!(json.get_val("int").unwrap().as_int(), Ok(42));
    assert_eq!(json.get_val("str").unwrap().str(), Ok("Hello, World!"));
    let arr = json.get_val("array").unwrap();
    assert_eq!(arr.get_idx(0).unwrap().as_int(), Ok(1));
    assert_eq!(arr.get_idx(1).unwrap().null(), Ok(()));
    let obj = json.get_val("object").unwrap();
    assert_eq!(obj.get_val("inner_bool").unwrap().bool(), Ok(false));
    assert_eq!(obj.get_val("inner_str").unwrap().str(), Ok("foo bar"));
    assert_eq!(json.get_val("rust").unwrap().str(), Ok("string"));
    assert_eq!(json.get_val("function_result").unwrap().as_int(), Ok(22));
}

fn shareable<T: Send + Sync>(_: &T) -> bool {
    true
}

#[test]
fn values_are_shareable_across_threads() {
    let items = vec![Json::Int(1)];
    let a = Json::Array(&items);
    assert!(shareable(&a));
    assert!(shareable(&a.debug_pieces()));
}
