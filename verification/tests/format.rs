use json2lua::{get_indent, parse, render_document, validate_string, walk, Json};

#[test]
fn all_values() {
    let json = r#"{
  "string": "str",
  "int": 420,
  "float": 4.2,
  "bool": true,
  "null": null,
  "array": [
    "string",
    12345,
    false,
    {
      "k": "v"
    }
  ],
  "object": {
    "key": "value"
  }
}"#;

    let lua = r#"{
	["string"] = "str",
	["int"] = 420,
	["float"] = 4.2,
	["bool"] = true,
	["null"] = nil,
	["array"] = [
		"string",
		12345,
		false,
		{
			["k"] = "v",
		},
	],
	["object"] = {
		["key"] = "value",
	},
}"#;

    assert_eq!(parse(json).unwrap(), lua);
}

#[test]
fn malformed_strings() {
    let json = r#"{
  "1": "..\n..",
  "2": "..\t..",
  "3": "..\r..",
  "4": "..\\..",
  "5": "..\".."
}"#;

    let lua = r#"{
	["1"] = "..\n..",
	["2"] = "..\t..",
	["3"] = "..\r..",
	["4"] = "..\\..",
	["5"] = "..\"..",
}"#;

    assert_eq!(parse(json).unwrap(), lua);
}

#[test]
fn primitive_values() {
    let json = r#"{"string":"json2lua","int":420,"bool":true,"null":null}"#;
    let lua = "{\n\t[\"string\"] = \"json2lua\",\n\t[\"int\"] = 420,\n\t[\"bool\"] = true,\n\t[\"null\"] = nil,\n}";
    assert_eq!(parse(json).unwrap(), lua);
}

#[test]
fn negative_and_float_numbers() {
    let json = r#"{"a":-7,"b":0.5,"c":0}"#;
    let lua = "{\n\t[\"a\"] = -7,\n\t[\"b\"] = 0.5,\n\t[\"c\"] = 0,\n}";
    assert_eq!(parse(json).unwrap(), lua);
}

#[test]
fn key_order_is_preserved() {
    let json = r#"{"zeta":1,"alpha":2,"mid":3,"Beta":4}"#;
    let lua = "{\n\t[\"zeta\"] = 1,\n\t[\"alpha\"] = 2,\n\t[\"mid\"] = 3,\n\t[\"Beta\"] = 4,\n}";
    assert_eq!(parse(json).unwrap(), lua);
}

#[test]
fn nested_key_order_is_preserved() {
    let json = r#"{"outer":{"z":1,"y":2,"a":3,"x":4}}"#;
    let lua = "{\n\t[\"outer\"] = {\n\t\t[\"z\"] = 1,\n\t\t[\"y\"] = 2,\n\t\t[\"a\"] = 3,\n\t\t[\"x\"] = 4,\n\t},\n}";
    assert_eq!(parse(json).unwrap(), lua);
}

#[test]
fn nested_array_of_mixed_types() {
    let json = r#"{"array":["string",12345,false,{"k":"v"}]}"#;
    let lua = "{\n\t[\"array\"] = [\n\t\t\"string\",\n\t\t12345,\n\t\tfalse,\n\t\t{\n\t\t\t[\"k\"] = \"v\",\n\t\t},\n\t],\n}";
    assert_eq!(parse(json).unwrap(), lua);
}

#[test]
fn escaped_newline_stays_escaped() {
    let json = "{\"s\":\"..\\n..\"}";
    let out = parse(json).unwrap();
    // The value must hold the two-character sequence backslash-n, not a
    // line break.
    assert_eq!(out, "{\n\t[\"s\"] = \"..\\n..\",\n}");
    assert!(out.contains("\\n"));
    assert!(!out.contains("\"..\n"));
}

#[test]
fn empty_object() {
    assert_eq!(parse("{}").unwrap(), "{\n}");
}

#[test]
fn empty_containers() {
    let json = r#"{"a":[],"o":{}}"#;
    let lua = "{\n\t[\"a\"] = [\n\t],\n\t[\"o\"] = {\n\t},\n}";
    assert_eq!(parse(json).unwrap(), lua);
}

#[test]
fn escaped_keys() {
    let json = "{\"a\\nb\":1,\"c\\\"d\":2}";
    let lua = "{\n\t[\"a\\nb\"] = 1,\n\t[\"c\\\"d\"] = 2,\n}";
    assert_eq!(parse(json).unwrap(), lua);
}

#[test]
fn duplicate_keys_keep_first_position() {
    let json = r#"{"a":1,"b":2,"a":3}"#;
    let lua = "{\n\t[\"a\"] = 3,\n\t[\"b\"] = 2,\n}";
    assert_eq!(parse(json).unwrap(), lua);
}

#[test]
fn malformed_input_is_an_error() {
    let err = parse("{\"a\":").unwrap_err();
    assert!(!err.message.is_empty());
}

#[test]
fn non_object_root_is_an_error() {
    assert!(parse("[1,2,3]").is_err());
    assert!(parse("\"text\"").is_err());
    assert!(parse("42").is_err());
    assert!(parse("true").is_err());
    assert!(parse("null").is_err());
}

#[test]
fn validate_string_substitutions() {
    assert_eq!(validate_string("plain"), "plain");
    assert_eq!(validate_string("a\nb"), "a\\nb");
    assert_eq!(validate_string("a\tb"), "a\\tb");
    assert_eq!(validate_string("a\rb"), "a\\rb");
    assert_eq!(validate_string("a\\b"), "a\\\\b");
    assert_eq!(validate_string("a\"b"), "a\\\"b");
    assert_eq!(validate_string(""), "");
    assert_eq!(validate_string("\n\t\r\\\""), "\\n\\t\\r\\\\\\\"");
}

#[test]
fn validate_string_round_trip_by_hand() {
    // Reversing the five substitutions on the escaped text gives back
    // the original.
    let original = "line\none\ttab \"quoted\" back\\slash\r.";
    let escaped = validate_string(original);
    let mut unescaped = String::new();
    let mut chars = escaped.chars();
    while let Some(c) = chars.next() {
        if c == '\\' {
            match chars.next() {
                Some('n') => unescaped.push('\n'),
                Some('t') => unescaped.push('\t'),
                Some('r') => unescaped.push('\r'),
                Some(other) => unescaped.push(other),
                None => panic!("escaped text ended with a lone backslash"),
            }
        } else {
            unescaped.push(c);
        }
    }
    assert_eq!(unescaped, original);
}

#[test]
fn get_indent_is_tabs() {
    assert_eq!(get_indent(0), "");
    assert_eq!(get_indent(1), "\t");
    assert_eq!(get_indent(4), "\t\t\t\t");
}

#[test]
fn walk_renders_single_entries() {
    assert_eq!(walk(None, &Json::Null, 1), "\tnil,\n");
    assert_eq!(walk(None, &Json::Bool(false), 2), "\t\tfalse,\n");
    assert_eq!(walk(Some("k"), &Json::Text(String::from("v")), 1), "\t[\"k\"] = \"v\",\n");
    assert_eq!(walk(Some("n"), &Json::Num(String::from("420")), 1), "\t[\"n\"] = 420,\n");
    let arr = Json::Arr(vec![Json::Bool(true), Json::Null]);
    assert_eq!(walk(Some("a"), &arr, 1), "\t[\"a\"] = [\n\t\ttrue,\n\t\tnil,\n\t],\n");
}

#[test]
fn walk_indents_closing_bracket_to_depth() {
    let obj = Json::Obj(vec![(String::from("k"), Json::Null)]);
    let rendered = walk(Some("o"), &obj, 3);
    assert_eq!(rendered, "\t\t\t[\"o\"] = {\n\t\t\t\t[\"k\"] = nil,\n\t\t\t},\n");
}

#[test]
fn render_document_matches_parse() {
    let entries = vec![
        (String::from("string"), Json::Text(String::from("json2lua"))),
        (String::from("int"), Json::Num(String::from("420"))),
        (String::from("bool"), Json::Bool(true)),
        (String::from("null"), Json::Null),
    ];
    let direct = render_document(&entries);
    let parsed = parse(r#"{"string":"json2lua","int":420,"bool":true,"null":null}"#).unwrap();
    assert_eq!(direct, parsed);
}

#[test]
fn render_document_of_nothing() {
    let entries: Vec<(String, Json)> = Vec::new();
    assert_eq!(render_document(&entries), "{\n}");
}
