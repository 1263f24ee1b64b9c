use cargo_cli::json::{FloatText, JsonError, JsonValue, RepresentsJSON, ToJson};
use cargo_cli::limits::{scan_text, Verdict};
use cargo_cli::registry::{ApiError, ApiErrorList, NewCrate, NewCrateDependency, OwnersReq, R};

fn object(members: Vec<(&str, JsonValue)>) -> JsonValue {
    JsonValue::object(members.into_iter().map(|(k, v)| (k.to_string(), v)).collect())
}

#[test]
fn find_gives_the_member_of_an_object() {
    let doc = object(vec![("a", JsonValue::Boolean(true)), ("b", JsonValue::string("x"))]);
    assert_eq!(doc.find("a").unwrap().as_boolean(), Some(true));
    assert_eq!(doc.find("b").unwrap().as_string().unwrap(), "x");
    assert!(doc.find("c").is_none());
}

#[test]
fn find_takes_the_later_of_two_members_with_one_key() {
    let doc = object(vec![("a", JsonValue::Boolean(true)), ("a", JsonValue::Boolean(false))]);
    assert_eq!(doc.find("a").unwrap().as_boolean(), Some(false));
}

#[test]
fn find_on_what_is_no_object_gives_nothing() {
    assert!(JsonValue::Null.find("a").is_none());
    assert!(JsonValue::string("a").find("a").is_none());
    assert!(JsonValue::array(vec![JsonValue::string("a")]).find("a").is_none());
}

#[test]
fn accessors_tell_the_kinds_apart() {
    let text = JsonValue::string("t");
    assert!(text.as_array().is_none());
    assert!(text.as_boolean().is_none());
    assert_eq!(text.as_string().unwrap(), "t");
    let list = JsonValue::array(vec![JsonValue::Null, JsonValue::Signed(-1)]);
    assert_eq!(list.as_array().unwrap().len(), 2);
    assert!(list.as_string().is_none());
    assert_eq!(JsonValue::Boolean(false).as_boolean(), Some(false));
    assert!(JsonValue::Unsigned(1).as_boolean().is_none());
}

#[test]
fn strings_and_optional_build_documents() {
    let list = JsonValue::strings(&vec!["a".to_string(), "b".to_string()]);
    let items = list.as_array().unwrap();
    assert_eq!(items.len(), 2);
    assert_eq!(items[0].as_string().unwrap(), "a");
    assert_eq!(items[1].as_string().unwrap(), "b");
    assert!(matches!(JsonValue::optional(&None), JsonValue::Null));
    assert_eq!(JsonValue::optional(&Some("x".to_string())).as_string().unwrap(), "x");
}

#[test]
fn api_error_needs_a_string_detail() {
    let good = object(vec![("detail", JsonValue::string("nope")), ("extra", JsonValue::Null)]);
    assert_eq!(ApiError::decode(&good).unwrap().detail, "nope");
    assert!(ApiError::decode(&object(vec![("detail", JsonValue::Unsigned(3))])).is_none());
    assert!(ApiError::decode(&object(vec![])).is_none());
    assert!(ApiError::decode(&JsonValue::string("nope")).is_none());
}

#[test]
fn error_list_keeps_the_order_of_the_response() {
    let doc = object(vec![(
        "errors",
        JsonValue::array(vec![
            object(vec![("detail", JsonValue::string("first"))]),
            object(vec![("detail", JsonValue::string("second"))]),
            object(vec![("detail", JsonValue::string("third"))]),
        ]),
    )]);
    let list = ApiErrorList::decode(&doc).unwrap();
    let details: Vec<&str> = list.errors.iter().map(|e| e.detail.as_str()).collect();
    assert_eq!(details, vec!["first", "second", "third"]);
}

#[test]
fn error_list_may_be_empty() {
    let doc = object(vec![("errors", JsonValue::array(vec![]))]);
    assert!(ApiErrorList::decode(&doc).unwrap().errors.is_empty());
}

#[test]
fn error_list_rejects_other_shapes() {
    assert!(ApiErrorList::decode(&object(vec![("ok", JsonValue::Boolean(true))])).is_none());
    assert!(ApiErrorList::decode(&object(vec![("errors", JsonValue::string("x"))])).is_none());
    assert!(ApiErrorList::decode(&JsonValue::array(vec![])).is_none());
    let one_bad = object(vec![(
        "errors",
        JsonValue::array(vec![
            object(vec![("detail", JsonValue::string("fine"))]),
            object(vec![("message", JsonValue::string("no detail"))]),
        ]),
    )]);
    assert!(ApiErrorList::decode(&one_bad).is_none());
}

#[test]
fn acknowledgement_needs_a_boolean_ok() {
    assert!(R::decode(&object(vec![("ok", JsonValue::Boolean(true))])).unwrap().ok);
    assert!(!R::decode(&object(vec![("ok", JsonValue::Boolean(false))])).unwrap().ok);
    assert!(R::decode(&object(vec![("ok", JsonValue::string("true"))])).is_none());
    assert!(R::decode(&object(vec![])).is_none());
    assert!(R::decode(&JsonValue::Boolean(true)).is_none());
}

#[test]
fn owners_request_is_an_object_with_the_users() {
    let users = ["alice", "bob"];
    let doc = OwnersReq { users: &users }.to_json();
    let list = doc.find("users").unwrap().as_array().unwrap();
    assert_eq!(list.len(), 2);
    assert_eq!(list[0].as_string().unwrap(), "alice");
    assert_eq!(list[1].as_string().unwrap(), "bob");
}

fn dependency() -> NewCrateDependency {
    NewCrateDependency {
        optional: true,
        default_features: false,
        name: "semver".to_string(),
        features: vec!["serde".to_string()],
        version_req: "^0.1".to_string(),
        target: None,
    }
}

#[test]
fn dependency_document_has_every_field() {
    let doc = dependency().to_json();
    assert_eq!(doc.find("optional").unwrap().as_boolean(), Some(true));
    assert_eq!(doc.find("default_features").unwrap().as_boolean(), Some(false));
    assert_eq!(doc.find("name").unwrap().as_string().unwrap(), "semver");
    assert_eq!(doc.find("features").unwrap().as_array().unwrap().len(), 1);
    assert_eq!(doc.find("version_req").unwrap().as_string().unwrap(), "^0.1");
    assert!(matches!(doc.find("target").unwrap(), JsonValue::Null));
}

#[test]
fn crate_document_has_every_field() {
    let krate = NewCrate {
        name: "foo".to_string(),
        vers: "0.1.0".to_string(),
        deps: vec![dependency()],
        features: vec![("default".to_string(), vec!["std".to_string()])],
        authors: vec!["me".to_string()],
        description: Some("a package".to_string()),
        documentation: None,
        homepage: None,
        readme: None,
        keywords: vec![],
        license: Some("MIT".to_string()),
        repository: None,
    };
    let doc = krate.to_json();
    assert_eq!(doc.find("name").unwrap().as_string().unwrap(), "foo");
    assert_eq!(doc.find("vers").unwrap().as_string().unwrap(), "0.1.0");
    let deps = doc.find("deps").unwrap().as_array().unwrap();
    assert_eq!(deps.len(), 1);
    assert_eq!(deps[0].find("name").unwrap().as_string().unwrap(), "semver");
    let features = doc.find("features").unwrap();
    assert_eq!(features.find("default").unwrap().as_array().unwrap()[0].as_string().unwrap(), "std");
    assert_eq!(doc.find("authors").unwrap().as_array().unwrap().len(), 1);
    assert_eq!(doc.find("description").unwrap().as_string().unwrap(), "a package");
    assert!(matches!(doc.find("documentation").unwrap(), JsonValue::Null));
    assert!(matches!(doc.find("homepage").unwrap(), JsonValue::Null));
    assert!(matches!(doc.find("readme").unwrap(), JsonValue::Null));
    assert!(doc.find("keywords").unwrap().as_array().unwrap().is_empty());
    assert_eq!(doc.find("license").unwrap().as_string().unwrap(), "MIT");
    assert!(matches!(doc.find("repository").unwrap(), JsonValue::Null));
}

#[test]
fn parse_reads_every_kind_of_value() {
    let doc = JsonValue::parse("{\"a\":[null,true,-3,4,\"s\",1.5],\"b\":{}}").unwrap();
    let items = doc.find("a").unwrap().as_array().unwrap();
    assert_eq!(items.len(), 6);
    assert!(matches!(items[0], JsonValue::Null));
    assert_eq!(items[1].as_boolean(), Some(true));
    assert!(matches!(items[2], JsonValue::Signed(-3)));
    assert!(matches!(items[3], JsonValue::Unsigned(4)));
    assert_eq!(items[4].as_string().unwrap(), "s");
    match &items[5] {
        JsonValue::Float(number) => assert_eq!(number.as_str(), "1.5"),
        other => panic!("{:?}", other),
    }
    assert!(matches!(doc.find("b").unwrap(), JsonValue::Object(members) if members.is_empty()));
}

#[test]
fn parse_gives_the_members_of_an_object_by_key() {
    let doc = JsonValue::parse("{\"b\":1,\"a\":2}").unwrap();
    match doc {
        JsonValue::Object(members) => {
            let keys: Vec<&str> = members.iter().map(|(k, _)| k.as_str()).collect();
            assert_eq!(keys, vec!["a", "b"]);
        }
        other => panic!("{:?}", other),
    }
}

#[test]
fn render_writes_the_compact_form() {
    let doc = JsonValue::object(vec![
        ("b".to_string(), JsonValue::array(vec![JsonValue::Null, JsonValue::Boolean(false)])),
        ("a".to_string(), JsonValue::Signed(-7)),
        ("c".to_string(), JsonValue::string("q\"uote")),
    ]);
    assert_eq!(doc.render().unwrap(), "{\"a\":-7,\"b\":[null,false],\"c\":\"q\\\"uote\"}");
    assert_eq!(JsonValue::Unsigned(18446744073709551615).render().unwrap(), "18446744073709551615");
    assert_eq!(JsonValue::array(vec![]).render().unwrap(), "[]");
}

#[test]
fn render_keeps_the_later_of_two_members_with_one_key() {
    let doc = JsonValue::object(vec![
        ("a".to_string(), JsonValue::Unsigned(1)),
        ("a".to_string(), JsonValue::Unsigned(2)),
    ]);
    assert_eq!(doc.render().unwrap(), "{\"a\":2}");
}

#[test]
fn float_goes_through_parse_and_render() {
    let doc = JsonValue::parse("[1.5, -0.25, 2e3]").unwrap();
    assert_eq!(doc.render().unwrap(), "[1.5,-0.25,2000.0]");
    }

#[test]
fn parse_of_render_gives_the_document_back() {
    let text = "{\"errors\":[{\"detail\":\"x\"}],\"n\":3}";
    assert_eq!(JsonValue::parse(text).unwrap().render().unwrap(), text);
}

#[test]
fn parse_rejects_what_is_no_json() {
    for text in ["", "{", "{\"a\":}", "[1,]", "nul", "{} {}", "{\"a\":1,}", "]", "{\"a\" 1}"] {
        assert_eq!(JsonValue::parse(text).err(), Some(JsonError::Syntax), "{}", text);
    }
}

#[test]
fn comma_before_a_closing_brace_is_no_json_and_never_reaches_the_parser() {
    for text in [
        "[{\"a\":{\"b\":1,},5]",
        "[{\"a\":1,}]",
        "{\"x\":{\"a\":1,}}",
        "{\"x\":{\"a\":1, \n\t }}",
        "[[{\"a\":[{\"b\":1 ,}, 2]}]]",
    ] {
        assert_eq!(scan_text(text), Verdict::NotJson, "{}", text);
        assert_eq!(JsonValue::parse(text).err(), Some(JsonError::Syntax), "{}", text);
    }
}

#[test]
fn comma_and_brace_inside_a_string_do_not_count() {
    let text = "{\"a\":\",}\",\"b\":\"x\\\",}\"}";
    assert_eq!(scan_text(text), Verdict::Fine);
    let doc = JsonValue::parse(text).unwrap();
    assert_eq!(doc.find("a").unwrap().as_string().unwrap(), ",}");
    assert_eq!(doc.find("b").unwrap().as_string().unwrap(), "x\",}");
}

#[test]
fn nesting_is_read_up_to_the_bound() {
    let deepest = format!("{}{}", "[".repeat(128), "]".repeat(128));
    assert_eq!(scan_text(&deepest), Verdict::Fine);
    assert!(JsonValue::parse(&deepest).is_ok());
    let deeper = format!("{}{}", "[".repeat(129), "]".repeat(129));
    assert_eq!(scan_text(&deeper), Verdict::BeyondLimits);
    assert_eq!(JsonValue::parse(&deeper).err(), Some(JsonError::Limits));
    let wide = format!("[{}[]]", "[[]],".repeat(1000));
    assert_eq!(scan_text(&wide), Verdict::Fine);
    assert_eq!(JsonValue::parse(&wide).unwrap().as_array().unwrap().len(), 1001);
}

#[test]
fn brackets_inside_strings_do_not_nest() {
    let text = format!("\"{}\"", "[".repeat(500));
    assert_eq!(scan_text(&text), Verdict::Fine);
    assert_eq!(JsonValue::parse(&text).unwrap().as_string().unwrap().len(), 500);
}

#[test]
fn long_texts_and_long_strings_are_read() {
    let detail = "x".repeat(200_000);
    let text = format!("{{\"detail\":\"{}\"}}", detail);
    assert_eq!(scan_text(&text), Verdict::Fine);
    let doc = JsonValue::parse(&text).unwrap();
    assert_eq!(doc.find("detail").unwrap().as_string().unwrap().len(), 200_000);
}

#[test]
fn keys_are_bounded_by_what_the_parser_holds_at_once() {
    let key = "k".repeat(65535);
    let longest = format!("{{\"{}\":1}}", key);
    assert_eq!(scan_text(&longest), Verdict::Fine);
    assert!(JsonValue::parse(&longest).unwrap().find(&key).is_some());
    let longer = format!("{{\"{}k\":1}}", key);
    assert_eq!(scan_text(&longer), Verdict::BeyondLimits);
    assert_eq!(JsonValue::parse(&longer).err(), Some(JsonError::Limits));

    let half = "h".repeat(40_000);
    let nested = format!("{{\"{}\":{{\"{}\":1}}}}", half, half);
    assert_eq!(scan_text(&nested), Verdict::BeyondLimits);
    let side_by_side = format!("{{\"a{}\":1,\"b{}\":{{\"c\":2}}}}", half, half);
    assert_eq!(scan_text(&side_by_side), Verdict::Fine);
    assert!(JsonValue::parse(&side_by_side).is_ok());
    let in_array = format!("[\"{}\",\"{}\",{{\"a\":[1]}}]", half, half);
    assert_eq!(scan_text(&in_array), Verdict::Fine);
}

#[test]
fn exponent_counts_only_in_a_number_and_without_leading_zeros() {
    assert_eq!(scan_text("1e0000000001"), Verdict::Fine);
    match JsonValue::parse("1e0000000001").unwrap() {
        JsonValue::Float(number) => assert_eq!(number.as_str(), "10"),
        other => panic!("{:?}", other),
    }
    assert_eq!(scan_text("1E+000000000000123456789"), Verdict::Fine);
    assert_eq!(scan_text("[1, 2e-123456789]"), Verdict::Fine);
    assert_eq!(scan_text("1e1234567890"), Verdict::BeyondLimits);
    assert_eq!(scan_text("[1, 2E+1234567890]"), Verdict::BeyondLimits);
    assert_eq!(JsonValue::parse("1e-1234567890").err(), Some(JsonError::Limits));
    let text = "{\"errors\":[{\"detail\":\"e1234567890\"}]}";
    assert_eq!(scan_text(text), Verdict::Fine);
    assert!(JsonValue::parse(text).is_ok());
}

#[test]
fn long_numbers_without_an_exponent_are_read() {
    assert!(matches!(JsonValue::parse("18446744073709551615"), Ok(JsonValue::Unsigned(u64::MAX))));
    assert!(matches!(JsonValue::parse("-9223372036854775808"), Ok(JsonValue::Signed(i64::MIN))));
    assert!(JsonValue::parse("{\"id\": 12345678901234567890}").is_ok());
    assert!(JsonValue::parse("1.12345678901234567890").is_ok());
    assert!(JsonValue::parse("true").is_ok());
    assert!(JsonValue::parse("[false, 1234567890123]").is_ok());
}

#[test]
fn float_text_takes_numbers_only() {
    for text in ["0", "-0", "1.5", "-0.25", "2000", "1000000000000000000000", "inf", "-inf", "NaN"] {
        assert_eq!(FloatText::new(text).unwrap().as_str(), text);
    }
    for text in ["", "-", ".", "1.", ".5", "1e5", "+1", "1.5.2", "no number", "in", "nan", "--1", "1 "] {
        assert!(FloatText::new(text).is_none(), "{}", text);
    }
}

#[test]
fn float_of_the_parser_is_a_float_text_and_is_written_back() {
    let doc = JsonValue::parse("[1.5, 2e3, -0.0, 1e-7, 1e999, -1e999, 0e999, 1e21]").unwrap();
    let items = doc.as_array().unwrap();
    assert_eq!(items.len(), 8);
    for item in items {
        match item {
            JsonValue::Float(number) => assert!(FloatText::new(number.as_str()).is_some(), "{:?}", number),
            other => panic!("{:?}", other),
        }
    }
    assert_eq!(
        doc.render().unwrap(),
        "[1.5,2000.0,-0.0,0.0000001,null,null,null,1000000000000000000000.0]"
    );
    assert_eq!(JsonValue::Float(FloatText::new("2.25").unwrap()).render().unwrap(), "2.25");
}

fn nested(levels: usize) -> JsonValue {
    let mut doc = JsonValue::Null;
    for _ in 0..levels {
        doc = JsonValue::array(vec![doc]);
    }
    doc
}

#[test]
fn nesting_of_a_document_is_counted_in_levels() {
    assert!(JsonValue::Null.nests_within(0));
    assert!(JsonValue::string("x").nests_within(0));
    assert!(!JsonValue::array(vec![]).nests_within(0));
    assert!(JsonValue::array(vec![]).nests_within(1));
    assert!(!JsonValue::object(vec![("a".to_string(), JsonValue::array(vec![]))]).nests_within(1));
    assert!(JsonValue::object(vec![("a".to_string(), JsonValue::array(vec![]))]).nests_within(2));
    assert!(nested(5).nests_within(5));
    assert!(!nested(5).nests_within(4));
    let uneven = JsonValue::array(vec![nested(1), nested(3), nested(2)]);
    assert!(uneven.nests_within(4));
    assert!(!uneven.nests_within(3));
}

#[test]
fn document_is_written_up_to_the_bound_of_nesting() {
    let deepest = nested(128).render().unwrap();
    assert_eq!(deepest, format!("{}null{}", "[".repeat(128), "]".repeat(128)));
    assert!(nested(129).render().is_none());
    assert_eq!(nested(3).render_shallow(), "[[[null]]]");
}
