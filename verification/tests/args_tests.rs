use ankhimate_editor::args::{ArgError, Args, JsonValue, Resolver};
use ankhimate_editor::ids::{AnimationId, BoneId, SlotId};

fn object(members: Vec<(&str, JsonValue)>) -> Args {
    Args::from_json(JsonValue::Object(
        members
            .into_iter()
            .map(|(k, v)| (k.to_string(), v))
            .collect(),
    ))
}

fn string(s: &str) -> JsonValue {
    JsonValue::String(s.to_string())
}

fn number(text: &str) -> JsonValue {
    JsonValue::Number(text.to_string())
}

/// A rig holding the bones `root` and `spine`, under fresh keys.
fn rig() -> Resolver {
    Resolver::new(
        vec![
            (BoneId(1), "root".to_string()),
            (BoneId(2), "spine".to_string()),
        ],
        Vec::new(),
        Vec::new(),
    )
}

#[test]
fn a_missing_argument_names_itself() {
    let args = object(vec![("parent", string("root"))]);
    assert_eq!(args.str("name"), Err(ArgError::Missing("name".into())));
}

#[test]
fn a_wrong_type_says_what_it_wanted_and_what_it_got() {
    let args = object(vec![("name", number("42"))]);
    assert_eq!(
        args.str("name"),
        Err(ArgError::WrongType {
            key: "name".into(),
            wanted: "a string",
            got: "a number",
        })
    );
}

#[test]
fn a_default_covers_absence_but_not_a_wrong_type() {
    let args = object(vec![("y", string("up"))]);
    assert_eq!(args.opt_number_text("x"), Ok(None));
    assert!(
        args.opt_number_text("y").is_err(),
        "wrong type is not a default"
    );
    assert_eq!(args.bool_or("x", true), Ok(true));
    assert!(
        args.bool_or("y", true).is_err(),
        "wrong type is not a default"
    );
}

#[test]
fn null_reads_as_absent() {
    let args = object(vec![("parent", JsonValue::Null)]);
    assert_eq!(args.opt_str("parent"), Ok(None));
    assert_eq!(args.opt_number_text("parent"), Ok(None));
    assert_eq!(args.bool_or("parent", false), Ok(false));
    assert_eq!(args.str("parent"), Err(ArgError::Missing("parent".into())));
}

#[test]
fn a_name_resolves_to_the_bone_it_names() {
    let resolver = rig();
    let args = object(vec![("bone", string("spine"))]);

    let id = resolver.bone(&args, "bone").expect("resolves");
    assert_eq!(id, BoneId(2));
}

#[test]
fn a_name_the_rig_lacks_is_an_error_not_a_silent_none() {
    let resolver = rig();
    let args = object(vec![("bone", string("tail"))]);

    assert_eq!(
        resolver.bone(&args, "bone"),
        Err(ArgError::Unresolved {
            key: "bone".into(),
            kind: "bone",
            name: "tail".into(),
        })
    );
}

#[test]
fn an_absent_optional_bone_is_none_but_a_bad_one_still_errors() {
    let resolver = rig();

    let absent = object(vec![]);
    assert_eq!(resolver.opt_bone(&absent, "parent"), Ok(None));

    let wrong = object(vec![("parent", string("nope"))]);
    assert!(resolver.opt_bone(&wrong, "parent").is_err());
}

// ── Beyond the shipped tests ─────────────────────────────────────────────────

#[test]
fn every_kind_is_named_in_errors() {
    let args = object(vec![
        ("n", JsonValue::Null),
        ("b", JsonValue::Bool(true)),
        ("a", JsonValue::Array(vec![])),
        ("o", JsonValue::Object(vec![])),
    ]);
    let got = |key: &str| match args.str(key) {
        Err(ArgError::WrongType { got, .. }) => got,
        other => panic!("{other:?}"),
    };
    assert_eq!(got("b"), "a boolean");
    assert_eq!(got("a"), "an array");
    assert_eq!(got("o"), "an object");
    assert_eq!(args.bool_or("b", false), Ok(true));
    assert_eq!(
        args.opt_str("b"),
        Err(ArgError::WrongType {
            key: "b".into(),
            wanted: "a string",
            got: "a boolean",
        })
    );
}

#[test]
fn emptiness_is_null_or_an_empty_object() {
    assert!(Args::none().is_empty());
    assert!(Args::default().is_empty());
    assert!(object(vec![]).is_empty());
    assert!(!object(vec![("a", JsonValue::Null)]).is_empty());
    assert!(!Args::from_json(JsonValue::Array(vec![])).is_empty());
    assert!(!Args::from_json(string("x")).is_empty());
}

#[test]
fn a_non_object_has_no_members() {
    let args = Args::from_json(JsonValue::Array(vec![string("name")]));
    assert_eq!(args.str("name"), Err(ArgError::Missing("name".into())));
}

#[test]
fn the_first_member_of_a_name_is_the_one_read() {
    let args = object(vec![("name", string("first")), ("name", string("second"))]);
    assert_eq!(args.str("name"), Ok("first"));
}

#[test]
fn slots_and_animations_resolve_by_name_too() {
    let resolver = Resolver::new(
        vec![],
        vec![(SlotId(4), "head".to_string())],
        vec![(AnimationId(9), "walk".to_string()), (AnimationId(10), "walk".to_string())],
    );
    let args = object(vec![("slot", string("head")), ("clip", string("walk"))]);
    assert_eq!(resolver.slot(&args, "slot"), Ok(SlotId(4)));
    assert_eq!(resolver.animation(&args, "clip"), Ok(AnimationId(9)), "the first of a name");
    assert_eq!(
        resolver.animation(&args, "slot"),
        Err(ArgError::Unresolved {
            key: "slot".into(),
            kind: "animation",
            name: "head".into(),
        })
    );
}

#[test]
fn error_messages_name_the_key() {
    assert_eq!(
        ArgError::Missing("name".into()).message(),
        "missing argument `name`"
    );
    assert_eq!(
        ArgError::WrongType {
            key: "name".into(),
            wanted: "a string",
            got: "a number",
        }
        .message(),
        "`name` should be a string, got a number"
    );
    assert_eq!(
        ArgError::Unresolved {
            key: "bone".into(),
            kind: "bone",
            name: "tail".into(),
        }
        .message(),
        "`bone` names a bone this rig does not have: `tail`"
    );
}

#[test]
fn a_number_is_read_as_the_text_it_was_written_in() {
    let args = object(vec![("x", number("1.75")), ("name", string("root"))]);
    assert_eq!(args.number_text("x"), Ok("1.75"));
    assert_eq!(args.opt_number_text("x"), Ok(Some("1.75")));
    assert_eq!(args.number_text("y"), Err(ArgError::Missing("y".into())));
    assert_eq!(
        args.number_text("name"),
        Err(ArgError::WrongType {
            key: "name".into(),
            wanted: "a number",
            got: "a string",
        })
    );
}
