use cutlass_ai::schema::{compact_json, Json};

fn s(text: &str) -> Json {
    Json::Str(text.to_string())
}

fn obj(entries: Vec<(&str, Json)>) -> Json {
    Json::Object(entries.into_iter().map(|(k, v)| (k.to_string(), v)).collect())
}

#[test]
fn noise_keywords_are_stripped_at_every_depth() {
    let schema = obj(vec![
        ("$schema", s("https://json-schema.org/draft/2020-12/schema")),
        ("title", s("TrimClip")),
        ("type", s("object")),
        (
            "properties",
            obj(vec![
                ("clip", obj(vec![("type", s("integer")), ("format", s("uint64")), ("minimum", Json::Number("0".into()))])),
                ("start", obj(vec![("type", s("number")), ("format", s("double")), ("description", s(""))])),
            ]),
        ),
        ("required", Json::Array(vec![s("clip"), s("start")])),
    ]);
    let expected = obj(vec![
        ("type", s("object")),
        (
            "properties",
            obj(vec![
                ("clip", obj(vec![("type", s("integer")), ("minimum", Json::Number("0".into()))])),
                ("start", obj(vec![("type", s("number"))])),
            ]),
        ),
        ("required", Json::Array(vec![s("clip"), s("start")])),
    ]);
    assert_eq!(compact_json(schema), expected);
}

#[test]
fn single_object_all_of_collapses_and_wrapper_keys_win() {
    let schema = obj(vec![
        ("description", s("Track lane kind.")),
        (
            "allOf",
            Json::Array(vec![obj(vec![
                ("description", s("inner words")),
                ("enum", Json::Array(vec![s("video"), s("audio")])),
                ("type", s("string")),
            ])]),
        ),
    ]);
    let expected = obj(vec![
        ("description", s("Track lane kind.")),
        ("enum", Json::Array(vec![s("video"), s("audio")])),
        ("type", s("string")),
    ]);
    assert_eq!(compact_json(schema), expected);
}

#[test]
fn all_of_with_two_members_or_a_non_object_stays() {
    let two = obj(vec![("allOf", Json::Array(vec![obj(vec![]), obj(vec![])]))]);
    assert_eq!(
        compact_json(two),
        obj(vec![("allOf", Json::Array(vec![obj(vec![]), obj(vec![])]))])
    );
    let scalar = obj(vec![("allOf", Json::Array(vec![Json::Bool(true)]))]);
    assert_eq!(compact_json(scalar), obj(vec![("allOf", Json::Array(vec![Json::Bool(true)]))]));
}

#[test]
fn merged_keys_are_kept_as_merged_and_their_values_compacted() {
    // The wrapper is stripped before the merge, so a `title` arriving from
    // the inner object stays; values merged in are compacted like the rest.
    let schema = obj(vec![(
        "allOf",
        Json::Array(vec![obj(vec![
            ("title", s("Inner")),
            ("items", obj(vec![("format", s("uint8")), ("type", s("integer"))])),
        ])]),
    )]);
    let expected = obj(vec![
        ("title", s("Inner")),
        ("items", obj(vec![("type", s("integer"))])),
    ]);
    assert_eq!(compact_json(schema), expected);
}

#[test]
fn scalars_and_non_empty_descriptions_pass_through() {
    assert_eq!(compact_json(Json::Null), Json::Null);
    assert_eq!(compact_json(Json::Number("1.5".into())), Json::Number("1.5".into()));
    let described = obj(vec![("description", s("Seconds."))]);
    assert_eq!(compact_json(described), obj(vec![("description", s("Seconds."))]));
}
