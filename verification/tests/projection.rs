use gospels::json::JsonValue;
use gospels::project::project_day;

fn jstr(s: &str) -> JsonValue {
    JsonValue::Str(s.to_string())
}

fn lecture(kind: &str, reference: &str, title: &str, content: &str) -> JsonValue {
    JsonValue::Object(vec![
        ("type".to_string(), jstr(kind)),
        ("ref".to_string(), jstr(reference)),
        ("titre".to_string(), jstr(title)),
        ("contenu".to_string(), jstr(content)),
    ])
}

fn messe(lectures: Vec<JsonValue>) -> JsonValue {
    JsonValue::Object(vec![("lectures".to_string(), JsonValue::Array(lectures))])
}

fn response(messes: Vec<JsonValue>) -> JsonValue {
    JsonValue::Object(vec![("messes".to_string(), JsonValue::Array(messes))])
}

#[test]
fn projection_filters_and_keeps_order() {
    // Five readings, three of them Gospel-typed, spread over two masses.
    let body = response(vec![
        messe(vec![
            lecture("evangile", "Jn 1", "A", "alpha"),
            lecture("psaume", "Ps 22", "X", "xi"),
            lecture("evangile", "Mt 5", "B", "beta"),
        ]),
        messe(vec![
            lecture("lecture_1", "Gn 1", "Y", "upsilon"),
            lecture("evangile", "Lc 2", "C", "gamma"),
        ]),
    ]);
    let out = project_day(&body);
    assert_eq!(out.len(), 3);
    assert_eq!(out[0].reference, "Jn 1");
    assert_eq!(out[0].title, "A");
    assert_eq!(out[0].content, "alpha");
    assert_eq!(out[1].reference, "Mt 5");
    assert_eq!(out[1].title, "B");
    assert_eq!(out[1].content, "beta");
    assert_eq!(out[2].reference, "Lc 2");
    assert_eq!(out[2].title, "C");
    assert_eq!(out[2].content, "gamma");
}

#[test]
fn projection_missing_messes_is_empty() {
    let no_messes = JsonValue::Object(vec![("autre".to_string(), jstr("x"))]);
    assert!(project_day(&no_messes).is_empty());
    let empty_object = JsonValue::Object(vec![]);
    assert!(project_day(&empty_object).is_empty());
    assert!(project_day(&JsonValue::Null).is_empty());
}

#[test]
fn projection_malformed_shapes_are_empty() {
    // "messes" present but no array.
    let messes_not_array =
        JsonValue::Object(vec![("messes".to_string(), jstr("surprise"))]);
    assert!(project_day(&messes_not_array).is_empty());
    // A mass without "lectures", one whose "lectures" is no array, and a
    // lecture that is no object: all contribute nothing.
    let body = response(vec![
        JsonValue::Object(vec![]),
        JsonValue::Object(vec![("lectures".to_string(), JsonValue::Bool(true))]),
        messe(vec![JsonValue::Number("3".to_string()), jstr("loose")]),
        JsonValue::Null,
    ]);
    assert!(project_day(&body).is_empty());
}

#[test]
fn projection_defaults_missing_fields_to_empty() {
    // A Gospel-typed lecture with no "ref" and a non-string "titre".
    let sparse = JsonValue::Object(vec![
        ("type".to_string(), jstr("evangile")),
        ("titre".to_string(), JsonValue::Number("7".to_string())),
        ("contenu".to_string(), jstr("texte")),
    ]);
    let out = project_day(&response(vec![messe(vec![sparse])]));
    assert_eq!(out.len(), 1);
    assert_eq!(out[0].reference, "");
    assert_eq!(out[0].title, "");
    assert_eq!(out[0].content, "texte");
}

#[test]
fn projection_type_must_equal_evangile_exactly() {
    let near_miss = messe(vec![
        lecture("Evangile", "r", "t", "c"),
        lecture("evangiles", "r", "t", "c"),
        lecture("", "r", "t", "c"),
    ]);
    assert!(project_day(&response(vec![near_miss])).is_empty());
}
