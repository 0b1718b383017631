use gospels::api::request_url;
use gospels::dates::Date;
use gospels::json::JsonValue;
use gospels::output::WritePlan;
use gospels::output::assemble_month;
use gospels::output::day_file_content;
use gospels::output::day_file_name;
use gospels::output::month_file_name;
use gospels::output::plan_write;
use gospels::project::Reading;
use gospels::project::project_day;

fn reading(reference: &str, title: &str, content: &str) -> Reading {
    Reading {
        reference: reference.to_string(),
        title: title.to_string(),
        content: content.to_string(),
    }
}

fn empty_day() -> JsonValue {
    JsonValue::Object(vec![("messes".to_string(), JsonValue::Array(vec![]))])
}

#[test]
fn url_is_template_with_date_substituted() {
    let d = Date { year: 2024, month: 3, day: 5 };
    assert_eq!(request_url(&d), "https://api.aelf.org/v1/messes/2024-03-05/afrique");
    let d2 = Date { year: 987, month: 12, day: 1 };
    assert_eq!(request_url(&d2), "https://api.aelf.org/v1/messes/0987-12-01/afrique");
}

#[test]
fn file_names_follow_the_date() {
    assert_eq!(day_file_name(&Date { year: 2024, month: 3, day: 5 }), "2024-03-05.json");
    assert_eq!(month_file_name(2024, 3), "2024-03.json");
}

#[test]
fn existing_file_is_skipped() {
    assert_eq!(plan_write(true), WritePlan::Skip);
    assert_eq!(plan_write(false), WritePlan::Write);
}

#[test]
fn day_mode_second_run_skips() {
    // First run: the target is absent, the day is written. Second run on the
    // same date: the file the first run left is present, so nothing is
    // written and no error arises.
    let first_run = plan_write(false);
    assert_eq!(first_run, WritePlan::Write);
    let second_run = plan_write(true);
    assert_eq!(second_run, WritePlan::Skip);
}

#[test]
fn day_file_exact_text() {
    let d = Date { year: 2024, month: 1, day: 2 };
    let rs = vec![reading("Jn 1, 1-5", "Prologue", "Au commencement")];
    assert_eq!(
        day_file_content(&d, &rs),
        "{\"2024-01-02\":[{\"ref\":\"Jn 1, 1-5\",\"titre\":\"Prologue\",\"contenu\":\"Au commencement\"}]}"
    );
}

#[test]
fn day_file_empty_readings() {
    let d = Date { year: 2024, month: 1, day: 1 };
    assert_eq!(day_file_content(&d, &vec![]), "{\"2024-01-01\":[]}");
}

#[test]
fn day_file_escapes_special_characters() {
    let d = Date { year: 2024, month: 5, day: 6 };
    let rs = vec![reading("a\"b", "c\\d", "e\nf\tg\u{1}h")];
    assert_eq!(
        day_file_content(&d, &rs),
        "{\"2024-05-06\":[{\"ref\":\"a\\\"b\",\"titre\":\"c\\\\d\",\"contenu\":\"e\\nf\\tg\\u0001h\"}]}"
    );
}

#[test]
fn day_file_is_valid_json() {
    let d = Date { year: 2024, month: 5, day: 6 };
    let rs = vec![reading("Mc 1", "Début — l'Évangile", "«\u{a0}Voici\u{a0}»\ndeux lignes")];
    let text = day_file_content(&d, &rs);
    let parsed: serde_json::Value = serde_json::from_str(&text).unwrap();
    let arr = parsed.get("2024-05-06").unwrap().as_array().unwrap();
    assert_eq!(arr.len(), 1);
    assert_eq!(arr[0].get("ref").unwrap().as_str().unwrap(), "Mc 1");
    assert_eq!(arr[0].get("titre").unwrap().as_str().unwrap(), "Début — l'Évangile");
    assert_eq!(
        arr[0].get("contenu").unwrap().as_str().unwrap(),
        "«\u{a0}Voici\u{a0}»\ndeux lignes"
    );
}

#[test]
fn month_file_has_every_day_in_order() {
    // February 2023: 28 days, every fetch succeeded with an empty response.
    let outcomes: Vec<Option<JsonValue>> = (0..28).map(|_| Some(empty_day())).collect();
    let text = assemble_month(2023, 2, &outcomes).unwrap();
    let mut expected = String::from("{");
    for day in 1..=28 {
        if day > 1 {
            expected.push(',');
        }
        expected.push_str(&format!("\"2023-02-{:02}\":[]", day));
    }
    expected.push('}');
    assert_eq!(text, expected);
}

#[test]
fn month_file_carries_projected_readings() {
    let gospel = JsonValue::Object(vec![
        ("type".to_string(), JsonValue::Str("evangile".to_string())),
        ("ref".to_string(), JsonValue::Str("Lc 2".to_string())),
        ("titre".to_string(), JsonValue::Str("T".to_string())),
        ("contenu".to_string(), JsonValue::Str("C".to_string())),
    ]);
    let one_mass = JsonValue::Object(vec![(
        "messes".to_string(),
        JsonValue::Array(vec![JsonValue::Object(vec![(
            "lectures".to_string(),
            JsonValue::Array(vec![gospel]),
        )])]),
    )]);
    assert_eq!(project_day(&one_mass).len(), 1);
    let mut outcomes: Vec<Option<JsonValue>> = (0..29).map(|_| Some(empty_day())).collect();
    outcomes[1] = Some(one_mass);
    let text = assemble_month(2024, 2, &outcomes).unwrap();
    assert!(text.contains(
        "\"2024-02-02\":[{\"ref\":\"Lc 2\",\"titre\":\"T\",\"contenu\":\"C\"}]"
    ));
    let parsed: serde_json::Value = serde_json::from_str(&text).unwrap();
    assert_eq!(parsed.as_object().unwrap().len(), 29);
}

#[test]
fn month_aborts_on_one_failed_day() {
    // June has 30 days; the fetch for day 15 failed. No text may be
    // produced, so no partial month file could ever be written.
    let outcomes: Vec<Option<JsonValue>> = (0..30)
        .map(|i| if i == 14 { None } else { Some(empty_day()) })
        .collect();
    assert!(assemble_month(2023, 6, &outcomes).is_none());
}
