use actix_web_validator::error::DeserializeErrors;
use actix_web_validator::outcome::{FieldOutcome, LeafError, ValidationResult};
use actix_web_validator::ExtractError;
use validator::{ValidateRange, ValidateUrl};

#[allow(dead_code)]
struct Query {
    test: i32,
    value: i32,
}

struct QueryVisitor;

impl<'de> serde::de::Visitor<'de> for QueryVisitor {
    type Value = Query;

    fn expecting(&self, formatter: &mut std::fmt::Formatter) -> std::fmt::Result {
        formatter.write_str("struct Query")
    }

    fn visit_map<A>(self, mut map: A) -> Result<Query, A::Error>
    where
        A: serde::de::MapAccess<'de>,
    {
        let mut test: Option<i32> = None;
        let mut value: Option<i32> = None;
        while let Some(key) = map.next_key::<String>()? {
            match key.as_str() {
                "test" => test = Some(map.next_value::<i32>()?),
                "value" => value = Some(map.next_value::<i32>()?),
                _ => {
                    map.next_value::<serde::de::IgnoredAny>()?;
                }
            }
        }
        let test = test.ok_or_else(|| <A::Error as serde::de::Error>::missing_field("test"))?;
        let value = value.ok_or_else(|| <A::Error as serde::de::Error>::missing_field("value"))?;
        Ok(Query { test, value })
    }
}

impl<'de> serde::Deserialize<'de> for Query {
    fn deserialize<D>(deserializer: D) -> Result<Self, D::Error>
    where
        D: serde::Deserializer<'de>,
    {
        deserializer.deserialize_struct("Query", &["test", "value"], QueryVisitor)
    }
}

#[test]
fn test_serde_urlencoded_error_transformation() {
    let error =
        serde_urlencoded::from_str::<Query>("test=42&value=[").map_err(ExtractError::from);
    assert!(matches!(
        error,
        Err(ExtractError::Deserialize(DeserializeErrors::DeserializeQuery(_)))
    ));
}

#[test]
fn test_serde_json_error_transformation() {
    let error = serde_json::from_str::<Query>("{\"test\": 42, \"value\": null}")
        .map_err(ExtractError::from);
    assert!(matches!(
        error,
        Err(ExtractError::Deserialize(DeserializeErrors::DeserializeJson(_)))
    ));
}

#[test]
fn urlencoded_payload_that_fits_is_no_error() {
    let parsed = serde_urlencoded::from_str::<Query>("test=42&value=7").map_err(ExtractError::from);
    let query = parsed.expect("well-formed query");
    assert_eq!((query.test, query.value), (42, 7));
}

pub struct SearchParams {
    page_params: PageParams,
    redirect_results: String,
}

pub struct PageParams {
    page: u16,
    page_size: u8,
}

fn number(value: &serde_json::Value, key: &str) -> u64 {
    value.get(key).and_then(serde_json::Value::as_u64).expect("a number")
}

fn search_params(payload: &serde_json::Value) -> SearchParams {
    let page_params = payload.get("pageParams").expect("pageParams");
    SearchParams {
        page_params: PageParams {
            page: number(page_params, "page") as u16,
            page_size: number(page_params, "pageSize") as u8,
        },
        redirect_results: payload
            .get("redirectResults")
            .and_then(serde_json::Value::as_str)
            .expect("redirectResults")
            .to_owned(),
    }
}

fn range_error(min: Option<u64>, max: Option<u64>, value: u64) -> LeafError {
    let mut error = LeafError::new("range");
    if let Some(min) = min {
        error.add_param("min", &min.to_string());
    }
    if let Some(max) = max {
        error.add_param("max", &max.to_string());
    }
    error.add_param("value", &value.to_string());
    error
}

fn validate_page_params(params: &PageParams) -> Result<(), ValidationResult> {
    let mut errors = ValidationResult::new();
    if !params.page.validate_range(Some(1), None, None, None) {
        let error = range_error(Some(1), None, u64::from(params.page));
        errors.insert("page".to_owned(), FieldOutcome::Leaf(vec![error])).unwrap();
    }
    if !params.page_size.validate_range(Some(1), Some(100), None, None) {
        let error = range_error(Some(1), Some(100), u64::from(params.page_size));
        errors.insert("page_size".to_owned(), FieldOutcome::Leaf(vec![error])).unwrap();
    }
    if errors.is_empty() {
        Ok(())
    } else {
        Err(errors)
    }
}

fn validate_search_params(params: &SearchParams) -> Result<(), ValidationResult> {
    let mut errors = ValidationResult::new();
    if let Err(nested) = validate_page_params(&params.page_params) {
        errors
            .insert("page_params".to_owned(), FieldOutcome::Nested(Box::new(nested)))
            .unwrap();
    }
    if !params.redirect_results.validate_url() {
        let mut error = LeafError::new("url");
        error.add_param("value", &params.redirect_results);
        errors.insert("redirect_results".to_owned(), FieldOutcome::Leaf(vec![error])).unwrap();
    }
    if errors.is_empty() {
        Ok(())
    } else {
        Err(errors)
    }
}

fn nested<'a>(errors: &'a ValidationResult, field: &str) -> &'a ValidationResult {
    match errors.get(field) {
        Some(FieldOutcome::Nested(sub)) => sub,
        other => panic!("mismatch variant when cast to Nested: {:?}", other),
    }
}

fn leaf<'a>(errors: &'a ValidationResult, field: &str) -> &'a Vec<LeafError> {
    match errors.get(field) {
        Some(FieldOutcome::Leaf(found)) => found,
        other => panic!("mismatch variant when cast to Leaf: {:?}", other),
    }
}

#[test]
fn test_flatten_error() {
    let payload = serde_json::from_str::<serde_json::Value>(
        "{\"pageParams\":{\"page\":0,\"pageSize\":101},\"redirectResults\":\"invalid url\"}",
    )
    .map_err(ExtractError::from)
    .expect("invalid json");
    let params = search_params(&payload);
    let validation = validate_search_params(&params).unwrap_err();
    let errors = actix_web_validator::error::flatten_errors(&validation);
    assert_eq!(
        (&1u16, &leaf(nested(&validation, "page_params"), "page_size")[0]),
        errors
            .iter()
            .find(|(_, field, _)| field == "page_params.page_size")
            .map(|(indent, _, e)| (indent, *e))
            .unwrap()
    );
    assert_eq!(
        (&0u16, &leaf(&validation, "redirect_results")[0]),
        errors
            .iter()
            .find(|(_, field, _)| field == "redirect_results")
            .map(|(indent, _, e)| (indent, *e))
            .unwrap()
    );
}

#[test]
fn search_params_scenario_paths_codes_and_report() {
    let payload = serde_json::from_str::<serde_json::Value>(
        "{\"pageParams\":{\"page\":0,\"pageSize\":101},\"redirectResults\":\"invalid url\"}",
    )
    .expect("invalid json");
    let validation = validate_search_params(&search_params(&payload)).unwrap_err();
    let errors = actix_web_validator::error::flatten_errors(&validation);
    let found: Vec<(u16, &str, &str)> =
        errors.iter().map(|(depth, path, e)| (*depth, path.as_str(), e.code.as_str())).collect();
    assert_eq!(
        found,
        vec![
            (1, "page_params.page", "range"),
            (1, "page_params.page_size", "range"),
            (0, "redirect_results", "url"),
        ]
    );
    let report = actix_web_validator::render::render(&validation);
    assert_eq!(
        report,
        "page_params.page: range\npage_params.page_size: range\nredirect_results: url"
    );
    for part in ["page_params", "page_size", "range", "redirect_results", "url"] {
        assert!(report.contains(part));
    }
}

#[test]
fn valid_search_params_find_nothing() {
    let payload = serde_json::from_str::<serde_json::Value>(
        "{\"pageParams\":{\"page\":1,\"pageSize\":100},\"redirectResults\":\"https://my_page.com\"}",
    )
    .expect("invalid json");
    assert!(validate_search_params(&search_params(&payload)).is_ok());
}
