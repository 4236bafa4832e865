use tuna_server::docs::{generate_docs, json_outcome, yaml_outcome, DocFormat};
use tuna_server::error::ApiError;
use utoipa::openapi::{Info, OpenApi, Paths};

fn document() -> OpenApi {
    OpenApi::new(Info::new("tuna", "0.1.0"), Paths::new())
}

#[test]
fn formats_are_read_whatever_the_case() {
    assert_eq!(DocFormat::from_param("json"), DocFormat::JSON);
    assert_eq!(DocFormat::from_param("JSON"), DocFormat::JSON);
    assert_eq!(DocFormat::from_param("prettyjson"), DocFormat::PrettyJSON);
    assert_eq!(DocFormat::from_param("PrettyJson"), DocFormat::PrettyJSON);
    assert_eq!(DocFormat::from_param("yaml"), DocFormat::YAML);
    assert_eq!(DocFormat::from_param("Yaml"), DocFormat::YAML);
}

#[test]
fn unknown_formats_are_unsupported() {
    for text in ["", "yml", "xml", "json ", "pretty json", "unsupported", "jso"] {
        assert_eq!(DocFormat::from_param(text), DocFormat::Unsupported);
    }
}

#[test]
fn unsupported_format_is_refused() {
    assert_eq!(
        generate_docs(&DocFormat::Unsupported, &document()),
        Err(ApiError::Unsupported("Error: Format Unsupported".to_string()))
    );
}

#[test]
fn each_format_goes_to_its_writer() {
    let doc = document();
    let json = generate_docs(&DocFormat::JSON, &doc).unwrap();
    let pretty = generate_docs(&DocFormat::PrettyJSON, &doc).unwrap();
    let yaml = generate_docs(&DocFormat::YAML, &doc).unwrap();
    assert_eq!(json, doc.to_json().unwrap());
    assert_eq!(pretty, doc.to_pretty_json().unwrap());
    assert_eq!(yaml, doc.to_yaml().unwrap());
    assert_eq!(json, r#"{"openapi":"3.0.3","info":{"title":"tuna","version":"0.1.0"},"paths":{}}"#);
    assert!(pretty.contains("\n  \"info\": {"));
    assert!(yaml.starts_with("openapi: 3.0.3\n"));
    assert_ne!(json, pretty);
}

#[test]
fn writer_failures_become_serde_errors() {
    assert_eq!(json_outcome(Ok("{}".to_string())), Ok("{}".to_string()));
    assert_eq!(yaml_outcome(Ok("a: 1".to_string())), Ok("a: 1".to_string()));
    let failure = serde_json::from_str::<serde_json::Value>("[").unwrap_err();
    let text = failure.to_string();
    assert_eq!(json_outcome(Err(failure)), Err(ApiError::SerdeError(format!("Serde JSON Error: {text}"))));
    let failure = serde_yaml::from_str::<serde_yaml::Value>("a: [").unwrap_err();
    let text = failure.to_string();
    assert_eq!(yaml_outcome(Err(failure)), Err(ApiError::SerdeError(format!("Serde YAML Error: {text}"))));
}
