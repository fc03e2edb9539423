use veryfi::client::HttpMethod;
use veryfi::client_factory::{create_client, create_client_with_custom_api_version};
use veryfi::json::{JsonMap, JsonValue};
use veryfi::signer::base64_round_trip;

fn make_client() -> veryfi::client::Client {
    create_client(
        "client_id".to_string(),
        "client_secret".to_string(),
        "username".to_string(),
        "api_key".to_string(),
    )
}

fn header_value(plan: &veryfi::client::RequestPlan, name: &str) -> String {
    for (n, v) in plan.headers.iter() {
        if n == name {
            return v.clone();
        }
    }
    panic!("header not found");
}

#[test]
fn test_get_documents() {
    let client = make_client();
    let plan = client.get_documents_request(1000000);
    assert_eq!(plan.method.name(), "GET");
    assert_eq!(plan.url, "https://api.veryfi.com/api/v8/partner/documents/");
    assert_eq!(plan.body, "{}");
}

#[test]
fn test_get_document() {
    let client = make_client();
    let id = "23213".to_string();
    let plan = client.get_document_request(&id, 1000000);
    assert_eq!(plan.method.name(), "GET");
    assert_eq!(plan.url, "https://api.veryfi.com/api/v8/partner/documents/23213/");
    assert_eq!(plan.body, "{\"id\":\"23213\"}");
}

#[test]
fn test_process_document() {
    let client = make_client();
    let categories: Vec<&str> = Vec::new();
    let additional_parameters = JsonMap::new();
    let file_data: Vec<u8> = vec![1, 2, 3];
    let plan = client.process_document_request(
        "receipt.jpeg",
        &file_data,
        categories,
        true,
        additional_parameters,
        1000000,
    );
    assert_eq!(plan.method.name(), "POST");
    assert_eq!(plan.url, "https://api.veryfi.com/api/v8/partner/documents/");
    let expected_body = "{\"file_name\":\"receipt.jpeg\",\"file_data\":\"AQID\",\"categories\":[\"Advertising & Marketing\",\"Automotive\",\"Bank Charges & Fees\",\"Legal & Professional Services\",\"Insurance\",\"Meals & Entertainment\",\"Office Supplies & Software\",\"Taxes & Licenses\",\"Travel\",\"Rent & Lease\",\"Repairs & Maintenance\",\"Payroll\",\"Utilities\",\"Job Supplies\",\"Grocery\"],\"auto_delete\":true}";
    assert_eq!(plan.body, expected_body);
}

#[test]
fn test_process_document_url() {
    let client = make_client();
    let categories: Vec<&str> = Vec::new();
    let additional_parameters = JsonMap::new();
    let url = "https://veryfi-testing-public.s3.us-west-2.amazonaws.com/receipt.jpg";
    let plan = client.process_document_url_request(
        url,
        categories,
        true,
        1,
        "",
        1,
        Vec::new(),
        additional_parameters,
        1000000,
    );
    assert_eq!(plan.method.name(), "POST");
    assert_eq!(plan.url, "https://api.veryfi.com/api/v8/partner/documents/");
    let expected_body = "{\"auto_delete\":true,\"boost_mode\":1,\"categories\":[],\"file_url\":\"https://veryfi-testing-public.s3.us-west-2.amazonaws.com/receipt.jpg\",\"max_pages_to_process\":1}";
    assert_eq!(plan.body, expected_body);
}

#[test]
fn test_update_document() {
    let client = make_client();
    let notes = "0123456789".to_string();
    assert_eq!(notes.len(), 10);
    let id = "49089556";
    let mut parameters = JsonMap::new();
    parameters.insert("notes".to_string(), JsonValue::Str(notes.clone()));
    let plan = client.update_document_request(id, &parameters, 1000000);
    assert_eq!(plan.method.name(), "PUT");
    assert_eq!(plan.url, "https://api.veryfi.com/api/v8/partner/documents/49089556/");
    assert_eq!(plan.body, "{\"notes\":\"0123456789\"}");
}

#[test]
fn test_delete_document() {
    let client = make_client();
    let id = "35365";
    let plan = client.delete_document_request(id, 1000000);
    assert_eq!(plan.method.name(), "DELETE");
    assert_eq!(plan.url, "https://api.veryfi.com/api/v8/partner/documents/35365/");
    assert_eq!(plan.body, "{\"id\":\"35365\"}");
}

#[test]
fn test_signature_golden_vector() {
    // Fixed secret, payload {"id":"123"} and timestamp 1000000: the
    // signature over the canonical string "timestamp:1000000,id:123".
    let client = make_client();
    let mut payload = JsonMap::new();
    payload.insert("id".to_string(), JsonValue::Str("123".to_string()));
    let signature = client.generate_signature(&payload, 1000000);
    assert_eq!(signature, "a3klFGIOvLTuPp8kafPIDT8A9WyO9ZFZ7J27ZAeHoJ8=");
}

#[test]
fn test_signature_deterministic() {
    let client = make_client();
    let mut payload = JsonMap::new();
    payload.insert("id".to_string(), JsonValue::Str("123".to_string()));
    let first = client.generate_signature(&payload, 424242);
    let second = client.generate_signature(&payload, 424242);
    assert_eq!(first, second);
}

#[test]
fn test_signature_distinct_timestamps() {
    let client = make_client();
    let mut payload = JsonMap::new();
    payload.insert("id".to_string(), JsonValue::Str("123".to_string()));
    let first = client.generate_signature(&payload, 1);
    let second = client.generate_signature(&payload, 2);
    assert_ne!(first, second);
}

#[test]
fn test_signature_header_matches_generate_signature() {
    let client = make_client();
    let mut payload = JsonMap::new();
    payload.insert("id".to_string(), JsonValue::Str("35365".to_string()));
    let expected = client.generate_signature(&payload, 1000000);
    let plan = client.delete_document_request("35365", 1000000);
    assert_eq!(header_value(&plan, "X-Veryfi-Request-Signature"), expected);
    assert_eq!(header_value(&plan, "X-Veryfi-Request-Timestamp"), "1000000");
}

#[test]
fn test_headers() {
    let client = make_client();
    let plan = client.get_documents_request(7);
    assert_eq!(plan.headers.len(), 7);
    assert_eq!(plan.headers[0].0, "User-Agent");
    assert_eq!(plan.headers[0].1, "Rust Veryfi-Rust/1.0.0");
    assert_eq!(plan.headers[1].0, "Accept");
    assert_eq!(plan.headers[1].1, "application/json");
    assert_eq!(plan.headers[2].0, "Content-Type");
    assert_eq!(plan.headers[2].1, "application/json");
    assert_eq!(plan.headers[3].0, "Client-Id");
    assert_eq!(plan.headers[3].1, "client_id");
    assert_eq!(plan.headers[4].0, "Authorization");
    assert_eq!(plan.headers[4].1, "apikey username:api_key");
    assert_eq!(plan.headers[5].0, "X-Veryfi-Request-Timestamp");
    assert_eq!(plan.headers[5].1, "7");
    assert_eq!(plan.headers[6].0, "X-Veryfi-Request-Signature");
    assert_eq!(plan.timeout_secs, 120);
}

#[test]
fn test_base64_round_trip() {
    let mut bytes: Vec<u8> = Vec::new();
    for i in 0..=255u8 {
        bytes.push(i);
    }
    let back = base64_round_trip(&bytes);
    assert_eq!(back, bytes);
}

#[test]
fn test_default_categories() {
    let client = make_client();
    let categories = client.get_categories();
    assert_eq!(categories.len(), 15);
    assert_eq!(categories[0], "Advertising & Marketing");
    assert_eq!(categories[14], "Grocery");
}

#[test]
fn test_max_pages_omitted_when_zero() {
    let client = make_client();
    let plan = client.process_document_url_request(
        "https://cdn.example.com/receipt.jpg",
        vec!["Travel"],
        false,
        0,
        "ext-7",
        0,
        Vec::new(),
        JsonMap::new(),
        1000000,
    );
    assert!(!plan.body.contains("max_pages_to_process"));
    let expected_body = "{\"auto_delete\":false,\"boost_mode\":0,\"categories\":[\"Travel\"],\"external_id\":\"ext-7\",\"file_url\":\"https://cdn.example.com/receipt.jpg\"}";
    assert_eq!(plan.body, expected_body);
}

#[test]
fn test_json_escaping() {
    let client = make_client();
    let mut parameters = JsonMap::new();
    parameters.insert(
        "notes".to_string(),
        JsonValue::Str("a\"b\\c\nd\u{1f}".to_string()),
    );
    let plan = client.update_document_request("1", &parameters, 1);
    assert_eq!(plan.body, "{\"notes\":\"a\\\"b\\\\c\\nd\\u001f\"}");
}

#[test]
fn test_negative_and_nested_values() {
    let client = make_client();
    let mut inner: Vec<(String, JsonValue)> = Vec::new();
    inner.push(("depth".to_string(), JsonValue::Int(-42)));
    let mut parameters = JsonMap::new();
    parameters.insert(
        "tags".to_string(),
        JsonValue::Arr(vec![JsonValue::Bool(false), JsonValue::Obj(inner)]),
    );
    let plan = client.update_document_request("1", &parameters, 1);
    assert_eq!(plan.body, "{\"tags\":[false,{\"depth\":-42}]}");
}

#[test]
fn test_insert_replaces_in_place() {
    let client = make_client();
    let mut parameters = JsonMap::new();
    parameters.insert("a".to_string(), JsonValue::Int(1));
    parameters.insert("b".to_string(), JsonValue::Int(2));
    parameters.insert("a".to_string(), JsonValue::Int(3));
    let plan = client.update_document_request("1", &parameters, 1);
    assert_eq!(plan.body, "{\"a\":3,\"b\":2}");
}

#[test]
fn test_body_parses_as_json() {
    let client = make_client();
    let file_data: Vec<u8> = vec![255, 0, 128];
    let plan = client.process_document_request(
        "receipt.jpeg",
        &file_data,
        Vec::new(),
        true,
        JsonMap::new(),
        1000000,
    );
    let parsed: serde_json::Value = serde_json::from_str(&plan.body).unwrap();
    assert!(parsed.is_object());
    assert_eq!(parsed.get("file_name").unwrap().as_str().unwrap(), "receipt.jpeg");
    assert_eq!(parsed.get("auto_delete").unwrap().as_bool().unwrap(), true);
    assert_eq!(
        parsed.get("categories").unwrap().as_array().unwrap().len(),
        15
    );
}

#[test]
fn test_create_client_defaults() {
    let client = make_client();
    assert_eq!(client.client_id, "client_id");
    assert_eq!(client.client_secret, "client_secret");
    assert_eq!(client.username, "username");
    assert_eq!(client.api_key, "api_key");
    assert_eq!(client.url, "https://api.veryfi.com/api/");
    assert_eq!(client.api_version, "v8");
    assert_eq!(client.api_timeout, 120);
}

#[test]
fn test_custom_api_version() {
    let client = create_client_with_custom_api_version(
        "client_id".to_string(),
        "client_secret".to_string(),
        "username".to_string(),
        "api_key".to_string(),
        "v7".to_string(),
    );
    assert_eq!(client.api_version, "v7");
    let plan = client.get_documents_request(1);
    assert_eq!(plan.url, "https://api.veryfi.com/api/v7/partner/documents/");
}

#[test]
fn test_method_names() {
    assert_eq!(HttpMethod::Get.name(), "GET");
    assert_eq!(HttpMethod::Post.name(), "POST");
    assert_eq!(HttpMethod::Put.name(), "PUT");
    assert_eq!(HttpMethod::Delete.name(), "DELETE");
}
