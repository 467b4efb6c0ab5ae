use acs_client::connection::{
    check_status, device_tree_from_response, AcsConnection, AcsError, AcsType, HttpMethod,
    HttpRequest, RequestBody,
};
use acs_client::json::JsonValue;
use acs_client::parameter_value::ParameterValue;

fn s(t: &str) -> String {
    t.to_string()
}

fn genie() -> AcsConnection {
    AcsConnection::new(AcsType::GenieAcs, s("http://acs:7557"))
}

fn ok(r: Result<HttpRequest, AcsError>) -> HttpRequest {
    r.expect("request built")
}

#[test]
fn new_connection_has_no_debug_output() {
    let c = genie();
    assert_eq!(c.addr, s("http://acs:7557"));
    assert_eq!(c.acs_type, AcsType::GenieAcs);
    assert!(!c.debug_log);
}

#[test]
fn unknown_server_kind_is_refused() {
    let c = AcsConnection::new(AcsType::Unknown, s("http://acs"));
    assert_eq!(c.list_devices_request().unwrap_err(), AcsError::UnknownAcsType);
    assert_eq!(c.reboot_request(s("d")).unwrap_err(), AcsError::UnknownAcsType);
    assert_eq!(c.upload_file_request("f", "t", "o", "p", "v", vec![1]).unwrap_err(), AcsError::UnknownAcsType);
}

#[test]
fn list_devices_request_shape() {
    let q = ok(genie().list_devices_request());
    assert_eq!(q.method, HttpMethod::Get);
    assert_eq!(q.url, s("http://acs:7557/devices"));
    assert!(matches!(q.body, RequestBody::Empty));
}

#[test]
fn device_id_is_percent_encoded() {
    let q = ok(genie().reboot_request(s("00A0C9-Box 1/x~é")));
    assert_eq!(q.method, HttpMethod::Post);
    assert_eq!(q.url, s("http://acs:7557/devices/00A0C9-Box%201%2Fx~%C3%A9/tasks?connection_request"));
}

#[test]
fn task_requests_carry_payloads() {
    let c = genie();
    let q = ok(c.factory_reset_request(s("d1")));
    match q.body {
        RequestBody::Json(JsonValue::Object(m)) => {
            assert_eq!(m.len(), 1);
            assert_eq!(m[0].0, s("name"));
            assert!(matches!(&m[0].1, JsonValue::Str(n) if n == "factoryReset"));
        }
        other => panic!("{:?}", other),
    }
    let q = ok(c.set_parameter_values_request(s("d1"), vec![ParameterValue::new("X", "true", "xsd:boolean")]));
    assert_eq!(q.url, s("http://acs:7557/devices/d1/tasks?connection_request"));
    assert!(matches!(q.body, RequestBody::Json(JsonValue::Object(_))));
    for q in [
        ok(c.refresh_object_request(s("d1"), "Device.")),
        ok(c.add_del_object_request(s("d1"), true, s("Obj."))),
        ok(c.download_request(s("d1"), s("fw.bin"))),
    ] {
        assert_eq!(q.method, HttpMethod::Post);
        assert_eq!(q.url, s("http://acs:7557/devices/d1/tasks?connection_request"));
    }
}

#[test]
fn query_request_joins_names() {
    let q = ok(genie().get_parameter_values_request(s("a b"), vec![s("Device.A"), s("Device.B")]));
    assert_eq!(q.method, HttpMethod::Get);
    assert_eq!(
        q.url,
        s("http://acs:7557/devices?query=%7B%22_id%22%3A%22a%20b%22%7D&projection=Device.A,Device.B")
    );
}

#[test]
fn device_and_tag_requests() {
    let c = genie();
    let q = ok(c.del_device_request(s("d1")));
    assert_eq!((q.method, q.url), (HttpMethod::Delete, s("http://acs:7557/devices/d1")));
    let q = ok(c.add_del_tag_request(s("d1"), true, s("lab")));
    assert_eq!((q.method, q.url), (HttpMethod::Post, s("http://acs:7557/devices/d1/tags/lab")));
    let q = ok(c.add_del_tag_request(s("d1"), false, s("lab")));
    assert_eq!(q.method, HttpMethod::Delete);
}

#[test]
fn upload_request_has_headers_and_bytes() {
    let q = ok(genie().upload_file_request("fw.bin", "1 Firmware Upgrade Image", "00A0C9", "Box", "1.2", vec![1, 2, 3]));
    assert_eq!((q.method, q.url.clone()), (HttpMethod::Put, s("http://acs:7557/files/fw.bin")));
    assert_eq!(
        q.headers,
        vec![
            (s("fileType"), s("1 Firmware Upgrade Image")),
            (s("oui"), s("00A0C9")),
            (s("productClass"), s("Box")),
            (s("version"), s("1.2")),
        ]
    );
    assert!(matches!(q.body, RequestBody::Bytes(ref b) if b == &vec![1u8, 2, 3]));
}

#[test]
fn status_outside_success_range_is_an_error() {
    assert_eq!(check_status(200), Ok(()));
    assert_eq!(check_status(299), Ok(()));
    assert_eq!(check_status(199), Err(AcsError::HttpStatus(199)));
    assert_eq!(check_status(404), Err(AcsError::HttpStatus(404)));
}

#[test]
fn response_tree_holds_device() {
    let device = JsonValue::Object(vec![(
        s("DeviceInfo"),
        JsonValue::Object(vec![(
            s("Manufacturer"),
            JsonValue::Object(vec![
                (s("_value"), JsonValue::Str(s("Acme"))),
                (s("_type"), JsonValue::Str(s("xsd:string"))),
            ]),
        )]),
    )]);
    let answer = JsonValue::Array(vec![JsonValue::Object(vec![(s("_id"), JsonValue::Str(s("d1"))), (s("Device"), device)])]);
    let root = device_tree_from_response(&answer).expect("tree");
    assert_eq!(root.subnodes.len(), 1);
    let m = root
        .get_subnode("Device")
        .and_then(|d| d.get_subnode("DeviceInfo"))
        .and_then(|d| d.get_subnode("Manufacturer"))
        .expect("path");
    assert_eq!((m.value, m.value_type, m.writable), (s("Acme"), s("xsd:string"), false));
}

#[test]
fn response_without_device_is_bad() {
    assert_eq!(device_tree_from_response(&JsonValue::Array(vec![])).unwrap_err(), AcsError::BadResponse);
    let no_device = JsonValue::Array(vec![JsonValue::Object(vec![(s("_id"), JsonValue::Str(s("d1")))])]);
    assert_eq!(device_tree_from_response(&no_device).unwrap_err(), AcsError::BadResponse);
    let not_object = JsonValue::Array(vec![JsonValue::Str(s("d1"))]);
    assert_eq!(device_tree_from_response(&not_object).unwrap_err(), AcsError::BadResponse);
}

#[test]
fn non_array_response_is_a_decode_error() {
    for answer in [
        JsonValue::Null,
        JsonValue::Object(vec![(s("Device"), JsonValue::Object(vec![]))]),
        JsonValue::Str(s("[]")),
    ] {
        assert!(matches!(device_tree_from_response(&answer), Err(AcsError::Decode(_))));
    }
}

#[test]
fn upload_with_invalid_header_value_is_refused() {
    let c = genie();
    assert_eq!(c.upload_file_request("f", "bad\nline", "o", "p", "v", vec![]).unwrap_err(), AcsError::InvalidHeaderValue);
    assert_eq!(c.upload_file_request("f", "t", "o", "p", "v\u{7f}", vec![]).unwrap_err(), AcsError::InvalidHeaderValue);
    assert!(c.upload_file_request("f", "tab\there", "o", "p", "caf\u{e9}", vec![]).is_ok());
    let other = AcsConnection::new(AcsType::Unknown, s("http://acs"));
    assert_eq!(other.upload_file_request("f", "bad\nline", "o", "p", "v", vec![]).unwrap_err(), AcsError::UnknownAcsType);
}
