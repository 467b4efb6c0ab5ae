use acs_client::json::JsonValue;
use acs_client::parameter_value::{decimal_string, parse_u32, ParameterValue};
use acs_client::request::add_delete_object::AddDeleteObject;
use acs_client::request::download_command::DownloadCommand;
use acs_client::request::get_parameter_values::GetParameterValues;
use acs_client::request::refresh_object::RefreshObject;
use acs_client::request::set_parameter_values::SetParameterValues;
use acs_client::request::simple_command::SimpleCommand;
use acs_client::util::accessor::{
    unset_acs_device_id, unset_parameter_value, unset_str, unset_vec_parameter_value, unset_vec_str,
};

fn s(t: &str) -> String {
    t.to_string()
}

fn pair(j: &JsonValue) -> (String, String) {
    match j {
        JsonValue::Array(items) => {
            assert_eq!(items.len(), 2);
            let name = match &items[0] {
                JsonValue::Str(n) => n.clone(),
                other => panic!("name is not a string: {:?}", other),
            };
            let value = match &items[1] {
                JsonValue::Bool(b) => format!("bool:{}", b),
                JsonValue::Number(t) => format!("number:{}", t),
                JsonValue::Str(t) => format!("string:{}", t),
                other => panic!("unexpected value: {:?}", other),
            };
            (name, value)
        }
        other => panic!("not an array: {:?}", other),
    }
}

fn fields(j: &JsonValue) -> Vec<(String, String)> {
    match j {
        JsonValue::Object(m) => m
            .iter()
            .map(|(k, v)| {
                let text = match v {
                    JsonValue::Str(t) => t.clone(),
                    JsonValue::Array(items) => format!("array of {}", items.len()),
                    other => format!("{:?}", other),
                };
                (k.clone(), text)
            })
            .collect(),
        other => panic!("not an object: {:?}", other),
    }
}

#[test]
fn boolean_entry_serializes_as_json_bool() {
    let p = ParameterValue::new("X", "true", "xsd:boolean");
    assert_eq!(pair(&p.to_json()), (s("X"), s("bool:true")));
    let p = ParameterValue::new("X", "false", "xsd:boolean");
    assert_eq!(pair(&p.to_json()), (s("X"), s("bool:false")));
}

#[test]
fn unparsable_boolean_falls_back_to_string() {
    let p = ParameterValue::new("X", "yes", "xsd:boolean");
    assert_eq!(pair(&p.to_json()), (s("X"), s("string:yes")));
}

#[test]
fn unsigned_entry_serializes_as_number() {
    let p = ParameterValue::new("N", "42", "xsd:unsignedInt");
    assert_eq!(pair(&p.to_json()), (s("N"), s("number:42")));
    let p = ParameterValue::new("N", "+007", "xsd:unsignedInt");
    assert_eq!(pair(&p.to_json()), (s("N"), s("number:7")));
}

#[test]
fn unparsable_unsigned_falls_back_to_string() {
    for bad in ["-1", "4294967296", "", "+", "1x"] {
        let p = ParameterValue::new("N", bad, "xsd:unsignedInt");
        assert_eq!(pair(&p.to_json()), (s("N"), format!("string:{}", bad)));
    }
}

#[test]
fn other_types_serialize_as_string() {
    let p = ParameterValue::new("S", "true", "xsd:string");
    assert_eq!(pair(&p.to_json()), (s("S"), s("string:true")));
    let p = ParameterValue::new("S", "12", "xsd:int");
    assert_eq!(pair(&p.to_json()), (s("S"), s("string:12")));
}

#[test]
fn parse_u32_follows_std() {
    for t in ["0", "42", "+42", "007", "4294967295", "-0", "", "+", " 1", "4294967296", "99999999999999999999"] {
        assert_eq!(parse_u32(&s(t)), t.parse::<u32>().ok(), "text {:?}", t);
    }
}

#[test]
fn decimal_string_is_shortest_form() {
    for n in [0u32, 7, 10, 42, 1000, 4294967295] {
        assert_eq!(decimal_string(n), n.to_string());
    }
}

#[test]
fn to_value_lists_three_parts() {
    let p = ParameterValue::new("a", "b", "c");
    assert_eq!(p.to_value(), vec![s("a"), s("b"), s("c")]);
}

#[test]
fn set_parameter_values_payload() {
    let req = SetParameterValues::new(vec![
        ParameterValue::new("X", "true", "xsd:boolean"),
        ParameterValue::new("Y", "5", "xsd:unsignedInt"),
    ]);
    assert_eq!(req.name, s("setParameterValues"));
    let j = req.to_json();
    assert_eq!(fields(&j), vec![(s("name"), s("setParameterValues")), (s("parameter_values"), s("array of 2"))]);
    match &j {
        JsonValue::Object(m) => match &m[1].1 {
            JsonValue::Array(items) => {
                assert_eq!(pair(&items[0]), (s("X"), s("bool:true")));
                assert_eq!(pair(&items[1]), (s("Y"), s("number:5")));
            }
            other => panic!("{:?}", other),
        },
        other => panic!("{:?}", other),
    }
}

#[test]
fn command_payloads() {
    assert_eq!(fields(&AddDeleteObject::new(true, "Obj.").to_json()), vec![(s("name"), s("addObject")), (s("object_name"), s("Obj."))]);
    assert_eq!(fields(&AddDeleteObject::new(false, "Obj.1.").to_json()), vec![(s("name"), s("deleteObject")), (s("object_name"), s("Obj.1."))]);
    assert_eq!(fields(&RefreshObject::new("Device.").to_json()), vec![(s("name"), s("refreshObject")), (s("object_name"), s("Device."))]);
    assert_eq!(fields(&DownloadCommand::new("fw.bin").to_json()), vec![(s("name"), s("download")), (s("file"), s("fw.bin"))]);
    assert_eq!(fields(&SimpleCommand::new("reboot").to_json()), vec![(s("name"), s("reboot"))]);
    let g = GetParameterValues::new(vec![s("A"), s("B")]);
    assert_eq!(g.name, s("getParameterNames"));
    assert_eq!(fields(&g.to_json()), vec![(s("name"), s("getParameterNames")), (s("parameter_names"), s("array of 2"))]);
}

#[test]
fn unset_defaults_are_empty() {
    assert_eq!(unset_str(), s(""));
    assert!(unset_vec_str().is_empty());
    assert_eq!(unset_parameter_value(), ParameterValue::new("", "", ""));
    assert!(unset_vec_parameter_value().is_empty());
    let id = unset_acs_device_id();
    assert_eq!((id.manufacturer, id.oui, id.product_class, id.serial_number), (s(""), s(""), s(""), s("")));
}
