use vstd::prelude::*;
use vstd::string::StringSliceAdditionalSpecFns;
use vstd::utf8::encode_utf8;

use crate::data_node::DataNode;
use crate::json::{JsonModel, JsonValue, member, find_member};
use crate::parameter_value::ParameterValue;
use crate::parse::{container, parsed};
use crate::request::add_delete_object::AddDeleteObject;
use crate::request::download_command::DownloadCommand;
use crate::request::refresh_object::RefreshObject;
use crate::request::set_parameter_values::{SetParameterValues, parameter_entry};
use crate::request::simple_command::SimpleCommand;

verus! {

broadcast use vstd::std_specs::vec::group_vec_axioms, vstd::seq::group_seq_axioms;

/// The kind of server a connection talks to.
#[derive(Clone, Copy, Debug, PartialEq, Eq, Structural)]
pub enum AcsType {
    GenieAcs,
    Unknown,
}

/// The HTTP verb of a request.
#[derive(Clone, Copy, Debug, PartialEq, Eq, Structural)]
pub enum HttpMethod {
    Get,
    Post,
    Put,
    Delete,
}

/// What a request carries.
#[derive(Debug)]
pub enum RequestBody {
    Empty,
    Json(JsonValue),
    Bytes(Vec<u8>),
}

/// The model of a request body.
pub enum BodyModel {
    Empty,
    Json(JsonModel),
    Bytes(Seq<u8>),
}

impl View for RequestBody {
    type V = BodyModel;

    open spec fn view(&self) -> BodyModel {
        match self {
            RequestBody::Empty => BodyModel::Empty,
            RequestBody::Json(j) => BodyModel::Json(j@),
            RequestBody::Bytes(b) => BodyModel::Bytes(b@),
        }
    }
}

/// A request to send to the server.
#[derive(Debug)]
pub struct HttpRequest {
    pub method: HttpMethod,
    pub url: String,
    pub headers: Vec<(String, String)>,
    pub body: RequestBody,
}

/// Why an exchange with the server failed.
#[derive(Clone, Debug, PartialEq, Eq)]
pub enum AcsError {
    /// The connection is not of a kind this client can talk to.
    UnknownAcsType,
    /// The request could not be sent or its answer not read.
    Transport(String),
    /// The server answered with a status outside the success range.
    HttpStatus(u16),
    /// The answer was not a JSON document of the expected shape.
    Decode(String),
    /// A header value of a request holds a byte that headers cannot carry.
    InvalidHeaderValue,
    /// The answer did not describe the device asked for.
    BadResponse,
}

/// A connection to an auto configuration server.
#[derive(Clone, Debug, PartialEq, Eq)]
pub struct AcsConnection {
    pub addr: String,
    pub acs_type: AcsType,
    pub debug_log: bool,
}

/// Whether a byte stands for itself in a percent-encoded text: ASCII
/// letters and digits, and `-`, `.`, `_`, `~`.
pub open spec fn is_unreserved(b: u8) -> bool {
    (0x30 <= b <= 0x39) || (0x41 <= b <= 0x5a) || (0x61 <= b <= 0x7a) || b == 0x2d || b == 0x2e
        || b == 0x5f || b == 0x7e
}

/// The upper-case hexadecimal digit of `d`, below 16.
pub open spec fn hex_digit(d: u8) -> char {
    if d < 10 {
        ((0x30 + d) as u8) as char
    } else {
        ((0x37 + d) as u8) as char
    }
}

/// Bytes percent-encoded: each byte but the unreserved ones becomes `%` and
/// two upper-case hexadecimal digits.
pub open spec fn percent_encoded(bytes: Seq<u8>) -> Seq<char>
    decreases bytes.len(),
{
    if bytes.len() == 0 {
        Seq::empty()
    } else {
        let b = bytes.last();
        percent_encoded(bytes.drop_last()) + if is_unreserved(b) {
            seq![b as char]
        } else {
            seq!['%', hex_digit(b / 16), hex_digit(b % 16)]
        }
    }
}

/// Relies on urlencoding::encode: it percent-encodes the UTF-8 bytes of its
/// argument, keeping ASCII letters, digits and `-`, `.`, `_`, `~`, and
/// writing every other byte as `%` and two upper-case hexadecimal digits.
#[verifier::external_body]
fn url_encode(s: &str) -> (r: String)
    ensures
        r@ == percent_encoded(s.spec_bytes()),
{
    urlencoding::encode(s).into_owned()
}

/// The names joined with `sep` between each two.
pub open spec fn joined(s: Seq<String>, sep: Seq<char>) -> Seq<char>
    decreases s.len(),
{
    if s.len() == 0 {
        Seq::empty()
    } else if s.len() == 1 {
        s[0]@
    } else {
        joined(s.drop_last(), sep) + sep + s.last()@
    }
}

fn join(names: &Vec<String>, sep: &str) -> (r: String)
    ensures
        r@ == joined(names@, sep@),
{
    let mut r = String::new();
    let mut i: usize = 0;
    while i < names.len()
        invariant
            i <= names@.len(),
            r@ == joined(names@.take(i as int), sep@),
        decreases names@.len() - i,
    {
        let ghost t = names@.take(i as int + 1);
        assert(t.drop_last() =~= names@.take(i as int));
        if i > 0 {
            r.append(sep);
        }
        r.append(names[i].as_str());
        i = i + 1;
    }
    assert(names@.take(names@.len() as int) =~= names@);
    r
}

/// The address of a device's resource.
pub open spec fn device_url(addr: Seq<char>, device_id: Seq<char>) -> Seq<char> {
    addr + "/devices/"@ + percent_encoded(encode_utf8(device_id))
}

/// The address to which a device's tasks are posted.
pub open spec fn tasks_url(addr: Seq<char>, device_id: Seq<char>) -> Seq<char> {
    device_url(addr, device_id) + "/tasks?connection_request"@
}

/// The address of the query for some parameters of one device.
pub open spec fn query_url(addr: Seq<char>, device_id: Seq<char>, names: Seq<String>) -> Seq<char> {
    addr + "/devices?query=%7B%22_id%22%3A%22"@ + percent_encoded(encode_utf8(device_id))
        + "%22%7D&projection="@ + joined(names, ","@)
}

/// The headers' model.
pub open spec fn headers_view(h: Seq<(String, String)>) -> Seq<(Seq<char>, Seq<char>)> {
    h.map_values(|e: (String, String)| (e.0@, e.1@))
}

/// `r` is what a connection of kind `kind` builds for a request with the
/// given parts: the request itself for a GenieACS server, and the error
/// `UnknownAcsType` for any other.
pub open spec fn builds(
    kind: AcsType,
    r: Result<HttpRequest, AcsError>,
    method: HttpMethod,
    url: Seq<char>,
    headers: Seq<(Seq<char>, Seq<char>)>,
    body: BodyModel,
) -> bool {
    if kind == AcsType::GenieAcs {
        &&& r is Ok
        &&& r->Ok_0.method == method
        &&& r->Ok_0.url@ == url
        &&& headers_view(r->Ok_0.headers@) == headers
        &&& r->Ok_0.body@ == body
    } else {
        r matches Err(AcsError::UnknownAcsType)
    }
}

/// The payload of a command that carries only its name.
pub open spec fn named_payload(name: Seq<char>) -> JsonModel {
    JsonModel::Object(seq![("name"@, JsonModel::Str(name))])
}

/// The payload of a command on one object.
pub open spec fn object_payload(name: Seq<char>, object_name: Seq<char>) -> JsonModel {
    JsonModel::Object(seq![("name"@, JsonModel::Str(name)), ("object_name"@, JsonModel::Str(object_name))])
}

/// The answer's status means success: 200 to 299.
pub open spec fn is_success(status: u16) -> bool {
    200 <= status <= 299
}

/// Judges an answer's status: success from 200 to 299, else the error
/// that carries the status.
pub fn check_status(status: u16) -> (r: Result<(), AcsError>)
    ensures
        is_success(status) ==> r is Ok,
        !is_success(status) ==> r == Err::<(), AcsError>(AcsError::HttpStatus(status)),
{
    if 200 <= status && status <= 299 {
        Ok(())
    } else {
        Err(AcsError::HttpStatus(status))
    }
}

/// The device description in an answer to a query by id: the `Device`
/// member of the first object of the answer's array.
pub open spec fn answered_device(j: JsonValue) -> Option<JsonValue> {
    match j {
        JsonValue::Array(items) => if items@.len() > 0 {
            match items@[0] {
                JsonValue::Object(m) => member(m@, "Device"@),
                _ => None,
            }
        } else {
            None
        },
        _ => None,
    }
}

/// The tree of an answer to a query by id: a root whose one child,
/// `Device`, is the tree of the device description. An answer that is not
/// an array is a decode error; an array that holds no device description
/// gives `BadResponse`.
pub fn device_tree_from_response(json: &JsonValue) -> (r: Result<DataNode, AcsError>)
    ensures
        match *json {
            JsonValue::Array(_) => match answered_device(*json) {
                Some(d) => r is Ok && r->Ok_0.wf() && r->Ok_0@ == container(
                    map![("Device"@) => parsed(d)],
                ),
                None => r matches Err(AcsError::BadResponse),
            },
            _ => r matches Err(AcsError::Decode(_)),
        },
{
    let items = match json {
        JsonValue::Array(items) => items,
        _ => {
            return Err(AcsError::Decode("the answer is not an array".to_string()));
        },
    };
    if items.len() > 0 {
        if let JsonValue::Object(m) = &items[0] {
            if let Some(i) = find_member(m, &"Device".to_string()) {
                let device = DataNode::parse_from_document(&m[i].1);
                let mut root = DataNode::new();
                root.set_subnode("Device".to_string(), device);
                assert(root@.subnodes =~= map![("Device"@) => parsed(m@[i as int].1)]);
                return Ok(root);
            }
        }
    }
    Err(AcsError::BadResponse)
}

/// Whether every byte may stand in an HTTP header value: a tab, or any byte
/// from 32 up but 127.
pub open spec fn header_bytes_valid(b: Seq<u8>) -> bool {
    forall|i: int| 0 <= i < b.len() ==> (b[i] >= 32 && b[i] != 127) || b[i] == 9
}

/// Whether the four header values of an upload may all be sent.
pub open spec fn upload_headers_valid(
    file_type: Seq<char>,
    oui: Seq<char>,
    product_class: Seq<char>,
    version: Seq<char>,
) -> bool {
    &&& header_bytes_valid(encode_utf8(file_type))
    &&& header_bytes_valid(encode_utf8(oui))
    &&& header_bytes_valid(encode_utf8(product_class))
    &&& header_bytes_valid(encode_utf8(version))
}

/// Relies on http's HeaderValue::from_str (re-exported by reqwest): it
/// accepts a text exactly when every byte of it is a tab, or at least 32
/// and not 127.
#[verifier::external_body]
fn header_value_accepted(s: &str) -> (r: bool)
    ensures
        r == header_bytes_valid(s.spec_bytes()),
{
    reqwest::header::HeaderValue::from_str(s).is_ok()
}

impl AcsConnection {
    /// A connection of kind `acs_type` to the server at `addr`, without
    /// debug output.
    pub fn new(acs_type: AcsType, addr: String) -> (r: AcsConnection)
        ensures
            r.acs_type == acs_type,
            r.addr@ == addr@,
            !r.debug_log,
    {
        AcsConnection { acs_type, addr, debug_log: false }
    }

    fn encode_device(&self, device_id: &str) -> (r: String)
        ensures
            r@ == percent_encoded(encode_utf8(device_id@)),
    {
        url_encode(device_id)
    }

    fn device_url(&self, device_id: &str) -> (r: String)
        ensures
            r@ == device_url(self.addr@, device_id@),
    {
        let mut url = self.addr.clone();
        url.append("/devices/");
        let enc = self.encode_device(device_id);
        url.append(enc.as_str());
        url
    }

    fn tasks_url(&self, device_id: &str) -> (r: String)
        ensures
            r@ == tasks_url(self.addr@, device_id@),
    {
        let mut url = self.device_url(device_id);
        url.append("/tasks?connection_request");
        url
    }

    fn request(&self, method: HttpMethod, url: String, body: RequestBody) -> (r: Result<
        HttpRequest,
        AcsError,
    >)
        ensures
            builds(self.acs_type, r, method, url@, seq![], body@),
    {
        if self.acs_type != AcsType::GenieAcs {
            return Err(AcsError::UnknownAcsType);
        }
        let r = HttpRequest { method, url, headers: Vec::new(), body };
        assert(headers_view(r.headers@) =~= seq![]);
        Ok(r)
    }

    /// The request that lists all devices.
    pub fn list_devices_request(&self) -> (r: Result<HttpRequest, AcsError>)
        ensures
            builds(self.acs_type, r, HttpMethod::Get, self.addr@ + "/devices"@, seq![], BodyModel::Empty),
    {
        let mut url = self.addr.clone();
        url.append("/devices");
        self.request(HttpMethod::Get, url, RequestBody::Empty)
    }

    /// The request that sets parameter values on a device.
    pub fn set_parameter_values_request(
        &self,
        device_id: String,
        parameter_values: Vec<ParameterValue>,
    ) -> (r: Result<HttpRequest, AcsError>)
        ensures
            builds(
                self.acs_type,
                r,
                HttpMethod::Post,
                tasks_url(self.addr@, device_id@),
                seq![],
                BodyModel::Json(
                    JsonModel::Object(
                        seq![
                            ("name"@, JsonModel::Str("setParameterValues"@)),
                            (
                                "parameter_values"@,
                                JsonModel::Array(parameter_values@.map_values(|p| parameter_entry(p))),
                            ),
                        ],
                    ),
                ),
            ),
    {
        let url = self.tasks_url(device_id.as_str());
        let req = SetParameterValues::new(parameter_values);
        self.request(HttpMethod::Post, url, RequestBody::Json(req.to_json()))
    }

    /// The request that reads some parameters of a device.
    pub fn get_parameter_values_request(
        &self,
        device_id: String,
        parameter_names: Vec<String>,
    ) -> (r: Result<HttpRequest, AcsError>)
        ensures
            builds(
                self.acs_type,
                r,
                HttpMethod::Get,
                query_url(self.addr@, device_id@, parameter_names@),
                seq![],
                BodyModel::Empty,
            ),
    {
        let mut url = self.addr.clone();
        url.append("/devices?query=%7B%22_id%22%3A%22");
        let enc = self.encode_device(device_id.as_str());
        url.append(enc.as_str());
        url.append("%22%7D&projection=");
        let names = join(&parameter_names, ",");
        url.append(names.as_str());
        self.request(HttpMethod::Get, url, RequestBody::Empty)
    }

    /// The request that refreshes an object of a device.
    pub fn refresh_object_request(&self, device_id: String, object: &str) -> (r: Result<
        HttpRequest,
        AcsError,
    >)
        ensures
            builds(
                self.acs_type,
                r,
                HttpMethod::Post,
                tasks_url(self.addr@, device_id@),
                seq![],
                BodyModel::Json(object_payload("refreshObject"@, object@)),
            ),
    {
        let url = self.tasks_url(device_id.as_str());
        let req = RefreshObject::new(object);
        self.request(HttpMethod::Post, url, RequestBody::Json(req.to_json()))
    }

    /// The request that reboots a device.
    pub fn reboot_request(&self, device_id: String) -> (r: Result<HttpRequest, AcsError>)
        ensures
            builds(
                self.acs_type,
                r,
                HttpMethod::Post,
                tasks_url(self.addr@, device_id@),
                seq![],
                BodyModel::Json(named_payload("reboot"@)),
            ),
    {
        let url = self.tasks_url(device_id.as_str());
        let req = SimpleCommand::new("reboot");
        self.request(HttpMethod::Post, url, RequestBody::Json(req.to_json()))
    }

    /// The request that resets a device to its factory settings.
    pub fn factory_reset_request(&self, device_id: String) -> (r: Result<HttpRequest, AcsError>)
        ensures
            builds(
                self.acs_type,
                r,
                HttpMethod::Post,
                tasks_url(self.addr@, device_id@),
                seq![],
                BodyModel::Json(named_payload("factoryReset"@)),
            ),
    {
        let url = self.tasks_url(device_id.as_str());
        let req = SimpleCommand::new("factoryReset");
        self.request(HttpMethod::Post, url, RequestBody::Json(req.to_json()))
    }

    /// The request that adds an object instance to a device (`add`) or
    /// deletes one.
    pub fn add_del_object_request(&self, device_id: String, add: bool, object_name: String) -> (r:
        Result<HttpRequest, AcsError>)
        ensures
            builds(
                self.acs_type,
                r,
                HttpMethod::Post,
                tasks_url(self.addr@, device_id@),
                seq![],
                BodyModel::Json(
                    object_payload(
                        if add {
                            "addObject"@
                        } else {
                            "deleteObject"@
                        },
                        object_name@,
                    ),
                ),
            ),
    {
        let url = self.tasks_url(device_id.as_str());
        let req = AddDeleteObject::new(add, object_name.as_str());
        self.request(HttpMethod::Post, url, RequestBody::Json(req.to_json()))
    }

    /// The request that removes a device from the server.
    pub fn del_device_request(&self, device_id: String) -> (r: Result<HttpRequest, AcsError>)
        ensures
            builds(
                self.acs_type,
                r,
                HttpMethod::Delete,
                device_url(self.addr@, device_id@),
                seq![],
                BodyModel::Empty,
            ),
    {
        let url = self.device_url(device_id.as_str());
        self.request(HttpMethod::Delete, url, RequestBody::Empty)
    }

    /// The request that tags a device (`add`) or removes the tag.
    pub fn add_del_tag_request(&self, device_id: String, add: bool, tag: String) -> (r: Result<
        HttpRequest,
        AcsError,
    >)
        ensures
            builds(
                self.acs_type,
                r,
                if add {
                    HttpMethod::Post
                } else {
                    HttpMethod::Delete
                },
                device_url(self.addr@, device_id@) + "/tags/"@ + tag@,
                seq![],
                BodyModel::Empty,
            ),
    {
        let mut url = self.device_url(device_id.as_str());
        url.append("/tags/");
        url.append(tag.as_str());
        let method = if add {
            HttpMethod::Post
        } else {
            HttpMethod::Delete
        };
        self.request(method, url, RequestBody::Empty)
    }

    /// The request that stores a file on the server under `name`, with the
    /// file's type, the device's OUI and product class, and the file's
    /// version as headers. A header value that headers cannot carry gives
    /// `InvalidHeaderValue`.
    pub fn upload_file_request(
        &self,
        name: &str,
        file_type: &str,
        oui: &str,
        product_class: &str,
        version: &str,
        contents: Vec<u8>,
    ) -> (r: Result<HttpRequest, AcsError>)
        ensures
            upload_headers_valid(file_type@, oui@, product_class@, version@) ==> builds(
                self.acs_type,
                r,
                HttpMethod::Put,
                self.addr@ + "/files/"@ + name@,
                seq![
                    ("fileType"@, file_type@),
                    ("oui"@, oui@),
                    ("productClass"@, product_class@),
                    ("version"@, version@),
                ],
                BodyModel::Bytes(contents@),
            ),
            !upload_headers_valid(file_type@, oui@, product_class@, version@) ==> if self.acs_type
                == AcsType::GenieAcs {
                r matches Err(AcsError::InvalidHeaderValue)
            } else {
                r matches Err(AcsError::UnknownAcsType)
            },
    {
        if self.acs_type != AcsType::GenieAcs {
            return Err(AcsError::UnknownAcsType);
        }
        if !(header_value_accepted(file_type) && header_value_accepted(oui)
            && header_value_accepted(product_class) && header_value_accepted(version)) {
            return Err(AcsError::InvalidHeaderValue);
        }
        let mut url = self.addr.clone();
        url.append("/files/");
        url.append(name);
        let headers = vec![
            ("fileType".to_string(), file_type.to_string()),
            ("oui".to_string(), oui.to_string()),
            ("productClass".to_string(), product_class.to_string()),
            ("version".to_string(), version.to_string()),
        ];
        assert(headers_view(headers@) =~= seq![
            ("fileType"@, file_type@),
            ("oui"@, oui@),
            ("productClass"@, product_class@),
            ("version"@, version@),
        ]);
        Ok(HttpRequest { method: HttpMethod::Put, url, headers, body: RequestBody::Bytes(contents) })
    }

    /// The request that makes a device download a file.
    pub fn download_request(&self, device_id: String, filename: String) -> (r: Result<
        HttpRequest,
        AcsError,
    >)
        ensures
            builds(
                self.acs_type,
                r,
                HttpMethod::Post,
                tasks_url(self.addr@, device_id@),
                seq![],
                BodyModel::Json(
                    JsonModel::Object(
                        seq![
                            ("name"@, JsonModel::Str("download"@)),
                            ("file"@, JsonModel::Str(filename@)),
                        ],
                    ),
                ),
            ),
    {
        let url = self.tasks_url(device_id.as_str());
        let req = DownloadCommand::new(filename.as_str());
        self.request(HttpMethod::Post, url, RequestBody::Json(req.to_json()))
    }
}

} // verus!
