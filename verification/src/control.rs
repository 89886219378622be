//! The control socket protocol for type registration: JSON requests over a
//! REQ/REP socket, answered by JSON responses that all carry `"v": 1`.
//! Commands: `register_type`, `list_types`. Reading the request JSON and
//! the socket are left to the caller.

use vstd::prelude::*;
use crate::registry::{RegistryError, TypeEntry, TypeRegistry, register_outcome, registry_error_code,
    registry_error_message};
use crate::deploy::plan::opt_str_view;
use crate::text::{dec, json_quote, push_json_str, push_str, push_u64, str_eq};
use vstd::string::StringExecFns;

verus! {

/// Protocol version included in all responses.
pub const PROTOCOL_VERSION: u32 = 1;

/// The data of a `register_type` request.
pub struct RegisterTypeData {
    pub qualified_name: String,
    pub descriptor_bytes: Option<String>,
}

/// A control request: its version, its command, and its data read as
/// `register_type` data (or why it could not be).
pub struct ControlRequest {
    pub v: u32,
    pub command: String,
    pub data: Result<RegisterTypeData, String>,
}

/// A registered type as `list_types` shows it.
pub struct TypeSummary {
    pub qualified_name: String,
    pub namespace: String,
    pub short_name: String,
    pub registered_at: String,
}

/// The data of a successful response.
pub enum ResponseData {
    /// The type just registered.
    Registered { qualified_name: String, namespace: String, registered_at: String },
    /// All registered types, in type name order.
    Types(Vec<TypeSummary>),
}

/// A control response. All responses carry `v: 1`.
pub struct ControlResponse {
    pub v: u32,
    pub status: String,
    pub data: Option<ResponseData>,
    pub code: Option<String>,
    pub message: Option<String>,
}

/// Whether `r` is the error response with `code` and `message`.
pub open spec fn is_error_response(r: ControlResponse, code: Seq<char>, message: Seq<char>) -> bool {
    &&& r.v == PROTOCOL_VERSION
    &&& r.status@ == "error"@
    &&& r.data is None
    &&& opt_str_view(r.code) == Some(code)
    &&& opt_str_view(r.message) == Some(message)
}

/// Whether `r` is a success response carrying `data`.
pub open spec fn is_ok_response(r: ControlResponse) -> bool {
    &&& r.v == PROTOCOL_VERSION
    &&& r.status@ == "ok"@
    &&& r.data is Some
    &&& r.code is None
    &&& r.message is None
}

/// Whether `r` answers a registration that gave `res`.
pub open spec fn register_response(r: ControlResponse, res: Result<TypeEntry, RegistryError>) -> bool {
    match res {
        Ok(e) => is_ok_response(r) && (r.data->0 matches ResponseData::Registered { qualified_name, namespace, registered_at }
            && qualified_name@ == e.qualified_name@ && namespace@ == e.namespace@ && registered_at@ == e.registered_at@),
        Err(x) => is_error_response(r, registry_error_code(x), registry_error_message(x)),
    }
}

/// Whether `r` lists the entries of `reg`, in type name order.
pub open spec fn list_response(r: ControlResponse, reg: TypeRegistry) -> bool {
    is_ok_response(r) && (r.data->0 matches ResponseData::Types(v) && v@.len() == reg.entries().len() && forall|i: int|
        0 <= i < v@.len() ==> {
            let e = #[trigger] reg.entries()[i].1;
            &&& v@[i].qualified_name@ == e.qualified_name@
            &&& v@[i].namespace@ == e.namespace@
            &&& v@[i].short_name@ == e.short_name@
            &&& v@[i].registered_at@ == e.registered_at@
        })
}

/// How a request is answered, and what it does to the registry: a request
/// that could not be read is refused with `INVALID_REQUEST`;
/// `register_type` registers the type (refused with `INVALID_REQUEST` when
/// its data could not be read); `list_types` lists the types; any other
/// command is refused with `UNKNOWN_COMMAND`. Only a registration changes
/// the registry.
pub open spec fn dispatch_outcome(
    old: TypeRegistry,
    new: TypeRegistry,
    request: Result<ControlRequest, String>,
    r: ControlResponse,
) -> bool {
    match request {
        Err(e) => is_error_response(r, "INVALID_REQUEST"@, "Invalid JSON: "@ + e@) && new == old,
        Ok(req) => if req.command@ == "register_type"@ {
            match req.data {
                Err(e) => is_error_response(r, "INVALID_REQUEST"@, "Invalid register_type data: "@ + e@) && new == old,
                Ok(d) => exists|res: Result<TypeEntry, RegistryError>|
                    register_outcome(old, new, d.qualified_name@, d.descriptor_bytes, res) && #[trigger] register_response(
                        r,
                        res,
                    ),
            }
        } else if req.command@ == "list_types"@ {
            list_response(r, old) && new == old
        } else {
            is_error_response(r, "UNKNOWN_COMMAND"@, "Unknown command: "@ + req.command@) && new == old
        },
    }
}

impl ControlResponse {
    /// A success response with data.
    pub fn ok(data: ResponseData) -> (r: Self)
        ensures
            is_ok_response(r),
            r.data == Some(data),
    {
        ControlResponse {
            v: PROTOCOL_VERSION,
            status: String::from_str("ok"),
            data: Some(data),
            code: None,
            message: None,
        }
    }

    /// An error response with code and message.
    pub fn error(code: &str, message: &str) -> (r: Self)
        ensures
            is_error_response(r, code@, message@),
    {
        ControlResponse {
            v: PROTOCOL_VERSION,
            status: String::from_str("error"),
            data: None,
            code: Some(String::from_str(code)),
            message: Some(String::from_str(message)),
        }
    }
}

fn concat(a: &str, b: &str) -> (r: String)
    ensures
        r@ == a@ + b@,
{
    let mut r = String::new();
    push_str(&mut r, a);
    push_str(&mut r, b);
    r
}

fn handle_register_type(registry: &mut TypeRegistry, data: RegisterTypeData) -> (r: ControlResponse)
    requires
        old(registry).wf(),
    ensures
        final(registry).wf(),
        final(registry).limits() == old(registry).limits(),
        final(registry).path() == old(registry).path(),
        exists|res: Result<TypeEntry, RegistryError>|
            register_outcome(*old(registry), *final(registry), data.qualified_name@, data.descriptor_bytes, res)
                && #[trigger] register_response(r, res),
{
    let RegisterTypeData { qualified_name, descriptor_bytes } = data;
    let ghost d = descriptor_bytes;
    let res = registry.register(qualified_name.as_str(), descriptor_bytes);
    let ghost gres = match res {
        Ok(e) => Ok(*e),
        Err(ref x) => Err(*x),
    };
    let resp = match res {
        Ok(entry) => ControlResponse::ok(
            ResponseData::Registered {
                qualified_name: entry.qualified_name.clone(),
                namespace: entry.namespace.clone(),
                registered_at: entry.registered_at.clone(),
            },
        ),
        Err(e) => {
            let m = e.message();
            ControlResponse::error(e.error_code(), m.as_str())
        },
    };
    assert(register_response(resp, gres));
    resp
}

fn handle_list_types(registry: &TypeRegistry) -> (r: ControlResponse)
    ensures
        list_response(r, *registry),
{
    let l = registry.list();
    let n = l.len();
    let mut v: Vec<TypeSummary> = Vec::new();
    for i in 0..n
        invariant
            n == l@.len(),
            l@.len() == registry.entries().len(),
            forall|j: int| 0 <= j < l@.len() ==> *l@[j] == registry.entries()[j].1,
            v@.len() == i,
            forall|j: int|
                0 <= j < i ==> {
                    let e = #[trigger] registry.entries()[j].1;
                    &&& v@[j].qualified_name@ == e.qualified_name@
                    &&& v@[j].namespace@ == e.namespace@
                    &&& v@[j].short_name@ == e.short_name@
                    &&& v@[j].registered_at@ == e.registered_at@
                },
    {
        let e = l[i];
        v.push(
            TypeSummary {
                qualified_name: e.qualified_name.clone(),
                namespace: e.namespace.clone(),
                short_name: e.short_name.clone(),
                registered_at: e.registered_at.clone(),
            },
        );
    }
    ControlResponse::ok(ResponseData::Types(v))
}

/// Answer a control request.
pub fn dispatch(registry: &mut TypeRegistry, request: Result<ControlRequest, String>) -> (r: ControlResponse)
    requires
        old(registry).wf(),
    ensures
        final(registry).wf(),
        final(registry).limits() == old(registry).limits(),
        final(registry).path() == old(registry).path(),
        dispatch_outcome(*old(registry), *final(registry), request, r),
{
    let req = match request {
        Err(e) => {
            let m = concat("Invalid JSON: ", e.as_str());
            return ControlResponse::error("INVALID_REQUEST", m.as_str());
        },
        Ok(req) => req,
    };
    let ControlRequest { v: _, command, data } = req;
    if str_eq(command.as_str(), "register_type") {
        match data {
            Err(e) => {
                let m = concat("Invalid register_type data: ", e.as_str());
                ControlResponse::error("INVALID_REQUEST", m.as_str())
            },
            Ok(d) => handle_register_type(registry, d),
        }
    } else if str_eq(command.as_str(), "list_types") {
        handle_list_types(registry)
    } else {
        let m = concat("Unknown command: ", command.as_str());
        ControlResponse::error("UNKNOWN_COMMAND", m.as_str())
    }
}

/// An optional string member, left out when absent.
pub open spec fn json_member(key: Seq<char>, v: Option<Seq<char>>) -> Seq<char> {
    match v {
        Some(s) => key + json_quote(s),
        None => Seq::empty(),
    }
}

/// One listed type as JSON, keys in sorted order.
pub open spec fn summary_json(t: TypeSummary) -> Seq<char> {
    "{\"namespace\":"@ + json_quote(t.namespace@) + ",\"registered_at\":"@ + json_quote(t.registered_at@)
        + ",\"short_name\":"@ + json_quote(t.short_name@) + ",\"type"@ + "_name\":"@ + json_quote(t.qualified_name@) + "}"@
}

/// The listed types, separated by commas.
pub open spec fn summaries_json(s: Seq<TypeSummary>) -> Seq<char>
    decreases s.len(),
{
    if s.len() == 0 {
        Seq::empty()
    } else if s.len() == 1 {
        summary_json(s[0])
    } else {
        summaries_json(s.drop_last()) + ","@ + summary_json(s.last())
    }
}

/// The data of a response as JSON, keys in sorted order.
pub open spec fn data_json(d: ResponseData) -> Seq<char> {
    match d {
        ResponseData::Registered { qualified_name, namespace, registered_at } => "{\"namespace\":"@ + json_quote(namespace@)
            + ",\"registered_at\":"@ + json_quote(registered_at@) + ",\"type"@ + "_name\":"@ + json_quote(qualified_name@)
            + "}"@,
        ResponseData::Types(v) => "{\"total_count\":"@ + dec(v@.len()) + ",\"types\":["@ + summaries_json(v@)
            + "]}"@,
    }
}

/// A response as compact JSON: `v`, `status`, then `data`, `code` and
/// `message` where present.
pub open spec fn response_json(r: ControlResponse) -> Seq<char> {
    "{\"v\":"@ + dec(r.v as nat) + ",\"status\":"@ + json_quote(r.status@) + match r.data {
        Some(d) => ",\"data\":"@ + data_json(d),
        None => Seq::empty(),
    } + json_member(",\"code\":"@, opt_str_view(r.code)) + json_member(",\"message\":"@, opt_str_view(r.message))
        + "}"@
}

fn push_summary(out: &mut String, t: &TypeSummary)
    ensures
        final(out)@ == old(out)@ + summary_json(*t),
{
    let ghost start = out@;
    push_str(out, "{\"namespace\":");
    push_json_str(out, t.namespace.as_str());
    push_str(out, ",\"registered_at\":");
    push_json_str(out, t.registered_at.as_str());
    push_str(out, ",\"short_name\":");
    push_json_str(out, t.short_name.as_str());
    push_str(out, ",\"type");
            push_str(out, "_name\":");
    push_json_str(out, t.qualified_name.as_str());
    push_str(out, "}");
    assert(out@ =~= start + summary_json(*t));
}

fn push_data(out: &mut String, d: &ResponseData)
    ensures
        final(out)@ == old(out)@ + data_json(*d),
{
    let ghost start = out@;
    match d {
        ResponseData::Registered { qualified_name, namespace, registered_at } => {
            push_str(out, "{\"namespace\":");
            push_json_str(out, namespace.as_str());
            push_str(out, ",\"registered_at\":");
            push_json_str(out, registered_at.as_str());
            push_str(out, ",\"type");
            push_str(out, "_name\":");
            push_json_str(out, qualified_name.as_str());
            push_str(out, "}");
        },
        ResponseData::Types(v) => {
            push_str(out, "{\"total_count\":");
            push_u64(out, v.len() as u64);
            push_str(out, ",\"types\":[");
            let ghost mid = out@;
            let n = v.len();
            for i in 0..n
                invariant
                    n == v@.len(),
                    out@ == mid + summaries_json(v@.take(i as int)),
            {
                assert(v@.take(i + 1).drop_last() =~= v@.take(i as int));
                if i > 0 {
                    push_str(out, ",");
                }
                push_summary(out, &v[i]);
                assert(out@ =~= mid + summaries_json(v@.take(i + 1)));
            }
            assert(v@.take(n as int) =~= v@);
            push_str(out, "]}");
        },
    }
    assert(out@ =~= start + data_json(*d));
}

fn push_member(out: &mut String, key: &str, v: &Option<String>)
    ensures
        final(out)@ == old(out)@ + json_member(key@, opt_str_view(*v)),
{
    let ghost start = out@;
    if let Some(s) = v {
        push_str(out, key);
        push_json_str(out, s.as_str());
    }
    assert(out@ =~= start + json_member(key@, opt_str_view(*v)));
}

impl ControlResponse {
    /// The response as compact JSON.
    pub fn to_json(&self) -> (s: String)
        ensures
            s@ == response_json(*self),
    {
        let mut out = String::new();
        push_str(&mut out, "{\"v\":");
        push_u64(&mut out, self.v as u64);
        push_str(&mut out, ",\"status\":");
        push_json_str(&mut out, self.status.as_str());
        let ghost mid = out@;
        if let Some(d) = &self.data {
            push_str(&mut out, ",\"data\":");
            push_data(&mut out, d);
        }
        assert(out@ =~= mid + match self.data {
            Some(d) => ",\"data\":"@ + data_json(d),
            None => Seq::<char>::empty(),
        });
        push_member(&mut out, ",\"code\":", &self.code);
        push_member(&mut out, ",\"message\":", &self.message);
        push_str(&mut out, "}");
        assert(out@ =~= response_json(*self));
        out
    }
}

/// The JSON of an error response with `code` and `message`:
/// `{"v":1,"status":"error","code":<code>,"message":<message>}`.
pub fn error_response(code: &str, message: &str) -> (s: String)
    ensures
        s@ == "{\"v\":1,\"status\":"@ + json_quote("error"@) + ",\"code\":"@ + json_quote(code@) + ",\"message\":"@
            + json_quote(message@) + "}"@,
{
    let r = ControlResponse::error(code, message);
    let s = r.to_json();
    assert(dec(1) =~= seq!['1']);
    assert("{\"v\":"@ + dec(1) =~= "{\"v\":1"@) by {
        reveal_strlit("{\"v\":");
        reveal_strlit("{\"v\":1");
    }
    assert(s@ =~= "{\"v\":1,\"status\":"@ + json_quote("error"@) + ",\"code\":"@ + json_quote(code@) + ",\"message\":"@
        + json_quote(message@) + "}"@) by {
        reveal_strlit("{\"v\":");
        reveal_strlit("{\"v\":1");
        reveal_strlit(",\"status\":");
        reveal_strlit("{\"v\":1,\"status\":");
    }
    s
}

/// Answer a control request with the JSON of the response.
pub fn handle_request(registry: &mut TypeRegistry, request: Result<ControlRequest, String>) -> (r: String)
    requires
        old(registry).wf(),
    ensures
        final(registry).wf(),
        exists|resp: ControlResponse|
            dispatch_outcome(*old(registry), *final(registry), request, resp) && r@ == #[trigger] response_json(resp),
{
    let resp = dispatch(registry, request);
    resp.to_json()
}

/// Every response carries the protocol version: whatever the request, the
/// answer has `v: 1`.
pub proof fn law_responses_carry_version(
    old: TypeRegistry,
    new: TypeRegistry,
    request: Result<ControlRequest, String>,
    r: ControlResponse,
)
    requires
        dispatch_outcome(old, new, request, r),
    ensures
        r.v == PROTOCOL_VERSION,
{
    if let Ok(req) = request {
        if req.command@ == "register_type"@ {
            if let Ok(d) = req.data {
                let res = choose|res: Result<TypeEntry, RegistryError>|
                    register_outcome(old, new, d.qualified_name@, d.descriptor_bytes, res) && #[trigger] register_response(r, res);
                assert(register_response(r, res));
            }
        }
    }
}

} // verus!
