use vstd::prelude::*;

verus! {

/// serde_json's parsed JSON value, declared so that the decoder can walk
/// it; what a value holds enters only through `jmodel` and the wrappers
/// below.
#[verifier::external_type_specification]
#[verifier::external_body]
pub struct ExValue(serde_json::Value);

/// The mathematical shape of a JSON value: the model that the trusted
/// accessors below are stated over. A number is modelled by its integer
/// value when it is stored as an integer; a floating-point number's value
/// is not modelled, only its presence.
pub ghost enum JsonNode {
    Null,
    Bool(bool),
    IntNum(int),
    FloatNum,
    Text(Seq<char>),
    Arr(Seq<JsonNode>),
    Obj(Seq<(Seq<char>, JsonNode)>),
}

/// What a `serde_json::Value` holds, as a `JsonNode`.
pub uninterp spec fn jmodel(v: serde_json::Value) -> JsonNode;

/// What `serde_json::from_str::<Value>` yields on a text: a model when the
/// text is well-formed JSON within serde_json's nesting limit, nothing
/// otherwise.
pub uninterp spec fn spec_parse_json(s: Seq<char>) -> Option<JsonNode>;

/// Whether an object holds a member of the given name.
pub open spec fn obj_has_key(fields: Seq<(Seq<char>, JsonNode)>, key: Seq<char>) -> bool {
    exists|i: int| 0 <= i < fields.len() && fields[i].0 == key
}

/// An index at which the object holds the given name.
pub open spec fn obj_key_index(fields: Seq<(Seq<char>, JsonNode)>, key: Seq<char>) -> int {
    choose|i: int| 0 <= i < fields.len() && fields[i].0 == key
}

/// The member of the given name (meaningful when `obj_has_key`).
pub open spec fn obj_lookup(fields: Seq<(Seq<char>, JsonNode)>, key: Seq<char>) -> JsonNode {
    fields[obj_key_index(fields, key)].1
}

/// The member of the given name, or nothing when the object lacks it.
pub open spec fn field_of(fields: Seq<(Seq<char>, JsonNode)>, key: Seq<char>) -> Option<JsonNode> {
    if obj_has_key(fields, key) {
        Some(obj_lookup(fields, key))
    } else {
        None
    }
}

/// Relies on serde_json::from_str::<Value>: Some exactly when the text
/// parses as JSON, and then the parsed value.
#[verifier::external_body]
fn parse_value(s: &str) -> (r: Option<serde_json::Value>)
    ensures
        r is Some <==> spec_parse_json(s@) is Some,
        r matches Some(v) ==> Some(jmodel(v)) == spec_parse_json(s@),
{
    serde_json::from_str::<serde_json::Value>(s).ok()
}

/// Relies on serde_json::Value::is_object.
#[verifier::external_body]
fn value_is_object(v: &serde_json::Value) -> (r: bool)
    ensures
        r <==> jmodel(*v) is Obj,
{
    v.is_object()
}

/// Relies on serde_json::Value::is_null.
#[verifier::external_body]
fn value_is_null(v: &serde_json::Value) -> (r: bool)
    ensures
        r <==> jmodel(*v) is Null,
{
    v.is_null()
}

/// Relies on serde_json::Value::get with a string index: Some exactly when
/// the value is an object with a member of that name, and then that
/// member.
#[verifier::external_body]
fn value_get<'a>(v: &'a serde_json::Value, key: &str) -> (r: Option<&'a serde_json::Value>)
    ensures
        match jmodel(*v) {
            JsonNode::Obj(fields) => {
                &&& r is Some <==> obj_has_key(fields, key@)
                &&& (r matches Some(m) ==> jmodel(*m) == obj_lookup(fields, key@))
            },
            _ => r is None,
        },
{
    v.get(key)
}

/// Relies on serde_json::Value::as_str: Some exactly for a JSON string,
/// and then its characters.
#[verifier::external_body]
fn value_as_str<'a>(v: &'a serde_json::Value) -> (r: Option<&'a str>)
    ensures
        match jmodel(*v) {
            JsonNode::Text(t) => r matches Some(s) && s@ == t,
            _ => r is None,
        },
{
    v.as_str()
}

/// Relies on serde_json::Value::as_u64: Some exactly for a number stored
/// as a non-negative integer, and then its value.
#[verifier::external_body]
fn value_as_u64(v: &serde_json::Value) -> (r: Option<u64>)
    ensures
        match jmodel(*v) {
            JsonNode::IntNum(n) => if 0 <= n <= u64::MAX {
                r matches Some(u) && u == n
            } else {
                r is None
            },
            _ => r is None,
        },
{
    v.as_u64()
}

/// Relies on serde_json::Value::as_bool: Some exactly for a JSON boolean.
#[verifier::external_body]
fn value_as_bool(v: &serde_json::Value) -> (r: Option<bool>)
    ensures
        match jmodel(*v) {
            JsonNode::Bool(b) => r matches Some(x) && x == b,
            _ => r is None,
        },
{
    v.as_bool()
}

/// Relies on serde_json::Value::as_array: Some exactly for a JSON array,
/// and then its elements in order.
#[verifier::external_body]
fn value_as_array<'a>(v: &'a serde_json::Value) -> (r: Option<&'a Vec<serde_json::Value>>)
    ensures
        match jmodel(*v) {
            JsonNode::Arr(items) => r matches Some(a) && a@.len() == items.len() && (forall|i: int|
                0 <= i < items.len() ==> #[trigger] jmodel(a@[i]) == items[i]),
            _ => r is None,
        },
{
    v.as_array()
}

/// One frame of a decoded stack trace; every field is optional in the
/// wire shape.
#[derive(Debug)]
pub struct Stacktrace {
    pub class_loader_name: Option<String>,
    pub module_name: Option<String>,
    pub module_version: Option<String>,
    pub method_name: Option<String>,
    pub file_name: Option<String>,
    pub line_number: Option<u32>,
    pub class_name: Option<String>,
    pub native_method: Option<bool>,
}

/// A decoded exception: messages and suppressed notes, the stack frames in
/// order, and an optional cause, each node owning its cause so the chain
/// is simple.
#[derive(Debug)]
pub struct Throwable {
    pub cause: Option<Box<Throwable>>,
    pub stack_trace: Vec<Stacktrace>,
    pub message: Option<String>,
    pub suppressed: Vec<String>,
    pub localized_message: Option<String>,
}

/// Why a frame's text did not decode as an exception.
#[derive(Clone, Copy, Debug, PartialEq, Eq, Structural)]
pub enum DecodeError {
    /// The text is not well-formed JSON.
    Syntax,
    /// The JSON does not have the exception shape.
    Shape,
}

/// The decoded value of an optional string member: present and a string,
/// absent (missing or null), or ill-typed (the outer None).
pub open spec fn spec_opt_text(fields: Seq<(Seq<char>, JsonNode)>, key: Seq<char>) -> Option<
    Option<Seq<char>>,
> {
    match field_of(fields, key) {
        Option::None => Some(None),
        Option::Some(JsonNode::Null) => Some(None),
        Option::Some(JsonNode::Text(t)) => Some(Some(t)),
        Option::Some(_) => None,
    }
}

/// The decoded value of an optional unsigned 32-bit member.
pub open spec fn spec_opt_u32(fields: Seq<(Seq<char>, JsonNode)>, key: Seq<char>) -> Option<
    Option<u32>,
> {
    match field_of(fields, key) {
        Option::None => Some(None),
        Option::Some(JsonNode::Null) => Some(None),
        Option::Some(JsonNode::IntNum(n)) => if 0 <= n <= u32::MAX {
            Some(Some(n as u32))
        } else {
            None
        },
        Option::Some(_) => None,
    }
}

/// The decoded value of an optional boolean member.
pub open spec fn spec_opt_bool(fields: Seq<(Seq<char>, JsonNode)>, key: Seq<char>) -> Option<
    Option<bool>,
> {
    match field_of(fields, key) {
        Option::None => Some(None),
        Option::Some(JsonNode::Null) => Some(None),
        Option::Some(JsonNode::Bool(b)) => Some(Some(b)),
        Option::Some(_) => None,
    }
}

/// Whether a JSON value is an array of strings.
pub open spec fn texts_decodable(j: JsonNode) -> bool {
    match j {
        JsonNode::Arr(items) => forall|i: int| 0 <= i < items.len() ==> items[i] is Text,
        _ => false,
    }
}

/// The strings of an array of strings, in order.
pub open spec fn texts_of(j: JsonNode) -> Seq<Seq<char>> {
    Seq::new(j->Arr_0.len(), |i: int| j->Arr_0[i]->Text_0)
}

/// Whether a JSON value has the shape of one stack frame: an object whose
/// known members, where present, have the right types.
pub open spec fn frame_decodable(j: JsonNode) -> bool {
    match j {
        JsonNode::Obj(fields) => {
            &&& spec_opt_text(fields, "classLoaderName"@) is Some
            &&& spec_opt_text(fields, "moduleName"@) is Some
            &&& spec_opt_text(fields, "moduleVersion"@) is Some
            &&& spec_opt_text(fields, "methodName"@) is Some
            &&& spec_opt_text(fields, "fileName"@) is Some
            &&& spec_opt_u32(fields, "lineNumber"@) is Some
            &&& spec_opt_text(fields, "className"@) is Some
            &&& spec_opt_bool(fields, "nativeMethod"@) is Some
        },
        _ => false,
    }
}

/// Whether `f` is the decoding of the stack-frame value `j`.
pub open spec fn frame_matches(f: Stacktrace, j: JsonNode) -> bool {
    match j {
        JsonNode::Obj(fields) => {
            &&& Some(f.class_loader_name.deep_view()) == spec_opt_text(fields, "classLoaderName"@)
            &&& Some(f.module_name.deep_view()) == spec_opt_text(fields, "moduleName"@)
            &&& Some(f.module_version.deep_view()) == spec_opt_text(fields, "moduleVersion"@)
            &&& Some(f.method_name.deep_view()) == spec_opt_text(fields, "methodName"@)
            &&& Some(f.file_name.deep_view()) == spec_opt_text(fields, "fileName"@)
            &&& Some(f.line_number) == spec_opt_u32(fields, "lineNumber"@)
            &&& Some(f.class_name.deep_view()) == spec_opt_text(fields, "className"@)
            &&& Some(f.native_method) == spec_opt_bool(fields, "nativeMethod"@)
        },
        _ => false,
    }
}

/// Whether a JSON value is an array of stack-frame objects.
pub open spec fn frames_decodable(j: JsonNode) -> bool {
    match j {
        JsonNode::Arr(items) => forall|i: int|
            0 <= i < items.len() ==> #[trigger] frame_decodable(items[i]),
        _ => false,
    }
}

/// Whether `fs` are the decodings of the stack-frame values of array `j`,
/// in order.
pub open spec fn frames_match(fs: Seq<Stacktrace>, j: JsonNode) -> bool {
    &&& fs.len() == j->Arr_0.len()
    &&& forall|i: int| 0 <= i < fs.len() ==> #[trigger] frame_matches(fs[i], j->Arr_0[i])
}

/// The decreases path from an object node to its `cause` member, for the
/// recursion over the cause chain.
pub proof fn lemma_cause_decreases(j: JsonNode, fields: Seq<(Seq<char>, JsonNode)>, c: JsonNode)
    requires
        j == JsonNode::Obj(fields),
        field_of(fields, "cause"@) == Some(c),
    ensures
        decreases_to!(j => c),
{
    let key: Seq<char> = "cause"@;
    let idx = obj_key_index(fields, key);
    assert(obj_has_key(fields, key));
    assert(0 <= idx < fields.len() && fields[idx].0 == key);
    assert(c == fields[idx].1);
    assert(decreases_to!(j => j->Obj_0));
    assert(decreases_to!(fields => fields[idx]));
    assert(decreases_to!(fields[idx] => fields[idx].1));
}

/// Whether a JSON value has the exception shape: an object with string
/// arrays `suppressed`, frame array `stackTrace`, optional strings
/// `message` and `localizedMessage`, and an optional `cause` of the same
/// shape.
pub open spec fn throwable_decodable(j: JsonNode) -> bool
    decreases j,
{
    match j {
        JsonNode::Obj(fields) => {
            &&& spec_opt_text(fields, "message"@) is Some
            &&& spec_opt_text(fields, "localizedMessage"@) is Some
            &&& match field_of(fields, "suppressed"@) {
                Option::Some(s) => texts_decodable(s),
                Option::None => false,
            }
            &&& match field_of(fields, "stackTrace"@) {
                Option::Some(s) => frames_decodable(s),
                Option::None => false,
            }
            &&& match field_of(fields, "cause"@) {
                Option::None => true,
                Option::Some(c) => match c {
                    JsonNode::Null => true,
                    _ => {
                        proof {
                            lemma_cause_decreases(j, fields, c);
                        }
                        throwable_decodable(c)
                    },
                },
            }
        },
        _ => false,
    }
}

/// Whether `t` is the decoding of the exception value `j`: every field is
/// pinned by the corresponding member, and the cause chain is decoded
/// recursively, absent exactly when the member is missing or null.
pub open spec fn throwable_matches(t: Throwable, j: JsonNode) -> bool
    decreases j,
{
    match j {
        JsonNode::Obj(fields) => {
            &&& Some(t.message.deep_view()) == spec_opt_text(fields, "message"@)
            &&& Some(t.localized_message.deep_view()) == spec_opt_text(fields, "localizedMessage"@)
            &&& match field_of(fields, "suppressed"@) {
                Option::Some(s) => texts_decodable(s) && t.suppressed.deep_view() == texts_of(s),
                Option::None => false,
            }
            &&& match field_of(fields, "stackTrace"@) {
                Option::Some(s) => frames_decodable(s) && frames_match(t.stack_trace@, s),
                Option::None => false,
            }
            &&& match field_of(fields, "cause"@) {
                Option::None => t.cause is None,
                Option::Some(c) => match c {
                    JsonNode::Null => t.cause is None,
                    _ => {
                        proof {
                            lemma_cause_decreases(j, fields, c);
                        }
                        match t.cause {
                            Option::Some(b) => throwable_matches(*b, c),
                            Option::None => false,
                        }
                    },
                },
            }
        },
        _ => false,
    }
}

/// Decode an optional string member of the object `v`.
fn get_opt_text(v: &serde_json::Value, key: &str) -> (r: Result<Option<String>, DecodeError>)
    requires
        jmodel(*v) is Obj,
    ensures
        match spec_opt_text(jmodel(*v)->Obj_0, key@) {
            Option::Some(expected) => r matches Ok(m) && m.deep_view() == expected,
            Option::None => r == Err::<Option<String>, DecodeError>(DecodeError::Shape),
        },
{
    match value_get(v, key) {
        Option::None => Ok(None),
        Option::Some(member) => {
            if value_is_null(member) {
                Ok(None)
            } else {
                match value_as_str(member) {
                    Option::Some(s) => Ok(Some(s.to_owned())),
                    Option::None => Err(DecodeError::Shape),
                }
            }
        },
    }
}

/// Decode an optional unsigned 32-bit member of the object `v`.
fn get_opt_u32(v: &serde_json::Value, key: &str) -> (r: Result<Option<u32>, DecodeError>)
    requires
        jmodel(*v) is Obj,
    ensures
        match spec_opt_u32(jmodel(*v)->Obj_0, key@) {
            Option::Some(expected) => r == Ok::<Option<u32>, DecodeError>(expected),
            Option::None => r == Err::<Option<u32>, DecodeError>(DecodeError::Shape),
        },
{
    match value_get(v, key) {
        Option::None => Ok(None),
        Option::Some(member) => {
            if value_is_null(member) {
                Ok(None)
            } else {
                match value_as_u64(member) {
                    Option::Some(u) => {
                        if u <= u32::MAX as u64 {
                            Ok(Some(u as u32))
                        } else {
                            Err(DecodeError::Shape)
                        }
                    },
                    Option::None => Err(DecodeError::Shape),
                }
            }
        },
    }
}

/// Decode an optional boolean member of the object `v`.
fn get_opt_bool(v: &serde_json::Value, key: &str) -> (r: Result<Option<bool>, DecodeError>)
    requires
        jmodel(*v) is Obj,
    ensures
        match spec_opt_bool(jmodel(*v)->Obj_0, key@) {
            Option::Some(expected) => r == Ok::<Option<bool>, DecodeError>(expected),
            Option::None => r == Err::<Option<bool>, DecodeError>(DecodeError::Shape),
        },
{
    match value_get(v, key) {
        Option::None => Ok(None),
        Option::Some(member) => {
            if value_is_null(member) {
                Ok(None)
            } else {
                match value_as_bool(member) {
                    Option::Some(b) => Ok(Some(b)),
                    Option::None => Err(DecodeError::Shape),
                }
            }
        },
    }
}

/// Decode an array of strings.
fn get_texts(v: &serde_json::Value) -> (r: Result<Vec<String>, DecodeError>)
    ensures
        r matches Ok(ts) ==> texts_decodable(jmodel(*v)) && ts.deep_view() == texts_of(
            jmodel(*v),
        ),
        r is Err ==> !texts_decodable(jmodel(*v)) && r == Err::<Vec<String>, DecodeError>(
            DecodeError::Shape,
        ),
{
    let ghost j = jmodel(*v);
    match value_as_array(v) {
        Option::None => Err(DecodeError::Shape),
        Option::Some(a) => {
            let mut out: Vec<String> = Vec::new();
            let n = a.len();
            let mut i: usize = 0;
            while i < n
                invariant
                    jmodel(*v) == j,
                    j is Arr,
                    n == a@.len(),
                    a@.len() == j->Arr_0.len(),
                    forall|k: int| 0 <= k < n ==> #[trigger] jmodel(a@[k]) == j->Arr_0[k],
                    i <= n,
                    out@.len() == i,
                    forall|k: int| 0 <= k < i ==> #[trigger] (j->Arr_0[k]) is Text,
                    forall|k: int| 0 <= k < i ==> #[trigger] out@[k]@ == j->Arr_0[k]->Text_0,
                decreases n - i,
            {
                let element = vstd::std_specs::vec::vec_index(a, i);
                match value_as_str(element) {
                    Option::Some(s) => {
                        out.push(s.to_owned());
                    },
                    Option::None => {
                        proof {
                            assert(!((j->Arr_0[i as int]) is Text));
                        }
                        return Err(DecodeError::Shape);
                    },
                }
                i = i + 1;
            }
            proof {
                assert forall|k: int| 0 <= k < out@.len() implies out.deep_view()[k] == texts_of(
                    j,
                )[k] by {
                    assert(out.deep_view()[k] == out@[k].deep_view());
                    assert(out@[k]@ == j->Arr_0[k]->Text_0);
                }
                assert(out.deep_view() =~= texts_of(j));
            }
            Ok(out)
        },
    }
}

/// Decode one stack frame.
fn decode_frame(v: &serde_json::Value) -> (r: Result<Stacktrace, DecodeError>)
    ensures
        r matches Ok(f) ==> frame_decodable(jmodel(*v)) && frame_matches(f, jmodel(*v)),
        r is Err ==> !frame_decodable(jmodel(*v)) && r == Err::<Stacktrace, DecodeError>(
            DecodeError::Shape,
        ),
{
    if !value_is_object(v) {
        return Err(DecodeError::Shape);
    }
    let class_loader_name = match get_opt_text(v, "classLoaderName") {
        Ok(x) => x,
        Err(e) => { return Err(e) },
    };
    let module_name = match get_opt_text(v, "moduleName") {
        Ok(x) => x,
        Err(e) => { return Err(e) },
    };
    let module_version = match get_opt_text(v, "moduleVersion") {
        Ok(x) => x,
        Err(e) => { return Err(e) },
    };
    let method_name = match get_opt_text(v, "methodName") {
        Ok(x) => x,
        Err(e) => { return Err(e) },
    };
    let file_name = match get_opt_text(v, "fileName") {
        Ok(x) => x,
        Err(e) => { return Err(e) },
    };
    let line_number = match get_opt_u32(v, "lineNumber") {
        Ok(x) => x,
        Err(e) => { return Err(e) },
    };
    let class_name = match get_opt_text(v, "className") {
        Ok(x) => x,
        Err(e) => { return Err(e) },
    };
    let native_method = match get_opt_bool(v, "nativeMethod") {
        Ok(x) => x,
        Err(e) => { return Err(e) },
    };
    Ok(Stacktrace {
        class_loader_name,
        module_name,
        module_version,
        method_name,
        file_name,
        line_number,
        class_name,
        native_method,
    })
}

/// Decode an array of stack frames.
fn get_frames(v: &serde_json::Value) -> (r: Result<Vec<Stacktrace>, DecodeError>)
    ensures
        r matches Ok(fs) ==> frames_decodable(jmodel(*v)) && frames_match(fs@, jmodel(*v)),
        r is Err ==> !frames_decodable(jmodel(*v)) && r == Err::<Vec<Stacktrace>, DecodeError>(
            DecodeError::Shape,
        ),
{
    let ghost j = jmodel(*v);
    match value_as_array(v) {
        Option::None => Err(DecodeError::Shape),
        Option::Some(a) => {
            let mut out: Vec<Stacktrace> = Vec::new();
            let n = a.len();
            let mut i: usize = 0;
            while i < n
                invariant
                    jmodel(*v) == j,
                    j is Arr,
                    n == a@.len(),
                    a@.len() == j->Arr_0.len(),
                    forall|k: int| 0 <= k < n ==> #[trigger] jmodel(a@[k]) == j->Arr_0[k],
                    i <= n,
                    out@.len() == i,
                    forall|k: int| 0 <= k < i ==> #[trigger] frame_decodable(j->Arr_0[k]),
                    forall|k: int| 0 <= k < i ==> #[trigger] frame_matches(out@[k], j->Arr_0[k]),
                decreases n - i,
            {
                let element = vstd::std_specs::vec::vec_index(a, i);
                match decode_frame(element) {
                    Ok(f) => {
                        out.push(f);
                    },
                    Err(e) => {
                        proof {
                            assert(!frame_decodable(j->Arr_0[i as int]));
                        }
                        return Err(e);
                    },
                }
                i = i + 1;
            }
            Ok(out)
        },
    }
}

/// Decode the exception shape from a parsed JSON value: unknown members
/// are ignored, missing or null optional members are absent, and any
/// ill-typed member fails the whole decode.
pub fn decode_throwable_value(v: &serde_json::Value) -> (r: Result<Throwable, DecodeError>)
    ensures
        r matches Ok(t) ==> throwable_decodable(jmodel(*v)) && throwable_matches(t, jmodel(*v)),
        r is Err ==> !throwable_decodable(jmodel(*v)) && r == Err::<Throwable, DecodeError>(
            DecodeError::Shape,
        ),
    decreases jmodel(*v),
{
    let ghost j = jmodel(*v);
    if !value_is_object(v) {
        return Err(DecodeError::Shape);
    }
    let message = match get_opt_text(v, "message") {
        Ok(x) => x,
        Err(e) => { return Err(e) },
    };
    let localized_message = match get_opt_text(v, "localizedMessage") {
        Ok(x) => x,
        Err(e) => { return Err(e) },
    };
    let suppressed = match value_get(v, "suppressed") {
        Option::Some(member) => match get_texts(member) {
            Ok(x) => x,
            Err(e) => { return Err(e) },
        },
        Option::None => { return Err(DecodeError::Shape) },
    };
    let stack_trace = match value_get(v, "stackTrace") {
        Option::Some(member) => match get_frames(member) {
            Ok(x) => x,
            Err(e) => { return Err(e) },
        },
        Option::None => { return Err(DecodeError::Shape) },
    };
    let cause: Option<Box<Throwable>> = match value_get(v, "cause") {
        Option::None => None,
        Option::Some(member) => {
            if value_is_null(member) {
                None
            } else {
                proof {
                    lemma_cause_decreases(j, j->Obj_0, jmodel(*member));
                }
                match decode_throwable_value(member) {
                    Ok(t) => Some(Box::new(t)),
                    Err(e) => { return Err(e) },
                }
            }
        },
    };
    Ok(Throwable { cause, stack_trace, message, suppressed, localized_message })
}

/// Decode a delivered frame's text as an exception: a typed failure for
/// text that is not JSON or not of the exception shape, never a partial
/// value.
pub fn decode_throwable_text(s: &str) -> (r: Result<Throwable, DecodeError>)
    ensures
        match spec_parse_json(s@) {
            Option::None => r == Err::<Throwable, DecodeError>(DecodeError::Syntax),
            Option::Some(j) => {
                &&& (r matches Ok(t) ==> throwable_decodable(j) && throwable_matches(t, j))
                &&& (r is Err ==> !throwable_decodable(j) && r == Err::<Throwable, DecodeError>(
                    DecodeError::Shape,
                ))
            },
        },
{
    match parse_value(s) {
        Option::Some(v) => decode_throwable_value(&v),
        Option::None => Err(DecodeError::Syntax),
    }
}

} // verus!
