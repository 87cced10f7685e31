//! The line protocol spoken with the local runtime: what a request must satisfy before it is
//! sent, and what a decoded line must satisfy to be accepted.
use vstd::prelude::*;

use crate::domain::{
    OllamaModel, PhaseOneEvent, ProviderSnapshot, ProviderState, MAX_DISCOVERED_MODELS,
    MAX_PROVIDER_ERROR_BYTES, MAX_STREAM_CHUNK_BYTES,
};
use crate::json::{decimal_digits, json_string, push_decimal, push_json_string};
use crate::text::{all_chars_in_class, all_in_class, byte_len, text_equal, CharClass};

verus! {

pub const PROTOCOL_VERSION: u32 = 1;
pub const MAX_MESSAGE_BYTES: usize = 65_536;

#[derive(Debug, Clone, PartialEq, Eq)]
pub struct PromptMessage {
    pub role: &'static str,
    pub content: String,
}

#[derive(Debug, Clone, PartialEq, Eq)]
pub enum RuntimeOutput {
    HealthReady { id: String },
    Provider { id: String, snapshot: ProviderSnapshot },
    ModelDetails { id: String, provider_model_id: String, capabilities: Vec<String> },
    Accepted { id: String },
    Error { id: String, code: String },
    Event(PhaseOneEvent),
}

/// The `error` member of a response.
#[derive(Debug, Clone, PartialEq, Eq)]
pub struct ErrorBody {
    pub code: String,
    pub message: Option<String>,
}

/// The `model` object of a result: its `providerModelId` when that is a string, and its
/// `capabilities` when that is an array (`Err` when an element is not a string).
#[derive(Debug, PartialEq, Eq)]
pub struct ModelDetailsFields {
    pub provider_model_id: Option<String>,
    pub capabilities: Option<Result<Vec<String>, ()>>,
}

/// The members of a `result` object that the protocol reads; a member is `None` when it is
/// absent or not of the kind read.
#[derive(Debug, PartialEq, Eq)]
pub struct ResultFields {
    pub name: Option<String>,
    pub status: Option<String>,
    pub protocol_version: Option<u64>,
    pub provider: Option<String>,
    pub state: Option<String>,
    /// `None` when absent; `Some(Err)` when present but not a list of models.
    pub models: Option<Result<Vec<OllamaModel>, ()>>,
    /// `Some` when `model` is an object.
    pub model: Option<ModelDetailsFields>,
}

/// A response line.
#[derive(Debug, PartialEq, Eq)]
pub struct ResponseEnvelope {
    pub protocol_version: u32,
    pub id: String,
    pub result: Option<ResultFields>,
    pub error: Option<ErrorBody>,
}

/// An event line.
#[derive(Debug, Clone, PartialEq, Eq)]
pub struct EventEnvelope {
    pub protocol_version: u32,
    pub event: String,
    pub request_id: String,
    pub agent_id: String,
    pub conversation_id: String,
    pub assistant_message_id: String,
    pub sequence: Option<u64>,
    pub content: Option<String>,
    pub error_code: Option<String>,
}

/// A line as decoded from JSON: not JSON at all, an object with an `event` member (which may not
/// fit the event shape), or any other object (which may not fit the response shape).
#[derive(Debug, PartialEq, Eq)]
pub enum DecodedLine {
    Malformed,
    Event(Result<EventEnvelope, ()>),
    Response(Result<ResponseEnvelope, ()>),
}

// ---------------------------------------------------------------------------------------------
// Field validation
// ---------------------------------------------------------------------------------------------
pub open spec fn spec_valid_provider_model_id(value: Seq<char>) -> bool {
    value.len() > 0 && byte_len(value) <= 200 && all_in_class(value, CharClass::ModelId)
}

pub open spec fn spec_valid_identifier(value: Seq<char>) -> bool {
    value.len() > 0 && byte_len(value) <= 200 && all_in_class(value, CharClass::Identifier)
}

pub open spec fn spec_valid_code(value: Seq<char>) -> bool {
    value.len() > 0 && byte_len(value) <= MAX_PROVIDER_ERROR_BYTES && all_in_class(
        value,
        CharClass::Code,
    )
}

pub open spec fn spec_optional_metadata_valid(value: Option<String>, maximum: usize) -> bool {
    match value {
        None => true,
        Some(v) => v@.len() > 0 && byte_len(v@) <= maximum && all_in_class(
            v@,
            CharClass::NonControl,
        ),
    }
}

pub open spec fn capability_name_ok(c: String) -> bool {
    c@.len() > 0 && byte_len(c@) <= 64
}

pub open spec fn spec_valid_model(model: OllamaModel) -> bool {
    &&& model.model_ref@ == "ollama:"@ + model.provider_model_id@
    &&& spec_valid_provider_model_id(model.provider_model_id@)
    &&& model.display_name@.len() > 0
    &&& byte_len(model.display_name@) <= 200
    &&& model.size <= 0x4_0000_0000_0000
    &&& spec_optional_metadata_valid(model.family, 128)
    &&& spec_optional_metadata_valid(model.parameter_size, 64)
    &&& spec_optional_metadata_valid(model.quantization, 64)
    &&& model.capabilities@.len() <= 16
    &&& forall|k: int|
        0 <= k < model.capabilities@.len() ==> #[trigger] capability_name_ok(
            model.capabilities@[k],
        )
}

/// A provider model id: 1 to 200 bytes of ASCII letters, digits and `.:_/-`.
pub fn valid_provider_model_id(value: &str) -> (r: bool)
    ensures
        r == spec_valid_provider_model_id(value@),
{
    !value.is_empty() && value.len() <= 200 && all_chars_in_class(value, CharClass::ModelId)
}

fn valid_identifier(value: &str) -> (r: bool)
    ensures
        r == spec_valid_identifier(value@),
{
    !value.is_empty() && value.len() <= 200 && all_chars_in_class(value, CharClass::Identifier)
}

fn valid_code(value: &str) -> (r: bool)
    ensures
        r == spec_valid_code(value@),
{
    !value.is_empty() && value.len() <= MAX_PROVIDER_ERROR_BYTES && all_chars_in_class(
        value,
        CharClass::Code,
    )
}

fn optional_metadata_valid(value: &Option<String>, maximum: usize) -> (r: bool)
    ensures
        r == spec_optional_metadata_valid(*value, maximum),
{
    match value {
        None => true,
        Some(v) => !v.as_str().is_empty() && v.as_str().len() <= maximum && all_chars_in_class(
            v.as_str(),
            CharClass::NonControl,
        ),
    }
}

fn capabilities_ok(capabilities: &Vec<String>) -> (r: bool)
    ensures
        r == (forall|k: int|
            0 <= k < capabilities@.len() ==> #[trigger] capability_name_ok(capabilities@[k])),
{
    let mut i: usize = 0;
    while i < capabilities.len()
        invariant
            i <= capabilities.len(),
            forall|k: int| 0 <= k < i ==> #[trigger] capability_name_ok(capabilities@[k]),
        decreases capabilities.len() - i,
    {
        let c = capabilities[i].as_str();
        if c.is_empty() || c.len() > 64 {
            assert(!capability_name_ok(capabilities@[i as int]));
            return false;
        }
        i = i + 1;
    }
    true
}

fn valid_model(model: &OllamaModel) -> (r: bool)
    ensures
        r == spec_valid_model(*model),
{
    let expected = "ollama:".to_string().concat(model.provider_model_id.as_str());
    text_equal(model.model_ref.as_str(), expected.as_str()) && valid_provider_model_id(
        model.provider_model_id.as_str(),
    ) && !model.display_name.as_str().is_empty() && model.display_name.as_str().len() <= 200
        && model.size <= 0x4_0000_0000_0000 && optional_metadata_valid(&model.family, 128)
        && optional_metadata_valid(&model.parameter_size, 64) && optional_metadata_valid(
        &model.quantization,
        64,
    ) && model.capabilities.len() <= 16 && capabilities_ok(&model.capabilities)
}

fn models_valid(models: &Vec<OllamaModel>) -> (r: bool)
    ensures
        r == (forall|k: int| 0 <= k < models@.len() ==> #[trigger] spec_valid_model(models@[k])),
{
    let mut i: usize = 0;
    while i < models.len()
        invariant
            i <= models.len(),
            forall|k: int| 0 <= k < i ==> #[trigger] spec_valid_model(models@[k]),
        decreases models.len() - i,
    {
        if !valid_model(&models[i]) {
            return false;
        }
        i = i + 1;
    }
    true
}

fn capability_names_ok(capabilities: &Vec<String>) -> (r: bool)
    ensures
        r == (capabilities@.len() <= 16 && forall|k: int|
            0 <= k < capabilities@.len() ==> #[trigger] capability_name_ok(capabilities@[k])),
{
    capabilities.len() <= 16 && capabilities_ok(capabilities)
}

// ---------------------------------------------------------------------------------------------
// Requests
// ---------------------------------------------------------------------------------------------
/// A request line: the protocol version, the id, the method and its parameters, as one
/// compact JSON object.
pub open spec fn request_text(id: Seq<char>, method: Seq<char>, params: Seq<char>) -> Seq<char> {
    "{\"protocolVersion\":"@ + decimal_digits(PROTOCOL_VERSION as nat) + ",\"id\":"@
        + json_string(id) + ",\"method\":"@ + json_string(method) + ",\"params\":"@ + params
        + "}"@
}

/// A request is sent when its id is a valid identifier and its line fits in a message.
pub open spec fn request_outcome(id: Seq<char>, method: Seq<char>, params: Seq<char>) -> Result<
    Seq<char>,
    (),
> {
    if !spec_valid_identifier(id) {
        Err(())
    } else if byte_len(request_text(id, method, params)) > MAX_MESSAGE_BYTES {
        Err(())
    } else {
        Ok(request_text(id, method, params))
    }
}

/// Outcome of a request builder, compared with the expected outcome.
pub open spec fn built_as(r: Result<String, ()>, expected: Result<Seq<char>, ()>) -> bool {
    match (r, expected) {
        (Ok(s), Ok(t)) => s@ == t,
        (Err(()), Err(())) => true,
        _ => false,
    }
}

fn request(id: &str, method: &str, params: String) -> (r: Result<String, ()>)
    ensures
        built_as(r, request_outcome(id@, method@, params@)),
{
    if !valid_identifier(id) {
        return Err(());
    }
    let mut line = String::new();
    line.append("{\"protocolVersion\":");
    push_decimal(&mut line, PROTOCOL_VERSION as u64);
    line.append(",\"id\":");
    push_json_string(&mut line, id);
    line.append(",\"method\":");
    push_json_string(&mut line, method);
    line.append(",\"params\":");
    line.append(params.as_str());
    line.append("}");
    assert(line@ =~= request_text(id@, method@, params@));
    if line.as_str().len() > MAX_MESSAGE_BYTES {
        return Err(());
    }
    Ok(line)
}

pub fn health_request(id: &str) -> (r: Result<String, ()>)
    ensures
        built_as(r, request_outcome(id@, "runtime.health"@, "{}"@)),
{
    request(id, "runtime.health", "{}".to_string())
}

pub fn shutdown_request(id: &str) -> (r: Result<String, ()>)
    ensures
        built_as(r, request_outcome(id@, "runtime.shutdown"@, "{}"@)),
{
    request(id, "runtime.shutdown", "{}".to_string())
}

pub fn discovery_request(id: &str) -> (r: Result<String, ()>)
    ensures
        built_as(r, request_outcome(id@, "provider.discover"@, "{}"@)),
{
    request(id, "provider.discover", "{}".to_string())
}

/// Asks for a model's details; refused for an invalid provider model id.
pub fn show_model_request(id: &str, provider_model_id: &str) -> (r: Result<String, ()>)
    ensures
        !spec_valid_provider_model_id(provider_model_id@) ==> r is Err,
        spec_valid_provider_model_id(provider_model_id@) ==> built_as(
            r,
            request_outcome(
                id@,
                "provider.show"@,
                "{\"model\":"@ + json_string(provider_model_id@) + "}"@,
            ),
        ),
{
    if !valid_provider_model_id(provider_model_id) {
        return Err(());
    }
    let mut params = String::new();
    params.append("{\"model\":");
    push_json_string(&mut params, provider_model_id);
    params.append("}");
    request(id, "provider.show", params)
}

/// Asks to cancel the generation `target_request_id`.
pub fn cancellation_request(id: &str, target_request_id: &str) -> (r: Result<String, ()>)
    ensures
        built_as(
            r,
            request_outcome(
                id@,
                "generation.cancel"@,
                "{\"requestId\":"@ + json_string(target_request_id@) + "}"@,
            ),
        ),
{
    let mut params = String::new();
    params.append("{\"requestId\":");
    push_json_string(&mut params, target_request_id);
    params.append("}");
    request(id, "generation.cancel", params)
}

/// A prompt message as a JSON object.
pub open spec fn prompt_json(m: PromptMessage) -> Seq<char> {
    "{\"content\":"@ + json_string(m.content@) + ",\"role\":"@ + json_string(m.role@) + "}"@
}

pub open spec fn prompt_list_json(s: Seq<PromptMessage>) -> Seq<char>
    decreases s.len(),
{
    if s.len() == 0 {
        Seq::empty()
    } else if s.len() == 1 {
        prompt_json(s[0])
    } else {
        prompt_list_json(s.drop_last()) + ","@ + prompt_json(s.last())
    }
}

/// The parameters of a generation, keys in sorted order.
pub open spec fn generation_params(
    agent_id: Seq<char>,
    conversation_id: Seq<char>,
    assistant_message_id: Seq<char>,
    provider_model_id: Seq<char>,
    keep_alive_minutes: u32,
    messages: Seq<PromptMessage>,
) -> Seq<char> {
    "{\"agentId\":"@ + json_string(agent_id) + ",\"assistantMessageId\":"@ + json_string(
        assistant_message_id,
    ) + ",\"conversationId\":"@ + json_string(conversation_id) + ",\"keepAliveMinutes\":"@
        + decimal_digits(keep_alive_minutes as nat) + ",\"messages\":["@ + prompt_list_json(
        messages,
    ) + "],\"model\":"@ + json_string(provider_model_id) + "}"@
}

/// Starts a generation with the prompt as structured messages; refused for an invalid
/// provider model id.
pub fn generation_request(
    request_id: &str,
    agent_id: &str,
    conversation_id: &str,
    assistant_message_id: &str,
    provider_model_id: &str,
    keep_alive_minutes: u32,
    messages: &[PromptMessage],
) -> (r: Result<String, ()>)
    ensures
        !spec_valid_provider_model_id(provider_model_id@) ==> r is Err,
        spec_valid_provider_model_id(provider_model_id@) ==> built_as(
            r,
            request_outcome(
                request_id@,
                "generation.start"@,
                generation_params(
                    agent_id@,
                    conversation_id@,
                    assistant_message_id@,
                    provider_model_id@,
                    keep_alive_minutes,
                    messages@,
                ),
            ),
        ),
{
    if !valid_provider_model_id(provider_model_id) {
        return Err(());
    }
    let mut params = String::new();
    params.append("{\"agentId\":");
    push_json_string(&mut params, agent_id);
    params.append(",\"assistantMessageId\":");
    push_json_string(&mut params, assistant_message_id);
    params.append(",\"conversationId\":");
    push_json_string(&mut params, conversation_id);
    params.append(",\"keepAliveMinutes\":");
    push_decimal(&mut params, keep_alive_minutes as u64);
    params.append(",\"messages\":[");
    let ghost head = params@;
    let n = messages.len();
    let mut k: usize = 0;
    while k < n
        invariant
            n == messages@.len(),
            k <= n,
            params@ == head + prompt_list_json(messages@.take(k as int)),
        decreases n - k,
    {
        if k > 0 {
            params.append(",");
        }
        params.append("{\"content\":");
        push_json_string(&mut params, messages[k].content.as_str());
        params.append(",\"role\":");
        push_json_string(&mut params, messages[k].role);
        params.append("}");
        proof {
            let t = messages@.take(k + 1);
            assert(t.drop_last() =~= messages@.take(k as int));
            assert(t.last() == messages@[k as int]);
            if k == 0 {
                assert(t.len() == 1);
            }
            assert(params@ =~= head + prompt_list_json(t));
        }
        k = k + 1;
    }
    assert(messages@.take(n as int) =~= messages@);
    params.append("],\"model\":");
    push_json_string(&mut params, provider_model_id);
    params.append("}");
    assert(params@ =~= generation_params(
        agent_id@,
        conversation_id@,
        assistant_message_id@,
        provider_model_id@,
        keep_alive_minutes,
        messages@,
    ));
    request(request_id, "generation.start", params)
}

// ---------------------------------------------------------------------------------------------
// Responses and events
// ---------------------------------------------------------------------------------------------
pub open spec fn event_named(e: Seq<char>) -> bool {
    e == "generation.started"@ || e == "generation.chunk"@ || e == "generation.complete"@ || e
        == "generation.failed"@ || e == "generation.cancelled"@
}

/// Whether an event is accepted: versioned, correlated by valid identifiers, of a known kind, and
/// carrying exactly the members its kind calls for.
pub open spec fn event_accepted(e: EventEnvelope) -> bool {
    let name = e.event@;
    &&& e.protocol_version == PROTOCOL_VERSION
    &&& spec_valid_identifier(e.request_id@)
    &&& spec_valid_identifier(e.agent_id@)
    &&& spec_valid_identifier(e.conversation_id@)
    &&& spec_valid_identifier(e.assistant_message_id@)
    &&& event_named(name)
    &&& !(e.content matches Some(c) && (c@.len() == 0 || byte_len(c@) > MAX_STREAM_CHUNK_BYTES))
    &&& !(e.error_code matches Some(c) && !spec_valid_code(c@))
    &&& name == "generation.chunk"@ ==> e.sequence is Some && e.content is Some
        && e.error_code is None
    &&& name == "generation.started"@ ==> e.sequence == Some(0u64) && e.content is None
        && e.error_code is None
    &&& (name == "generation.complete"@ || name == "generation.cancelled"@) ==> e.sequence is Some
        && e.content is None && e.error_code is None
    &&& name == "generation.failed"@ ==> e.sequence is Some && e.content is None
        && e.error_code is Some
    &&& name != "generation.chunk"@ ==> e.content is None
}

pub open spec fn event_output(e: EventEnvelope) -> PhaseOneEvent {
    PhaseOneEvent {
        protocol_version: e.protocol_version,
        event_type: e.event,
        request_id: Some(e.request_id),
        agent_id: Some(e.agent_id),
        conversation_id: Some(e.conversation_id),
        assistant_message_id: Some(e.assistant_message_id),
        sequence: e.sequence,
        content: e.content,
        error_code: e.error_code,
    }
}

fn is_event(name: &str, expected: &str) -> (r: bool)
    ensures
        r == (name@ == expected@),
{
    text_equal(name, expected)
}

fn parse_event(event: EventEnvelope) -> (r: Result<RuntimeOutput, ()>)
    ensures
        event_accepted(event) ==> r == Ok::<RuntimeOutput, ()>(
            RuntimeOutput::Event(event_output(event)),
        ),
        !event_accepted(event) ==> r is Err,
{
    let name = event.event.as_str();
    let started = is_event(name, "generation.started");
    let chunk = is_event(name, "generation.chunk");
    let complete = is_event(name, "generation.complete");
    let failed = is_event(name, "generation.failed");
    let cancelled = is_event(name, "generation.cancelled");
    let content_bad = match &event.content {
        Some(c) => c.as_str().is_empty() || c.as_str().len() > MAX_STREAM_CHUNK_BYTES,
        None => false,
    };
    let code_bad = match &event.error_code {
        Some(c) => !valid_code(c.as_str()),
        None => false,
    };
    if event.protocol_version != PROTOCOL_VERSION || !valid_identifier(event.request_id.as_str())
        || !valid_identifier(event.agent_id.as_str()) || !valid_identifier(
        event.conversation_id.as_str(),
    ) || !valid_identifier(event.assistant_message_id.as_str()) || !(started || chunk || complete
        || failed || cancelled) || content_bad || code_bad {
        return Err(());
    }
    if chunk && (event.sequence.is_none() || event.content.is_none() || event.error_code.is_some()) {
        return Err(());
    }
    let starts_at_zero = match event.sequence {
        Some(s) => s == 0,
        None => false,
    };
    if started && (!starts_at_zero || event.content.is_some() || event.error_code.is_some()) {
        return Err(());
    }
    if (complete || cancelled) && (event.sequence.is_none() || event.content.is_some()
        || event.error_code.is_some()) {
        return Err(());
    }
    if failed && (event.sequence.is_none() || event.content.is_some() || event.error_code.is_none()) {
        return Err(());
    }
    if !chunk && event.content.is_some() {
        return Err(());
    }
    Ok(
        RuntimeOutput::Event(
            PhaseOneEvent {
                protocol_version: event.protocol_version,
                event_type: event.event,
                request_id: Some(event.request_id),
                agent_id: Some(event.agent_id),
                conversation_id: Some(event.conversation_id),
                assistant_message_id: Some(event.assistant_message_id),
                sequence: event.sequence,
                content: event.content,
                error_code: event.error_code,
            },
        ),
    )
}

pub open spec fn is_text(value: Option<String>, expected: Seq<char>) -> bool {
    value matches Some(v) && v@ == expected
}

/// `out` is what a `result` object means, in the order the protocol tests its shapes: a health
/// report, a discovery report, model details, or an acceptance.
pub open spec fn result_describes(id: String, result: ResultFields, out: RuntimeOutput) -> bool {
    if is_text(result.name, "aip-runtime"@) {
        &&& is_text(result.status, "ready"@)
        &&& result.protocol_version == Some(PROTOCOL_VERSION as u64)
        &&& out == RuntimeOutput::HealthReady { id }
    } else if is_text(result.provider, "ollama"@) {
        &&& is_text(result.state, "available"@) || is_text(result.state, "empty"@)
        &&& result.models matches Some(Ok(models))
        &&& models@.len() <= MAX_DISCOVERED_MODELS
        &&& forall|k: int| 0 <= k < models@.len() ==> #[trigger] spec_valid_model(models@[k])
        &&& out matches RuntimeOutput::Provider { id: out_id, snapshot }
        &&& out_id == id
        &&& snapshot.state == (if is_text(result.state, "available"@) {
            ProviderState::Available
        } else {
            ProviderState::Empty
        })
        &&& snapshot.detail_code@ == (if models@.len() == 0 {
            "provider_empty"@
        } else {
            "provider_available"@
        })
        &&& snapshot.models == models
        &&& snapshot.refreshed_at is None
    } else if result.model is Some {
        &&& result.model->0.provider_model_id matches Some(pid)
        &&& result.model->0.capabilities matches Some(Ok(capabilities))
        &&& spec_valid_provider_model_id(pid@)
        &&& capabilities@.len() <= 16
        &&& forall|k: int|
            0 <= k < capabilities@.len() ==> #[trigger] capability_name_ok(capabilities@[k])
        &&& out == RuntimeOutput::ModelDetails { id, provider_model_id: pid, capabilities }
    } else {
        &&& result.status is Some
        &&& out == RuntimeOutput::Accepted { id }
    }
}

fn text_is(value: &Option<String>, expected: &str) -> (r: bool)
    ensures
        r == is_text(*value, expected@),
{
    match value {
        Some(v) => text_equal(v.as_str(), expected),
        None => false,
    }
}

fn parse_result(id: String, result: ResultFields) -> (r: Result<RuntimeOutput, ()>)
    ensures
        match r {
            Ok(out) => result_describes(id, result, out),
            Err(()) => forall|out: RuntimeOutput| !result_describes(id, result, out),
        },
{
    if text_is(&result.name, "aip-runtime") {
        let ready = text_is(&result.status, "ready");
        let versioned = match result.protocol_version {
            Some(v) => v == PROTOCOL_VERSION as u64,
            None => false,
        };
        return if ready && versioned {
            Ok(RuntimeOutput::HealthReady { id })
        } else {
            Err(())
        };
    }
    if text_is(&result.provider, "ollama") {
        let available = text_is(&result.state, "available");
        let empty = text_is(&result.state, "empty");
        if !available && !empty {
            return Err(());
        }
        let models = match result.models {
            Some(Ok(models)) => models,
            _ => {
                return Err(());
            },
        };
        if models.len() > MAX_DISCOVERED_MODELS || !models_valid(&models) {
            return Err(());
        }
        let detail_code = if models.len() == 0 {
            "provider_empty".to_string()
        } else {
            "provider_available".to_string()
        };
        return Ok(
            RuntimeOutput::Provider {
                id,
                snapshot: ProviderSnapshot {
                    state: if available {
                        ProviderState::Available
                    } else {
                        ProviderState::Empty
                    },
                    detail_code,
                    models,
                    refreshed_at: None,
                },
            },
        );
    }
    match result.model {
        Some(model) => {
            let pid = match model.provider_model_id {
                Some(pid) => pid,
                None => {
                    return Err(());
                },
            };
            if !valid_provider_model_id(pid.as_str()) {
                return Err(());
            }
            let capabilities = match model.capabilities {
                Some(Ok(capabilities)) => capabilities,
                _ => {
                    return Err(());
                },
            };
            if !capability_names_ok(&capabilities) {
                return Err(());
            }
            return Ok(RuntimeOutput::ModelDetails { id, provider_model_id: pid, capabilities });
        },
        None => {},
    }
    if result.status.is_some() {
        return Ok(RuntimeOutput::Accepted { id });
    }
    Err(())
}

/// `out` is what a decoded line means: an accepted event, or a versioned response from a valid
/// id that carries either a result that `result_describes` or a well-formed error code.
pub open spec fn line_describes(line: Seq<char>, decoded: DecodedLine, out: RuntimeOutput) -> bool {
    &&& byte_len(line) <= MAX_MESSAGE_BYTES
    &&& match decoded {
        DecodedLine::Malformed => false,
        DecodedLine::Event(Err(())) => false,
        DecodedLine::Event(Ok(e)) => event_accepted(e) && out == RuntimeOutput::Event(
            event_output(e),
        ),
        DecodedLine::Response(Err(())) => false,
        DecodedLine::Response(Ok(response)) => {
            &&& response.protocol_version == PROTOCOL_VERSION
            &&& spec_valid_identifier(response.id@)
            &&& match (response.result, response.error) {
                (Some(result), None) => result_describes(response.id, result, out),
                (None, Some(error)) => spec_valid_code(error.code@) && out
                    == RuntimeOutput::Error { id: response.id, code: error.code },
                _ => false,
            }
        },
    }
}

/// What a line from the runtime means, given the line and its JSON decoding.
pub fn parse_runtime_output(line: &str, decoded: DecodedLine) -> (r: Result<RuntimeOutput, ()>)
    ensures
        match r {
            Ok(out) => line_describes(line@, decoded, out),
            Err(()) => forall|out: RuntimeOutput| !line_describes(line@, decoded, out),
        },
{
    if line.len() > MAX_MESSAGE_BYTES {
        return Err(());
    }
    match decoded {
        DecodedLine::Malformed => Err(()),
        DecodedLine::Event(event) => match event {
            Ok(event) => parse_event(event),
            Err(()) => Err(()),
        },
        DecodedLine::Response(response) => {
            let response = match response {
                Ok(response) => response,
                Err(()) => {
                    return Err(());
                },
            };
            if response.protocol_version != PROTOCOL_VERSION || !valid_identifier(
                response.id.as_str(),
            ) {
                return Err(());
            }
            match (response.result, response.error) {
                (Some(result), None) => parse_result(response.id, result),
                (None, Some(error)) => {
                    if !valid_code(error.code.as_str()) {
                        return Err(());
                    }
                    Ok(RuntimeOutput::Error { id: response.id, code: error.code })
                },
                _ => Err(()),
            }
        },
    }
}

/// Whether a line is the ready health report answering the request `expected_id`.
pub fn parse_health_response(line: &str, decoded: DecodedLine, expected_id: &str) -> (r: Result<
    (),
    (),
>)
    ensures
        r is Ok <==> exists|id: String|
            id@ == expected_id@ && #[trigger] line_describes(
                line@,
                decoded,
                RuntimeOutput::HealthReady { id },
            ),
{
    match parse_runtime_output(line, decoded) {
        Ok(RuntimeOutput::HealthReady { id }) => {
            if text_equal(id.as_str(), expected_id) {
                Ok(())
            } else {
                Err(())
            }
        },
        _ => Err(()),
    }
}


/// `text` holds `piece` somewhere.
pub open spec fn holds_piece(text: Seq<char>, piece: Seq<char>) -> bool {
    exists|i: int| 0 <= i && i + piece.len() <= text.len() && #[trigger] text.subrange(i, i + piece.len()) == piece
}

/// The parameters of a generation carry each identifier under its own key: `agentId` is the
/// agent, `conversationId` the conversation and `assistantMessageId` the reply being written,
/// each written as a JSON string and followed by the next member.
pub proof fn law_generation_ids_keep_their_keys(
    agent_id: Seq<char>,
    conversation_id: Seq<char>,
    assistant_message_id: Seq<char>,
    provider_model_id: Seq<char>,
    keep_alive_minutes: u32,
    messages: Seq<PromptMessage>,
)
    ensures
        ({
            let text = generation_params(
                agent_id,
                conversation_id,
                assistant_message_id,
                provider_model_id,
                keep_alive_minutes,
                messages,
            );
            &&& holds_piece(text, "{\"agentId\":"@ + json_string(agent_id) + ","@)
            &&& holds_piece(text, ",\"conversationId\":"@ + json_string(conversation_id) + ","@)
            &&& holds_piece(
                text,
                ",\"assistantMessageId\":"@ + json_string(assistant_message_id) + ","@,
            )
        }),
{
    let a = "{\"agentId\":"@ + json_string(agent_id);
    let b = ",\"assistantMessageId\":"@ + json_string(assistant_message_id);
    let c = ",\"conversationId\":"@ + json_string(conversation_id);
    let d = ",\"keepAliveMinutes\":"@ + decimal_digits(keep_alive_minutes as nat) + ",\"messages\":["@
        + prompt_list_json(messages) + "],\"model\":"@ + json_string(provider_model_id) + "}"@;
    let text = generation_params(
        agent_id,
        conversation_id,
        assistant_message_id,
        provider_model_id,
        keep_alive_minutes,
        messages,
    );
    reveal_strlit(",\"keepAliveMinutes\":");
    reveal_strlit(",\"assistantMessageId\":");
    reveal_strlit(",");
    reveal_strlit(",\"conversationId\":");
    assert(text =~= a + b + c + d);
    assert(c[0] == ',');
    assert(d[0] == ',');
    assert(b[0] == ',');
    let p1 = "{\"agentId\":"@ + json_string(agent_id) + ","@;
    let i1: int = 0;
    assert(text.subrange(i1, i1 + p1.len()) =~= p1);
    assert(holds_piece(text, p1));
    let p2 = ",\"assistantMessageId\":"@ + json_string(assistant_message_id) + ","@;
    let i2 = a.len() as int;
    assert(text.subrange(i2, i2 + p2.len()) =~= p2);
    assert(holds_piece(text, p2));
    let p3 = ",\"conversationId\":"@ + json_string(conversation_id) + ","@;
    let i3 = (a.len() + b.len()) as int;
    assert(text.subrange(i3, i3 + p3.len()) =~= p3);
    assert(holds_piece(text, p3));
}

} // verus!
