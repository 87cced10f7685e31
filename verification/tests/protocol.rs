use aip_desktop::domain::{OllamaModel, PhaseOneEvent, ProviderState, MAX_STREAM_CHUNK_BYTES};
use aip_desktop::protocol::{
    cancellation_request, discovery_request, generation_request, health_request,
    parse_health_response, show_model_request, shutdown_request, PromptMessage, parse_runtime_output, valid_provider_model_id,
    DecodedLine, ErrorBody, EventEnvelope, ModelDetailsFields, ResponseEnvelope, ResultFields,
    RuntimeOutput, PROTOCOL_VERSION,
};

fn fields() -> ResultFields {
    ResultFields {
        name: None,
        status: None,
        protocol_version: None,
        provider: None,
        state: None,
        models: None,
        model: None,
    }
}

fn response(id: &str, result: ResultFields) -> DecodedLine {
    DecodedLine::Response(Ok(ResponseEnvelope {
        protocol_version: PROTOCOL_VERSION,
        id: id.into(),
        result: Some(result),
        error: None,
    }))
}

fn chunk(content: String) -> DecodedLine {
    DecodedLine::Event(Ok(EventEnvelope {
        protocol_version: 1,
        event: "generation.chunk".into(),
        request_id: "request".into(),
        agent_id: "agent".into(),
        conversation_id: "conversation".into(),
        assistant_message_id: "message".into(),
        sequence: Some(1),
        content: Some(content),
        error_code: None,
    }))
}

fn health(id: &str) -> DecodedLine {
    response(
        id,
        ResultFields {
            name: Some("aip-runtime".into()),
            status: Some("ready".into()),
            protocol_version: Some(1),
            ..fields()
        },
    )
}

#[test]
fn health_round_trip_is_versioned() {
    let request = health_request("health-test").expect("request should serialize");
    assert!(request.contains("\"protocolVersion\":1"));
    let line = r#"{"protocolVersion":1,"id":"health-test","result":{"name":"aip-runtime","status":"ready","protocolVersion":1}}"#;
    assert!(parse_health_response(line, health("health-test"), "health-test").is_ok());
    assert!(parse_health_response(line, health("health-test"), "other").is_err());
    let stale = response(
        "health-test",
        ResultFields {
            name: Some("aip-runtime".into()),
            status: Some("ready".into()),
            protocol_version: Some(2),
            ..fields()
        },
    );
    assert!(parse_health_response(line, stale, "health-test").is_err());
}

#[test]
fn discovery_and_stream_events_are_bounded_and_correlated() {
    let discovery = response(
        "discover",
        ResultFields {
            provider: Some("ollama".into()),
            state: Some("available".into()),
            models: Some(Ok(vec![OllamaModel {
                model_ref: "ollama:test:latest".into(),
                provider_model_id: "test:latest".into(),
                display_name: "test:latest".into(),
                size: 42,
                family: Some("test".into()),
                parameter_size: Some("1B".into()),
                quantization: Some("Q4".into()),
                capabilities: Vec::new(),
            }])),
            ..fields()
        },
    );
    match parse_runtime_output("{}", discovery) {
        Ok(RuntimeOutput::Provider { id, snapshot }) => {
            assert_eq!(id, "discover");
            assert_eq!(snapshot.state, ProviderState::Available);
            assert_eq!(snapshot.detail_code, "provider_available");
            assert_eq!(snapshot.models.len(), 1);
        }
        other => panic!("unexpected output: {other:?}"),
    }
    assert!(matches!(
        parse_runtime_output("{}", chunk("hello".into())),
        Ok(RuntimeOutput::Event(PhaseOneEvent {
            sequence: Some(1),
            ..
        }))
    ));
    assert!(parse_runtime_output("{}", chunk("x".repeat(MAX_STREAM_CHUNK_BYTES + 1))).is_err());
}

#[test]
fn malformed_or_mismatched_messages_are_rejected() {
    assert!(parse_runtime_output("not-json", DecodedLine::Malformed).is_err());
    let wrong_version = DecodedLine::Response(Ok(ResponseEnvelope {
        protocol_version: 99,
        id: "health".into(),
        result: Some(ResultFields {
            status: Some("ready".into()),
            ..fields()
        }),
        error: None,
    }));
    assert!(parse_runtime_output(
        r#"{"protocolVersion":99,"id":"health","result":{"status":"ready"}}"#,
        wrong_version
    )
    .is_err());
    assert!(show_model_request("show", "../../bad model").is_err());
    assert!(!valid_provider_model_id("../../bad model"));
    assert!(valid_provider_model_id("test:latest"));
}

#[test]
fn runtime_errors_and_acceptances_are_read() {
    let error = DecodedLine::Response(Ok(ResponseEnvelope {
        protocol_version: 1,
        id: "req-1".into(),
        result: None,
        error: Some(ErrorBody {
            code: "model_missing".into(),
            message: None,
        }),
    }));
    assert_eq!(
        parse_runtime_output("{}", error),
        Ok(RuntimeOutput::Error {
            id: "req-1".into(),
            code: "model_missing".into()
        })
    );
    let bad_code = DecodedLine::Response(Ok(ResponseEnvelope {
        protocol_version: 1,
        id: "req-1".into(),
        result: None,
        error: Some(ErrorBody {
            code: "Model Missing".into(),
            message: None,
        }),
    }));
    assert!(parse_runtime_output("{}", bad_code).is_err());
    let accepted = response(
        "req-2",
        ResultFields {
            status: Some("accepted".into()),
            ..fields()
        },
    );
    assert_eq!(
        parse_runtime_output("{}", accepted),
        Ok(RuntimeOutput::Accepted { id: "req-2".into() })
    );
    let details = response(
        "req-3",
        ResultFields {
            model: Some(ModelDetailsFields {
                provider_model_id: Some("test:latest".into()),
                capabilities: Some(Ok(vec!["completion".into()])),
            }),
            ..fields()
        },
    );
    assert_eq!(
        parse_runtime_output("{}", details),
        Ok(RuntimeOutput::ModelDetails {
            id: "req-3".into(),
            provider_model_id: "test:latest".into(),
            capabilities: vec!["completion".into()],
        })
    );
}

#[test]
fn started_events_carry_sequence_zero_and_no_content() {
    let started = |sequence: Option<u64>, content: Option<String>| {
        DecodedLine::Event(Ok(EventEnvelope {
            protocol_version: 1,
            event: "generation.started".into(),
            request_id: "request".into(),
            agent_id: "agent".into(),
            conversation_id: "conversation".into(),
            assistant_message_id: "message".into(),
            sequence,
            content,
            error_code: None,
        }))
    };
    assert!(parse_runtime_output("{}", started(Some(0), None)).is_ok());
    assert!(parse_runtime_output("{}", started(Some(3), None)).is_err());
    assert!(parse_runtime_output("{}", started(Some(0), Some("x".into()))).is_err());
    assert!(parse_runtime_output(&"x".repeat(70_000), started(Some(0), None)).is_err());
}

#[test]
fn generation_request_keeps_prompt_structured() {
    let encoded = generation_request(
        "request",
        "agent",
        "conversation",
        "assistant",
        "test:latest",
        15,
        &[PromptMessage {
            role: "user",
            content: "Olá".into(),
        }],
    )
    .unwrap();
    let value: serde_json::Value = serde_json::from_str(&encoded).unwrap();
    assert_eq!(value["params"]["model"], "test:latest");
    assert_eq!(value["params"]["messages"][0]["content"], "Olá");
    assert_eq!(value["params"]["keepAliveMinutes"], 15);
    assert_eq!(value["method"], "generation.start");
    assert_eq!(value["protocolVersion"], 1);
    assert!(generation_request("request", "agent", "c", "a", "../../bad model", 15, &[]).is_err());
}

#[test]
fn requests_are_versioned_and_need_valid_ids() {
    let request = health_request("health-test").expect("request should serialize");
    assert!(request.contains("\"protocolVersion\":1"));
    assert_eq!(
        request,
        "{\"protocolVersion\":1,\"id\":\"health-test\",\"method\":\"runtime.health\",\"params\":{}}"
    );
    assert!(health_request("bad id").is_err());
    assert_eq!(
        shutdown_request("s").unwrap(),
        "{\"protocolVersion\":1,\"id\":\"s\",\"method\":\"runtime.shutdown\",\"params\":{}}"
    );
    assert!(discovery_request("discover").unwrap().contains("provider.discover"));
    assert!(show_model_request("show", "../../bad model").is_err());
    assert_eq!(
        show_model_request("show", "test:latest").unwrap(),
        "{\"protocolVersion\":1,\"id\":\"show\",\"method\":\"provider.show\",\"params\":{\"model\":\"test:latest\"}}"
    );
    assert_eq!(
        cancellation_request("c1", "req-9").unwrap(),
        "{\"protocolVersion\":1,\"id\":\"c1\",\"method\":\"generation.cancel\",\"params\":{\"requestId\":\"req-9\"}}"
    );
    let long = PromptMessage { role: "user", content: "x".repeat(70_000) };
    assert!(generation_request("r", "a", "c", "m", "test:latest", 1, &[long]).is_err());
}
