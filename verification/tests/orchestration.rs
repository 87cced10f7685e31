use aip_desktop::orchestration::{
    ComputeNode, ConnectivityState, GpuResource, HealthSnapshot, HealthState, LoadedModel,
    ModelCapability, ModelSpec, OrchestrationError, OrchestrationManager, Provider, QueueLoad,
    QueueStatus, RequestPriority, ReservationStatus, RoutingRequest,
};

fn healthy() -> HealthSnapshot {
    HealthSnapshot {
        state: HealthState::Healthy,
        connectivity: ConnectivityState::Connected,
        last_health_at_ms: Some(100),
        latency_ms: Some(5),
    }
}

fn node(id: &str, performance: u32, health: HealthSnapshot, queue: QueueLoad) -> ComputeNode {
    ComputeNode {
        id: id.into(),
        ram_total_mb: 32_000,
        ram_available_mb: 24_000,
        gpus: vec![GpuResource {
            id: format!("{id}-gpu"),
            vram_total_mb: 8_000,
            vram_available_mb: 8_000,
            estimated_performance: performance,
        }],
        queue,
        loaded_models: Vec::new(),
        priority: 0,
        estimated_performance: performance,
        estimated_latency_ms: 5,
        health,
    }
}

fn provider(id: &str, node_id: &str) -> Provider {
    Provider {
        id: id.into(),
        node_id: node_id.into(),
        model_refs: vec!["ollama:test".into()],
        priority: 0,
        health: healthy(),
    }
}

fn model() -> ModelSpec {
    ModelSpec {
        model_ref: "ollama:test".into(),
        provider_id: "provider".into(),
        capabilities: vec![ModelCapability::TextGeneration],
        vram_mb: 4_000,
        ram_mb: 4_000,
        estimated_performance: 500,
        estimated_latency_ms: 10,
    }
}

fn request(id: &str) -> RoutingRequest {
    RoutingRequest {
        request_id: id.into(),
        model_ref: None,
        capability: ModelCapability::TextGeneration,
        priority: RequestPriority::ActiveConversation,
        additional_ram_mb: 0,
        max_latency_ms: None,
        created_at_ms: 200,
    }
}

fn manager(nodes: Vec<ComputeNode>) -> OrchestrationManager {
    let mut manager = OrchestrationManager::default();
    for node in nodes {
        manager.register_node(node).unwrap();
    }
    manager
}

fn open_queue(capacity: u16) -> QueueLoad {
    QueueLoad {
        depth: 0,
        active: 0,
        capacity,
    }
}

#[test]
fn stronger_unavailable_node_loses_to_weaker_healthy_node() {
    let mut manager = manager(vec![
        node(
            "strong",
            1_000,
            HealthSnapshot {
                state: HealthState::Unavailable,
                ..healthy()
            },
            open_queue(4),
        ),
        node("weak", 100, healthy(), open_queue(4)),
    ]);
    manager
        .register_provider(provider("strong-provider", "strong"))
        .unwrap();
    manager.register_provider(provider("provider", "weak")).unwrap();
    manager.register_model(model()).unwrap();

    let reservation = manager.reserve(request("unavailable-fallback")).unwrap();
    assert_eq!(reservation.node_id, "weak");
}

#[test]
fn ready_weaker_node_beats_stronger_busy_node() {
    let mut manager = manager(vec![
        node(
            "strong-busy",
            1_000,
            healthy(),
            QueueLoad {
                depth: 1,
                active: 1,
                capacity: 4,
            },
        ),
        node("weak-ready", 100, healthy(), open_queue(4)),
    ]);
    manager
        .register_provider(provider("strong-provider", "strong-busy"))
        .unwrap();
    manager
        .register_provider(provider("provider", "weak-ready"))
        .unwrap();
    manager.register_model(model()).unwrap();

    let reservation = manager.reserve(request("busy-fallback")).unwrap();
    assert_eq!(reservation.node_id, "weak-ready");
    assert_eq!(reservation.queue_status, QueueStatus::Ready);
}

#[test]
fn loaded_model_reuse_can_beat_stronger_unloaded_hardware() {
    let mut loaded = node("loaded", 100, healthy(), open_queue(4));
    loaded.loaded_models.push(LoadedModel {
        model_ref: "ollama:test".into(),
        gpu_id: Some("loaded-gpu".into()),
        vram_mb: 4_000,
        last_used_at_ms: Some(150),
    });
    let mut manager = manager(vec![
        node("strong-unloaded", 1_000, healthy(), open_queue(4)),
        loaded,
    ]);
    manager
        .register_provider(provider("strong-provider", "strong-unloaded"))
        .unwrap();
    manager.register_provider(provider("provider", "loaded")).unwrap();
    manager.register_model(model()).unwrap();

    let reservation = manager.reserve(request("reuse-preference")).unwrap();
    assert_eq!(reservation.node_id, "loaded");
    assert!(reservation.loaded_model_reuse);
}

#[test]
fn no_compatible_candidate_is_reported() {
    let mut manager = manager(vec![node("text-only", 100, healthy(), open_queue(4))]);
    manager
        .register_provider(provider("provider", "text-only"))
        .unwrap();
    manager.register_model(model()).unwrap();
    let mut request = request("no-vision");
    request.capability = ModelCapability::Vision;

    assert_eq!(
        manager.reserve(request),
        Err(OrchestrationError::NoCompatibleCandidate)
    );
}

#[test]
fn queue_reports_ready_full_and_completed_states() {
    let mut manager = manager(vec![node("queue-node", 100, healthy(), open_queue(1))]);
    manager
        .register_provider(provider("provider", "queue-node"))
        .unwrap();
    manager.register_model(model()).unwrap();

    let reservation = manager.reserve(request("queue-one")).unwrap();
    assert_eq!(reservation.queue_status, QueueStatus::Ready);
    assert_eq!(reservation.queue_position, 0);
    assert_eq!(manager.queue_status("queue-node").unwrap().depth, 1);
    assert_eq!(
        manager.reserve(request("queue-two")),
        Err(OrchestrationError::QueueFull)
    );
    let completed = manager.complete("queue-one").unwrap();
    assert_eq!(completed.status, ReservationStatus::Completed);
    assert_eq!(manager.queue_status("queue-node").unwrap().depth, 0);
}

#[test]
fn failed_reservation_falls_back_without_leaking_the_first_candidate() {
    let mut manager = manager(vec![
        node("first", 1_000, healthy(), open_queue(4)),
        node("second", 100, healthy(), open_queue(4)),
    ]);
    manager
        .register_provider(provider("first-provider", "first"))
        .unwrap();
    manager.register_provider(provider("provider", "second")).unwrap();
    manager.register_model(model()).unwrap();
    let mut attempts = Vec::new();

    let reservation = manager
        .reserve_with(request("reservation-fallback"), |candidate| {
            attempts.push(candidate.node_id.clone());
            if candidate.node_id == "first" {
                Err("provider_busy")
            } else {
                Ok(())
            }
        })
        .unwrap();
    assert_eq!(attempts, vec!["first", "second"]);
    assert_eq!(reservation.node_id, "second");
    assert_eq!(manager.queue_status("first").unwrap().depth, 0);
    assert_eq!(manager.queue_status("second").unwrap().depth, 1);
}

#[test]
fn duplicate_request_returns_the_same_reservation_without_duplicate_queue_entry() {
    let mut manager = manager(vec![node("idempotent", 100, healthy(), open_queue(4))]);
    manager
        .register_provider(provider("provider", "idempotent"))
        .unwrap();
    manager.register_model(model()).unwrap();
    let first = manager.reserve(request("duplicate")).unwrap();
    let second = manager.reserve(request("duplicate")).unwrap();

    assert_eq!(first, second);
    assert_eq!(manager.queue_status("idempotent").unwrap().depth, 1);
}

#[test]
fn contracts_validate_bounds_and_preserve_health_timestamp_serialization() {
    let health = healthy();
    assert_eq!(health.last_health_at_ms, Some(100));

    let invalid = ComputeNode {
        id: "node\ninvalid".into(),
        ..node("valid", 100, health, open_queue(4))
    };
    assert_eq!(
        invalid.validate(),
        Err(OrchestrationError::InvalidContract("node_id"))
    );
}

#[test]
fn refused_reservation_leaves_every_queue_untouched() {
    let mut manager = manager(vec![node("only", 100, healthy(), open_queue(4))]);
    manager.register_provider(provider("provider", "only")).unwrap();
    manager.register_model(model()).unwrap();
    let refused = manager.reserve_with(request("refused"), |_| Err("provider_busy"));
    assert_eq!(refused, Err(OrchestrationError::ReservationFailed));
    assert_eq!(manager.queue_status("only").unwrap().depth, 0);
    assert_eq!(manager.complete("refused"), Err(OrchestrationError::ReservationNotFound));
}

#[test]
fn completing_twice_keeps_the_queue_released() {
    let mut manager = manager(vec![node("node", 100, healthy(), open_queue(2))]);
    manager.register_provider(provider("provider", "node")).unwrap();
    manager.register_model(model()).unwrap();
    manager.reserve(request("once")).unwrap();
    let first = manager.complete("once").unwrap();
    let second = manager.complete("once").unwrap();
    assert_eq!(first, second);
    assert_eq!(manager.queue_status("node").unwrap().depth, 0);
}

#[test]
fn unknown_node_has_no_queue_and_providers_need_their_node() {
    let mut manager = manager(vec![node("node", 100, healthy(), open_queue(2))]);
    assert_eq!(manager.queue_status("missing"), Err(OrchestrationError::NodeNotFound));
    assert_eq!(
        manager.register_provider(provider("provider", "missing")),
        Err(OrchestrationError::NodeNotFound)
    );
}
