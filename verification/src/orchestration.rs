//! Routing of generation requests across local compute nodes, providers and models.
use vstd::prelude::*;
use vstd::multiset::Multiset;
use vstd::utf8::encode_utf8;

use crate::seqs::{first_match, lemma_first_match, lemma_first_match_props};
use crate::text::{
    all_chars_in_class, all_in_class, byte_len, lemma_bytes_lt_asymmetric, lemma_bytes_lt_transitive,
    text_equal, text_less, text_lt, CharClass,
};

verus! {

pub const MAX_COMPUTE_NODES: usize = 16;
pub const MAX_PROVIDERS: usize = 32;
pub const MAX_MODELS: usize = 128;
pub const MAX_ID_LENGTH: usize = 128;
pub const MAX_MODEL_REFS_PER_PROVIDER: usize = 64;
pub const MAX_LOADED_MODELS_PER_NODE: usize = 32;
pub const MAX_GPUS_PER_NODE: usize = 8;
pub const MAX_QUEUE_CAPACITY: u16 = 64;
pub const MAX_RESERVATIONS: usize = 256;
pub const MAX_MEMORY_MB: u64 = 2_000_000;
pub const MAX_PERFORMANCE_SCORE: u32 = 1_000_000;
pub const MAX_LATENCY_MS: u32 = 60_000;

#[derive(Debug, Clone, Copy, PartialEq, Eq, Structural)]
pub enum ModelCapability {
    TextGeneration,
    Vision,
    Embeddings,
    SpeechToText,
    TextToSpeech,
}

#[derive(Debug, Clone, Copy, PartialEq, Eq, Structural)]
pub enum HealthState {
    Healthy,
    Degraded,
    Unavailable,
    Unknown,
}

#[derive(Debug, Clone, Copy, PartialEq, Eq, Structural)]
pub enum ConnectivityState {
    Connected,
    Disconnected,
    Checking,
}

#[derive(Debug, Clone, Copy, PartialEq, Eq, Structural)]
pub struct HealthSnapshot {
    pub state: HealthState,
    pub connectivity: ConnectivityState,
    pub last_health_at_ms: Option<u64>,
    pub latency_ms: Option<u32>,
}

#[derive(Debug, Clone, PartialEq, Eq)]
pub struct GpuResource {
    pub id: String,
    pub vram_total_mb: u64,
    pub vram_available_mb: u64,
    pub estimated_performance: u32,
}

#[derive(Debug, Clone, PartialEq, Eq)]
pub struct LoadedModel {
    pub model_ref: String,
    pub gpu_id: Option<String>,
    pub vram_mb: u64,
    pub last_used_at_ms: Option<u64>,
}

#[derive(Debug, Clone, Copy, PartialEq, Eq, Structural)]
pub struct QueueLoad {
    pub depth: u16,
    pub active: u16,
    pub capacity: u16,
}

#[derive(Debug, Clone, PartialEq, Eq)]
pub struct ComputeNode {
    pub id: String,
    pub ram_total_mb: u64,
    pub ram_available_mb: u64,
    pub gpus: Vec<GpuResource>,
    pub queue: QueueLoad,
    pub loaded_models: Vec<LoadedModel>,
    pub priority: i32,
    pub estimated_performance: u32,
    pub estimated_latency_ms: u32,
    pub health: HealthSnapshot,
}

#[derive(Debug, Clone, PartialEq, Eq)]
pub struct Provider {
    pub id: String,
    pub node_id: String,
    pub model_refs: Vec<String>,
    pub priority: i32,
    pub health: HealthSnapshot,
}

#[derive(Debug, Clone, PartialEq, Eq)]
pub struct ModelSpec {
    pub model_ref: String,
    pub provider_id: String,
    pub capabilities: Vec<ModelCapability>,
    pub vram_mb: u64,
    pub ram_mb: u64,
    pub estimated_performance: u32,
    pub estimated_latency_ms: u32,
}

#[derive(Debug, Clone, Copy, PartialEq, Eq, Structural)]
pub enum RequestPriority {
    Background,
    Maintenance,
    OwnerCommand,
    ActiveConversation,
}

#[derive(Debug, Clone, PartialEq, Eq)]
pub struct RoutingRequest {
    pub request_id: String,
    pub model_ref: Option<String>,
    pub capability: ModelCapability,
    pub priority: RequestPriority,
    pub additional_ram_mb: u64,
    pub max_latency_ms: Option<u32>,
    pub created_at_ms: u64,
}

#[derive(Debug, Clone, Copy, PartialEq, Eq, Structural)]
pub enum QueueStatus {
    Ready,
    Queued,
    Full,
}

#[derive(Debug, Clone, PartialEq, Eq)]
pub struct RouteCandidate {
    pub node_id: String,
    pub provider_id: String,
    pub model_ref: String,
    pub score: i64,
    pub queue_status: QueueStatus,
    pub queue_position: u16,
    pub loaded_model_reuse: bool,
    pub available_vram_mb: u64,
    pub available_ram_mb: u64,
    pub estimated_latency_ms: u32,
}

#[derive(Debug, Clone, Copy, PartialEq, Eq, Structural)]
pub enum ReservationStatus {
    Reserved,
    Completed,
}

#[derive(Debug, Clone, PartialEq, Eq)]
pub struct GenerationReservation {
    pub request_id: String,
    pub node_id: String,
    pub provider_id: String,
    pub model_ref: String,
    pub score: i64,
    pub queue_status: QueueStatus,
    pub queue_position: u16,
    pub loaded_model_reuse: bool,
    pub reserved_ram_mb: u64,
    pub status: ReservationStatus,
}

#[derive(Debug, Clone, PartialEq, Eq)]
pub enum OrchestrationError {
    InvalidContract(&'static str),
    RegistryFull,
    NodeNotFound,
    ProviderNotFound,
    NoCompatibleCandidate,
    NoHealthyCandidate,
    NoResources,
    QueueFull,
    ReservationFailed,
    ReservationStoreFull,
    ReservationNotFound,
}

/// The routing policy of a chat request; requests that name none route automatically.
#[derive(Debug, Clone, Copy, PartialEq, Eq, Structural)]
pub enum RoutingPolicy {
    Auto,
}

impl Default for RoutingPolicy {
    fn default() -> (r: Self)
        ensures
            r == RoutingPolicy::Auto,
    {
        RoutingPolicy::Auto
    }
}

/// The policy given, or the automatic default when none was given.
pub fn routing_policy_or_default(policy: Option<RoutingPolicy>) -> (r: RoutingPolicy)
    ensures
        r == (match policy {
            Some(p) => p,
            None => RoutingPolicy::Auto,
        }),
{
    match policy {
        Some(p) => p,
        None => RoutingPolicy::Auto,
    }
}

// ---------------------------------------------------------------------------------------------
// Validation of contracts
// ---------------------------------------------------------------------------------------------
/// An identifier is non-empty, at most `MAX_ID_LENGTH` bytes long and free of control characters.
pub open spec fn valid_id(value: Seq<char>) -> bool {
    value.len() > 0 && byte_len(value) <= MAX_ID_LENGTH && all_in_class(value, CharClass::NonControl)
}

pub open spec fn id_check(value: Seq<char>, field: &'static str) -> Result<(), OrchestrationError> {
    if valid_id(value) {
        Ok(())
    } else {
        Err(OrchestrationError::InvalidContract(field))
    }
}

fn validate_id(value: &str, field: &'static str) -> (r: Result<(), OrchestrationError>)
    ensures
        r == id_check(value@, field),
{
    if value.is_empty() || value.len() > MAX_ID_LENGTH || !all_chars_in_class(
        value,
        CharClass::NonControl,
    ) {
        return Err(OrchestrationError::InvalidContract(field));
    }
    Ok(())
}

impl HealthSnapshot {
    pub open spec fn check(self) -> Result<(), OrchestrationError> {
        if self.latency_ms matches Some(l) && l > MAX_LATENCY_MS {
            Err(OrchestrationError::InvalidContract("health_latency"))
        } else {
            Ok(())
        }
    }

    pub open spec fn usable(self) -> bool {
        (self.state == HealthState::Healthy || self.state == HealthState::Degraded)
            && self.connectivity == ConnectivityState::Connected
    }

    pub open spec fn health_score(self) -> int {
        match self.state {
            HealthState::Healthy => 1_000,
            HealthState::Degraded => 250,
            _ => 0,
        }
    }

    fn validate(&self) -> (r: Result<(), OrchestrationError>)
        ensures
            r == self.check(),
    {
        match self.latency_ms {
            Some(latency) => {
                if latency > MAX_LATENCY_MS {
                    return Err(OrchestrationError::InvalidContract("health_latency"));
                }
            },
            None => {},
        }
        Ok(())
    }

    fn is_usable(self) -> (r: bool)
        ensures
            r == self.usable(),
    {
        let state_ok = match self.state {
            HealthState::Healthy => true,
            HealthState::Degraded => true,
            _ => false,
        };
        let connected = match self.connectivity {
            ConnectivityState::Connected => true,
            _ => false,
        };
        state_ok && connected
    }

    fn score(self) -> (r: i64)
        ensures
            r == self.health_score(),
    {
        match self.state {
            HealthState::Healthy => 1_000,
            HealthState::Degraded => 250,
            HealthState::Unavailable => 0,
            HealthState::Unknown => 0,
        }
    }
}

impl GpuResource {
    pub open spec fn check(self) -> Result<(), OrchestrationError> {
        if !valid_id(self.id@) {
            Err(OrchestrationError::InvalidContract("gpu_id"))
        } else if self.vram_total_mb == 0 || self.vram_total_mb > MAX_MEMORY_MB
            || self.vram_available_mb > self.vram_total_mb || self.estimated_performance
            > MAX_PERFORMANCE_SCORE {
            Err(OrchestrationError::InvalidContract("gpu_resources"))
        } else {
            Ok(())
        }
    }

    fn validate(&self) -> (r: Result<(), OrchestrationError>)
        ensures
            r == self.check(),
    {
        validate_id(&self.id, "gpu_id")?;
        if self.vram_total_mb == 0 || self.vram_total_mb > MAX_MEMORY_MB || self.vram_available_mb
            > self.vram_total_mb || self.estimated_performance > MAX_PERFORMANCE_SCORE {
            return Err(OrchestrationError::InvalidContract("gpu_resources"));
        }
        Ok(())
    }
}

impl LoadedModel {
    pub open spec fn check(self) -> Result<(), OrchestrationError> {
        if !valid_id(self.model_ref@) {
            Err(OrchestrationError::InvalidContract("loaded_model_ref"))
        } else if self.gpu_id matches Some(g) && !valid_id(g@) {
            Err(OrchestrationError::InvalidContract("loaded_gpu_id"))
        } else if self.vram_mb > MAX_MEMORY_MB {
            Err(OrchestrationError::InvalidContract("loaded_model_memory"))
        } else {
            Ok(())
        }
    }

    fn validate(&self) -> (r: Result<(), OrchestrationError>)
        ensures
            r == self.check(),
    {
        validate_id(&self.model_ref, "loaded_model_ref")?;
        match &self.gpu_id {
            Some(gpu_id) => {
                validate_id(gpu_id, "loaded_gpu_id")?;
            },
            None => {},
        }
        if self.vram_mb > MAX_MEMORY_MB {
            return Err(OrchestrationError::InvalidContract("loaded_model_memory"));
        }
        Ok(())
    }
}

impl QueueLoad {
    pub open spec fn check(self) -> Result<(), OrchestrationError> {
        if self.capacity == 0 || self.capacity > MAX_QUEUE_CAPACITY || self.depth > self.capacity
            || self.active > self.depth {
            Err(OrchestrationError::InvalidContract("queue_load"))
        } else {
            Ok(())
        }
    }

    pub open spec fn full(self) -> bool {
        self.depth >= self.capacity
    }

    fn validate(&self) -> (r: Result<(), OrchestrationError>)
        ensures
            r == self.check(),
    {
        if self.capacity == 0 || self.capacity > MAX_QUEUE_CAPACITY || self.depth > self.capacity
            || self.active > self.depth {
            return Err(OrchestrationError::InvalidContract("queue_load"));
        }
        Ok(())
    }

    fn is_full(&self) -> (r: bool)
        ensures
            r == self.full(),
    {
        self.depth >= self.capacity
    }
}

/// The first failure among a sequence of GPU checks, in order.
pub open spec fn gpus_check(gpus: Seq<GpuResource>) -> Result<(), OrchestrationError>
    decreases gpus.len(),
{
    if gpus.len() == 0 {
        Ok(())
    } else if gpus[0].check() is Err {
        gpus[0].check()
    } else {
        gpus_check(gpus.drop_first())
    }
}

/// The first failure among a sequence of loaded-model checks, in order.
pub open spec fn loaded_check(models: Seq<LoadedModel>) -> Result<(), OrchestrationError>
    decreases models.len(),
{
    if models.len() == 0 {
        Ok(())
    } else if models[0].check() is Err {
        models[0].check()
    } else {
        loaded_check(models.drop_first())
    }
}

/// The first failure among a sequence of identifier checks, in order.
pub open spec fn ids_check(values: Seq<String>, field: &'static str) -> Result<
    (),
    OrchestrationError,
>
    decreases values.len(),
{
    if values.len() == 0 {
        Ok(())
    } else if !valid_id(values[0]@) {
        Err(OrchestrationError::InvalidContract(field))
    } else {
        ids_check(values.drop_first(), field)
    }
}

pub open spec fn abs_i32(v: i32) -> int {
    if v < 0 {
        -(v as int)
    } else {
        v as int
    }
}

fn validate_gpus(gpus: &Vec<GpuResource>) -> (r: Result<(), OrchestrationError>)
    ensures
        r == gpus_check(gpus@),
{
    let mut i: usize = 0;
    assert(gpus@.subrange(0, gpus@.len() as int) =~= gpus@);
    while i < gpus.len()
        invariant
            i <= gpus.len(),
            gpus_check(gpus@) == gpus_check(gpus@.subrange(i as int, gpus@.len() as int)),
        decreases gpus.len() - i,
    {
        let ghost rest = gpus@.subrange(i as int, gpus@.len() as int);
        assert(rest[0] == gpus@[i as int]);
        assert(rest.drop_first() =~= gpus@.subrange(i + 1, gpus@.len() as int));
        gpus[i].validate()?;
        i = i + 1;
    }
    Ok(())
}

fn validate_loaded(models: &Vec<LoadedModel>) -> (r: Result<(), OrchestrationError>)
    ensures
        r == loaded_check(models@),
{
    let mut i: usize = 0;
    assert(models@.subrange(0, models@.len() as int) =~= models@);
    while i < models.len()
        invariant
            i <= models.len(),
            loaded_check(models@) == loaded_check(models@.subrange(i as int, models@.len() as int)),
        decreases models.len() - i,
    {
        let ghost rest = models@.subrange(i as int, models@.len() as int);
        assert(rest[0] == models@[i as int]);
        assert(rest.drop_first() =~= models@.subrange(i + 1, models@.len() as int));
        models[i].validate()?;
        i = i + 1;
    }
    Ok(())
}

fn validate_ids(values: &Vec<String>, field: &'static str) -> (r: Result<(), OrchestrationError>)
    ensures
        r == ids_check(values@, field),
{
    let mut i: usize = 0;
    assert(values@.subrange(0, values@.len() as int) =~= values@);
    while i < values.len()
        invariant
            i <= values.len(),
            ids_check(values@, field) == ids_check(
                values@.subrange(i as int, values@.len() as int),
                field,
            ),
        decreases values.len() - i,
    {
        let ghost rest = values@.subrange(i as int, values@.len() as int);
        assert(rest[0] == values@[i as int]);
        assert(rest.drop_first() =~= values@.subrange(i + 1, values@.len() as int));
        validate_id(&values[i], field)?;
        i = i + 1;
    }
    Ok(())
}

impl ComputeNode {
    /// The outcome of `validate`: the first failing check, in the order the fields are checked.
    pub open spec fn check(self) -> Result<(), OrchestrationError> {
        if !valid_id(self.id@) {
            Err(OrchestrationError::InvalidContract("node_id"))
        } else if self.ram_total_mb == 0 || self.ram_total_mb > MAX_MEMORY_MB
            || self.ram_available_mb > self.ram_total_mb || abs_i32(self.priority) > 1_000
            || self.estimated_performance > MAX_PERFORMANCE_SCORE || self.estimated_latency_ms
            > MAX_LATENCY_MS || self.gpus.len() > MAX_GPUS_PER_NODE || self.loaded_models.len()
            > MAX_LOADED_MODELS_PER_NODE {
            Err(OrchestrationError::InvalidContract("compute_node"))
        } else if gpus_check(self.gpus@) is Err {
            gpus_check(self.gpus@)
        } else if loaded_check(self.loaded_models@) is Err {
            loaded_check(self.loaded_models@)
        } else if self.queue.check() is Err {
            self.queue.check()
        } else {
            self.health.check()
        }
    }

    pub fn validate(&self) -> (r: Result<(), OrchestrationError>)
        ensures
            r == self.check(),
    {
        validate_id(&self.id, "node_id")?;
        let priority_too_large = self.priority > 1_000 || self.priority < -1_000;
        if self.ram_total_mb == 0 || self.ram_total_mb > MAX_MEMORY_MB || self.ram_available_mb
            > self.ram_total_mb || priority_too_large || self.estimated_performance
            > MAX_PERFORMANCE_SCORE || self.estimated_latency_ms > MAX_LATENCY_MS
            || self.gpus.len() > MAX_GPUS_PER_NODE || self.loaded_models.len()
            > MAX_LOADED_MODELS_PER_NODE {
            return Err(OrchestrationError::InvalidContract("compute_node"));
        }
        validate_gpus(&self.gpus)?;
        validate_loaded(&self.loaded_models)?;
        self.queue.validate()?;
        self.health.validate()
    }
}

impl Provider {
    pub open spec fn check(self) -> Result<(), OrchestrationError> {
        if !valid_id(self.id@) {
            Err(OrchestrationError::InvalidContract("provider_id"))
        } else if !valid_id(self.node_id@) {
            Err(OrchestrationError::InvalidContract("provider_node_id"))
        } else if self.model_refs.len() == 0 || self.model_refs.len() > MAX_MODEL_REFS_PER_PROVIDER
            || abs_i32(self.priority) > 1_000 {
            Err(OrchestrationError::InvalidContract("provider"))
        } else if ids_check(self.model_refs@, "provider_model_ref") is Err {
            ids_check(self.model_refs@, "provider_model_ref")
        } else {
            self.health.check()
        }
    }

    pub fn validate(&self) -> (r: Result<(), OrchestrationError>)
        ensures
            r == self.check(),
    {
        validate_id(&self.id, "provider_id")?;
        validate_id(&self.node_id, "provider_node_id")?;
        if self.model_refs.len() == 0 || self.model_refs.len() > MAX_MODEL_REFS_PER_PROVIDER
            || self.priority > 1_000 || self.priority < -1_000 {
            return Err(OrchestrationError::InvalidContract("provider"));
        }
        validate_ids(&self.model_refs, "provider_model_ref")?;
        self.health.validate()
    }
}

impl ModelSpec {
    pub open spec fn check(self) -> Result<(), OrchestrationError> {
        if !valid_id(self.model_ref@) {
            Err(OrchestrationError::InvalidContract("model_ref"))
        } else if !valid_id(self.provider_id@) {
            Err(OrchestrationError::InvalidContract("model_provider_id"))
        } else if self.capabilities.len() == 0 || self.capabilities.len() > 8 || self.vram_mb
            > MAX_MEMORY_MB || self.ram_mb == 0 || self.ram_mb > MAX_MEMORY_MB
            || self.estimated_performance > MAX_PERFORMANCE_SCORE || self.estimated_latency_ms
            > MAX_LATENCY_MS {
            Err(OrchestrationError::InvalidContract("model_spec"))
        } else {
            Ok(())
        }
    }

    pub fn validate(&self) -> (r: Result<(), OrchestrationError>)
        ensures
            r == self.check(),
    {
        validate_id(&self.model_ref, "model_ref")?;
        validate_id(&self.provider_id, "model_provider_id")?;
        if self.capabilities.len() == 0 || self.capabilities.len() > 8 || self.vram_mb
            > MAX_MEMORY_MB || self.ram_mb == 0 || self.ram_mb > MAX_MEMORY_MB
            || self.estimated_performance > MAX_PERFORMANCE_SCORE || self.estimated_latency_ms
            > MAX_LATENCY_MS {
            return Err(OrchestrationError::InvalidContract("model_spec"));
        }
        Ok(())
    }
}

impl RequestPriority {
    pub open spec fn priority_score(self) -> int {
        match self {
            RequestPriority::Background => 50,
            RequestPriority::Maintenance => 150,
            RequestPriority::OwnerCommand => 350,
            RequestPriority::ActiveConversation => 500,
        }
    }

    fn score(self) -> (r: i64)
        ensures
            r == self.priority_score(),
    {
        match self {
            RequestPriority::Background => 50,
            RequestPriority::Maintenance => 150,
            RequestPriority::OwnerCommand => 350,
            RequestPriority::ActiveConversation => 500,
        }
    }
}

impl RoutingRequest {
    pub open spec fn check(self) -> Result<(), OrchestrationError> {
        if !valid_id(self.request_id@) {
            Err(OrchestrationError::InvalidContract("request_id"))
        } else if self.model_ref matches Some(m) && !valid_id(m@) {
            Err(OrchestrationError::InvalidContract("requested_model_ref"))
        } else if self.additional_ram_mb > MAX_MEMORY_MB || (self.max_latency_ms matches Some(l)
            && l > MAX_LATENCY_MS) {
            Err(OrchestrationError::InvalidContract("routing_request"))
        } else {
            Ok(())
        }
    }

    pub fn validate(&self) -> (r: Result<(), OrchestrationError>)
        ensures
            r == self.check(),
    {
        validate_id(&self.request_id, "request_id")?;
        match &self.model_ref {
            Some(model_ref) => {
                validate_id(model_ref, "requested_model_ref")?;
            },
            None => {},
        }
        let latency_too_large = match self.max_latency_ms {
            Some(latency) => latency > MAX_LATENCY_MS,
            None => false,
        };
        if self.additional_ram_mb > MAX_MEMORY_MB || latency_too_large {
            return Err(OrchestrationError::InvalidContract("routing_request"));
        }
        Ok(())
    }
}

} // verus!

verus! {

// ---------------------------------------------------------------------------------------------
// Resource arithmetic
// ---------------------------------------------------------------------------------------------
pub open spec fn sat_add_u64(a: u64, b: u64) -> u64 {
    if a + b > u64::MAX {
        u64::MAX
    } else {
        (a + b) as u64
    }
}

pub open spec fn sat_add_u32(a: u32, b: u32) -> u32 {
    if a + b > u32::MAX {
        u32::MAX
    } else {
        (a + b) as u32
    }
}

pub open spec fn sat_mul100(a: u64) -> u64 {
    if a * 100 > u64::MAX {
        u64::MAX
    } else {
        (a * 100) as u64
    }
}

fn saturating_times_100(a: u64) -> (r: u64)
    ensures
        r == sat_mul100(a),
{
    if a > u64::MAX / 100 {
        u64::MAX
    } else {
        a * 100
    }
}

/// Largest available VRAM among the GPUs, or 0 without GPUs.
pub open spec fn max_vram(gpus: Seq<GpuResource>) -> u64
    decreases gpus.len(),
{
    if gpus.len() == 0 {
        0
    } else {
        let rest = max_vram(gpus.drop_last());
        let v = gpus.last().vram_available_mb;
        if v > rest {
            v
        } else {
            rest
        }
    }
}

/// Largest estimated performance among the GPUs, or 0 without GPUs.
pub open spec fn max_gpu_performance(gpus: Seq<GpuResource>) -> u32
    decreases gpus.len(),
{
    if gpus.len() == 0 {
        0
    } else {
        let rest = max_gpu_performance(gpus.drop_last());
        let v = gpus.last().estimated_performance;
        if v > rest {
            v
        } else {
            rest
        }
    }
}

/// A GPU with at least `vram_mb` of free VRAM.
pub open spec fn gpu_fits(vram_mb: u64) -> spec_fn(GpuResource) -> bool {
    |g: GpuResource| g.vram_available_mb >= vram_mb
}

/// Index of the first GPU that fits `vram_mb`, or -1.
pub open spec fn first_fit(gpus: Seq<GpuResource>, vram_mb: u64) -> int {
    first_match(gpus, gpu_fits(vram_mb))
}

/// The node already has the model loaded.
pub open spec fn holds_model(loaded: Seq<LoadedModel>, model_ref: Seq<char>) -> bool {
    exists|k: int| 0 <= k < loaded.len() && #[trigger] loaded[k].model_ref@ == model_ref
}

pub open spec fn spec_effective_latency(node: ComputeNode, provider: Provider, model: ModelSpec) -> u32 {
    sat_add_u32(
        sat_add_u32(
            sat_add_u32(
                node.estimated_latency_ms,
                match provider.health.latency_ms {
                    Some(l) => l,
                    None => 0,
                },
            ),
            match node.health.latency_ms {
                Some(l) => l,
                None => 0,
            },
        ),
        model.estimated_latency_ms,
    )
}

pub open spec fn min_int(a: int, b: int) -> int {
    if a < b {
        a
    } else {
        b
    }
}

pub open spec fn max_int(a: int, b: int) -> int {
    if a > b {
        a
    } else {
        b
    }
}

/// The routing score of a candidate: priority, health, hardware, free resources and reuse of a
/// loaded model raise it; queue load and latency lower it.
pub open spec fn spec_route_score(
    request: RoutingRequest,
    node: ComputeNode,
    provider: Provider,
    model: ModelSpec,
    loaded_model_reuse: bool,
    estimated_latency_ms: u32,
) -> int {
    let hardware = min_int(
        max_int(max_gpu_performance(node.gpus@) as int, node.estimated_performance as int),
        1_000,
    );
    let model_performance = min_int(model.estimated_performance as int, 1_000);
    let ram_ratio = sat_mul100(node.ram_available_mb) as int / max_int(
        node.ram_total_mb as int,
        1,
    );
    let vram_ratio = if model.vram_mb == 0 {
        100
    } else {
        min_int(
            sat_mul100(max_vram(node.gpus@)) as int / max_int(model.vram_mb as int, 1),
            100,
        )
    };
    let queue_penalty = node.queue.depth as int * 700 + node.queue.active as int * 1_000;
    request.priority.priority_score() + node.priority as int * 20 + provider.priority as int * 20
        + node.health.health_score() + provider.health.health_score() + hardware
        + model_performance / 4 + ram_ratio + vram_ratio + (if loaded_model_reuse {
        1_200int
    } else {
        0int
    }) + (if request.model_ref is Some {
        300int
    } else {
        0int
    }) - queue_penalty - estimated_latency_ms as int * 2
}

fn available_vram(node: &ComputeNode) -> (r: u64)
    ensures
        r == max_vram(node.gpus@),
{
    let mut best: u64 = 0;
    let mut i: usize = 0;
    while i < node.gpus.len()
        invariant
            i <= node.gpus.len(),
            best == max_vram(node.gpus@.take(i as int)),
        decreases node.gpus.len() - i,
    {
        assert(node.gpus@.take(i + 1).drop_last() =~= node.gpus@.take(i as int));
        if node.gpus[i].vram_available_mb > best {
            best = node.gpus[i].vram_available_mb;
        }
        i = i + 1;
    }
    assert(node.gpus@.take(i as int) =~= node.gpus@);
    best
}

fn best_gpu_performance(node: &ComputeNode) -> (r: u32)
    ensures
        r == max_gpu_performance(node.gpus@),
{
    let mut best: u32 = 0;
    let mut i: usize = 0;
    while i < node.gpus.len()
        invariant
            i <= node.gpus.len(),
            best == max_gpu_performance(node.gpus@.take(i as int)),
        decreases node.gpus.len() - i,
    {
        assert(node.gpus@.take(i + 1).drop_last() =~= node.gpus@.take(i as int));
        if node.gpus[i].estimated_performance > best {
            best = node.gpus[i].estimated_performance;
        }
        i = i + 1;
    }
    assert(node.gpus@.take(i as int) =~= node.gpus@);
    best
}

fn first_fitting_gpu(node: &ComputeNode, vram_mb: u64) -> (r: Option<usize>)
    ensures
        match r {
            Some(i) => i as int == first_fit(node.gpus@, vram_mb),
            None => first_fit(node.gpus@, vram_mb) < 0,
        },
{
    let mut i: usize = 0;
    while i < node.gpus.len()
        invariant
            i <= node.gpus.len(),
            forall|k: int| 0 <= k < i ==> !(#[trigger] gpu_fits(vram_mb)(node.gpus@[k])),
        decreases node.gpus.len() - i,
    {
        if node.gpus[i].vram_available_mb >= vram_mb {
            proof {
                lemma_first_match(node.gpus@, gpu_fits(vram_mb), i as int);
            }
            return Some(i);
        }
        i = i + 1;
    }
    proof {
        lemma_first_match(node.gpus@, gpu_fits(vram_mb), i as int);
    }
    None
}

fn has_loaded_model(node: &ComputeNode, model_ref: &String) -> (r: bool)
    ensures
        r == holds_model(node.loaded_models@, model_ref@),
{
    let mut i: usize = 0;
    while i < node.loaded_models.len()
        invariant
            i <= node.loaded_models.len(),
            forall|k: int|
                0 <= k < i ==> #[trigger] node.loaded_models@[k].model_ref@ != model_ref@,
        decreases node.loaded_models.len() - i,
    {
        if text_equal(node.loaded_models[i].model_ref.as_str(), model_ref.as_str()) {
            return true;
        }
        i = i + 1;
    }
    false
}

fn has_capability(capabilities: &Vec<ModelCapability>, capability: ModelCapability) -> (r: bool)
    ensures
        r == capabilities@.contains(capability),
{
    let mut i: usize = 0;
    while i < capabilities.len()
        invariant
            i <= capabilities.len(),
            forall|k: int| 0 <= k < i ==> capabilities@[k] != capability,
        decreases capabilities.len() - i,
    {
        if capabilities[i] == capability {
            assert(capabilities@[i as int] == capability);
            return true;
        }
        i = i + 1;
    }
    false
}

fn effective_latency(node: &ComputeNode, provider: &Provider, model: &ModelSpec) -> (r: u32)
    ensures
        r == spec_effective_latency(*node, *provider, *model),
{
    let provider_latency = match provider.health.latency_ms {
        Some(l) => l,
        None => 0,
    };
    let node_latency = match node.health.latency_ms {
        Some(l) => l,
        None => 0,
    };
    node.estimated_latency_ms.saturating_add(provider_latency).saturating_add(
        node_latency,
    ).saturating_add(model.estimated_latency_ms)
}

fn hardware_performance(node: &ComputeNode) -> (r: u32)
    ensures
        r as int == min_int(
            max_int(max_gpu_performance(node.gpus@) as int, node.estimated_performance as int),
            1_000,
        ),
{
    let gpu_best = best_gpu_performance(node);
    let hardware: u32 = if gpu_best > node.estimated_performance {
        gpu_best
    } else {
        node.estimated_performance
    };
    if hardware > 1_000 {
        1_000
    } else {
        hardware
    }
}

fn ram_ratio(node: &ComputeNode) -> (r: u64)
    requires
        node.ram_available_mb <= node.ram_total_mb,
    ensures
        r as int == sat_mul100(node.ram_available_mb) as int / max_int(node.ram_total_mb as int, 1),
        r <= 100,
{
    let ram_total: u64 = if node.ram_total_mb > 1 {
        node.ram_total_mb
    } else {
        1
    };
    let ram_scaled = saturating_times_100(node.ram_available_mb);
    let ratio: u64 = ram_scaled / ram_total;
    proof {
        assert(ratio <= 100) by (nonlinear_arith)
            requires
                ratio == ram_scaled / ram_total,
                ram_scaled <= node.ram_available_mb * 100,
                node.ram_available_mb <= node.ram_total_mb,
                ram_total >= 1,
                node.ram_total_mb <= ram_total,
        ;
    }
    ratio
}

fn vram_ratio(node: &ComputeNode, model: &ModelSpec) -> (r: u64)
    ensures
        r as int == (if model.vram_mb == 0 {
            100
        } else {
            min_int(
                sat_mul100(max_vram(node.gpus@)) as int / max_int(model.vram_mb as int, 1),
                100,
            )
        }),
        r <= 100,
{
    if model.vram_mb == 0 {
        100
    } else {
        let scaled = saturating_times_100(available_vram(node));
        let q = scaled / model.vram_mb;
        if q > 100 {
            100
        } else {
            q
        }
    }
}

fn route_score(
    request: &RoutingRequest,
    node: &ComputeNode,
    provider: &Provider,
    model: &ModelSpec,
    loaded_model_reuse: bool,
    estimated_latency_ms: u32,
) -> (r: i64)
    requires
        node.ram_available_mb <= node.ram_total_mb,
    ensures
        r as int == spec_route_score(
            *request,
            *node,
            *provider,
            *model,
            loaded_model_reuse,
            estimated_latency_ms,
        ),
{
    let hardware = hardware_performance(node) as i64;
    let model_performance: i64 = if model.estimated_performance > 1_000 {
        1_000
    } else {
        model.estimated_performance as i64
    };
    let ram = ram_ratio(node) as i64;
    let vram = vram_ratio(node, model) as i64;
    let queue_penalty: i64 = node.queue.depth as i64 * 700 + node.queue.active as i64 * 1_000;
    let loaded_bonus: i64 = if loaded_model_reuse {
        1_200
    } else {
        0
    };
    let exact_model_bonus: i64 = if request.model_ref.is_some() {
        300
    } else {
        0
    };
    let base: i64 = request.priority.score() + node.priority as i64 * 20 + provider.priority as i64
        * 20;
    let health: i64 = node.health.score() + provider.health.score();
    let resources: i64 = hardware + model_performance / 4 + ram + vram;
    let bonuses: i64 = loaded_bonus + exact_model_bonus;
    let penalties: i64 = queue_penalty + estimated_latency_ms as i64 * 2;
    base + health + resources + bonuses - penalties
}

} // verus!

verus! {

// ---------------------------------------------------------------------------------------------
// Registries
// ---------------------------------------------------------------------------------------------
pub open spec fn node_named(id: Seq<char>) -> spec_fn(ComputeNode) -> bool {
    |n: ComputeNode| n.id@ == id
}

pub open spec fn provider_named(id: Seq<char>) -> spec_fn(Provider) -> bool {
    |p: Provider| p.id@ == id
}

pub open spec fn model_named(id: Seq<char>) -> spec_fn(ModelSpec) -> bool {
    |m: ModelSpec| m.model_ref@ == id
}

pub open spec fn reservation_named(id: Seq<char>) -> spec_fn(GenerationReservation) -> bool {
    |r: GenerationReservation| r.request_id@ == id
}

/// The nodes after registering `node`: it replaces the node with its id, or is appended.
pub open spec fn put_node(nodes: Seq<ComputeNode>, node: ComputeNode) -> Seq<ComputeNode> {
    let i = first_match(nodes, node_named(node.id@));
    if i >= 0 {
        nodes.update(i, node)
    } else {
        nodes.push(node)
    }
}

pub open spec fn put_provider(providers: Seq<Provider>, provider: Provider) -> Seq<Provider> {
    let i = first_match(providers, provider_named(provider.id@));
    if i >= 0 {
        providers.update(i, provider)
    } else {
        providers.push(provider)
    }
}

pub open spec fn put_model(models: Seq<ModelSpec>, model: ModelSpec) -> Seq<ModelSpec> {
    let i = first_match(models, model_named(model.model_ref@));
    if i >= 0 {
        models.update(i, model)
    } else {
        models.push(model)
    }
}

/// Node ids are distinct, no node has more RAM available than in total, and no node queue is
/// deeper than its capacity.
pub open spec fn nodes_ok(ns: Seq<ComputeNode>) -> bool {
    &&& forall|i: int, j: int|
        0 <= i < j < ns.len() ==> #[trigger] ns[i].id@ != #[trigger] ns[j].id@
    &&& forall|i: int|
        0 <= i < ns.len() ==> (#[trigger] ns[i]).ram_available_mb <= ns[i].ram_total_mb
            && ns[i].queue.depth <= ns[i].queue.capacity
}

pub open spec fn providers_unique(ps: Seq<Provider>) -> bool {
    forall|i: int, j: int| 0 <= i < j < ps.len() ==> #[trigger] ps[i].id@ != #[trigger] ps[j].id@
}

pub open spec fn models_unique(ms: Seq<ModelSpec>) -> bool {
    forall|i: int, j: int|
        0 <= i < j < ms.len() ==> #[trigger] ms[i].model_ref@ != #[trigger] ms[j].model_ref@
}

pub open spec fn reservations_unique(rs: Seq<GenerationReservation>) -> bool {
    forall|i: int, j: int|
        0 <= i < j < rs.len() ==> #[trigger] rs[i].request_id@ != #[trigger] rs[j].request_id@
}

/// Registered compute nodes, providers and models, and the reservations made on them.
#[derive(Debug)]
pub struct OrchestrationManager {
    nodes: Vec<ComputeNode>,
    providers: Vec<Provider>,
    models: Vec<ModelSpec>,
    reservations: Vec<GenerationReservation>,
}

impl OrchestrationManager {
    pub closed spec fn node_seq(self) -> Seq<ComputeNode> {
        self.nodes@
    }

    pub closed spec fn provider_seq(self) -> Seq<Provider> {
        self.providers@
    }

    pub closed spec fn model_seq(self) -> Seq<ModelSpec> {
        self.models@
    }

    pub closed spec fn reservation_seq(self) -> Seq<GenerationReservation> {
        self.reservations@
    }

    pub open spec fn node_index(self, id: Seq<char>) -> int {
        first_match(self.node_seq(), node_named(id))
    }

    pub open spec fn provider_index(self, id: Seq<char>) -> int {
        first_match(self.provider_seq(), provider_named(id))
    }

    pub open spec fn model_index(self, id: Seq<char>) -> int {
        first_match(self.model_seq(), model_named(id))
    }

    pub open spec fn reservation_index(self, id: Seq<char>) -> int {
        first_match(self.reservation_seq(), reservation_named(id))
    }

    /// The registries and reservations of `self` and `other` are the same.
    pub open spec fn same_as(self, other: Self) -> bool {
        &&& self.node_seq() == other.node_seq()
        &&& self.provider_seq() == other.provider_seq()
        &&& self.model_seq() == other.model_seq()
        &&& self.reservation_seq() == other.reservation_seq()
    }

    /// No registry holds two entries under one id, every node has no more RAM available than
    /// it has in total, and no node queue is deeper than its capacity.
    pub open spec fn wf(self) -> bool {
        &&& nodes_ok(self.node_seq())
        &&& providers_unique(self.provider_seq())
        &&& models_unique(self.model_seq())
        &&& reservations_unique(self.reservation_seq())
    }

    /// An empty manager.
    pub fn new() -> (m: Self)
        ensures
            m.wf(),
            m.node_seq().len() == 0,
            m.provider_seq().len() == 0,
            m.model_seq().len() == 0,
            m.reservation_seq().len() == 0,
    {
        OrchestrationManager {
            nodes: Vec::new(),
            providers: Vec::new(),
            models: Vec::new(),
            reservations: Vec::new(),
        }
    }

    fn find_node(&self, id: &str) -> (r: Option<usize>)
        ensures
            match r {
                Some(i) => i as int == self.node_index(id@) && i < self.node_seq().len(),
                None => self.node_index(id@) < 0,
            },
    {
        let mut i: usize = 0;
        while i < self.nodes.len()
            invariant
                i <= self.nodes.len(),
                forall|k: int| 0 <= k < i ==> !(#[trigger] node_named(id@)(self.nodes@[k])),
            decreases self.nodes.len() - i,
        {
            if text_equal(self.nodes[i].id.as_str(), id) {
                proof {
                    lemma_first_match(self.nodes@, node_named(id@), i as int);
                }
                return Some(i);
            }
            i = i + 1;
        }
        proof {
            lemma_first_match(self.nodes@, node_named(id@), i as int);
        }
        None
    }

    fn find_provider(&self, id: &str) -> (r: Option<usize>)
        ensures
            match r {
                Some(i) => i as int == self.provider_index(id@) && i < self.provider_seq().len(),
                None => self.provider_index(id@) < 0,
            },
    {
        let mut i: usize = 0;
        while i < self.providers.len()
            invariant
                i <= self.providers.len(),
                forall|k: int|
                    0 <= k < i ==> !(#[trigger] provider_named(id@)(self.providers@[k])),
            decreases self.providers.len() - i,
        {
            if text_equal(self.providers[i].id.as_str(), id) {
                proof {
                    lemma_first_match(self.providers@, provider_named(id@), i as int);
                }
                return Some(i);
            }
            i = i + 1;
        }
        proof {
            lemma_first_match(self.providers@, provider_named(id@), i as int);
        }
        None
    }

    fn find_model(&self, id: &str) -> (r: Option<usize>)
        ensures
            match r {
                Some(i) => i as int == self.model_index(id@) && i < self.model_seq().len(),
                None => self.model_index(id@) < 0,
            },
    {
        let mut i: usize = 0;
        while i < self.models.len()
            invariant
                i <= self.models.len(),
                forall|k: int| 0 <= k < i ==> !(#[trigger] model_named(id@)(self.models@[k])),
            decreases self.models.len() - i,
        {
            if text_equal(self.models[i].model_ref.as_str(), id) {
                proof {
                    lemma_first_match(self.models@, model_named(id@), i as int);
                }
                return Some(i);
            }
            i = i + 1;
        }
        proof {
            lemma_first_match(self.models@, model_named(id@), i as int);
        }
        None
    }

    fn find_reservation(&self, id: &str) -> (r: Option<usize>)
        ensures
            match r {
                Some(i) => i as int == self.reservation_index(id@) && i < self.reservation_seq().len(),
                None => self.reservation_index(id@) < 0,
            },
    {
        let mut i: usize = 0;
        while i < self.reservations.len()
            invariant
                i <= self.reservations.len(),
                forall|k: int|
                    0 <= k < i ==> !(#[trigger] reservation_named(id@)(self.reservations@[k])),
            decreases self.reservations.len() - i,
        {
            if text_equal(self.reservations[i].request_id.as_str(), id) {
                proof {
                    lemma_first_match(self.reservations@, reservation_named(id@), i as int);
                }
                return Some(i);
            }
            i = i + 1;
        }
        proof {
            lemma_first_match(self.reservations@, reservation_named(id@), i as int);
        }
        None
    }

    /// Registers a validated node, replacing a node registered under the same id.
    pub fn register_node(&mut self, node: ComputeNode) -> (r: Result<(), OrchestrationError>)
        requires
            old(self).wf(),
        ensures
            final(self).wf(),
            node.check() is Err ==> r == node.check() && final(self).same_as(*old(self)),
            node.check() is Ok && old(self).node_index(node.id@) < 0
                && old(self).node_seq().len() >= MAX_COMPUTE_NODES ==> r == Err::<
                (),
                OrchestrationError,
            >(OrchestrationError::RegistryFull) && final(self).same_as(*old(self)),
            node.check() is Ok && (old(self).node_index(node.id@) >= 0
                || old(self).node_seq().len() < MAX_COMPUTE_NODES) ==> r is Ok
                && final(self).node_seq() == put_node(old(self).node_seq(), node)
                && final(self).provider_seq() == old(self).provider_seq()
                && final(self).model_seq() == old(self).model_seq()
                && final(self).reservation_seq() == old(self).reservation_seq(),
    {
        node.validate()?;
        let found = self.find_node(node.id.as_str());
        proof {
            lemma_first_match_props(self.nodes@, node_named(node.id@));
        }
        match found {
            Some(i) => {
                self.nodes.set(i, node);
            },
            None => {
                if self.nodes.len() >= MAX_COMPUTE_NODES {
                    return Err(OrchestrationError::RegistryFull);
                }
                self.nodes.push(node);
            },
        }
        proof {
            let ns = self.nodes@;
            assert(node.ram_available_mb <= node.ram_total_mb);
            assert(node.queue.check() is Ok);
            assert forall|i: int| 0 <= i < ns.len() implies (#[trigger] ns[i]).ram_available_mb
                <= ns[i].ram_total_mb && ns[i].queue.depth <= ns[i].queue.capacity by {
                if ns[i] != node {
                    assert(ns[i] == old(self).nodes@[i]);
                }
            }
            assert forall|i: int, j: int| 0 <= i < j < ns.len() implies #[trigger] ns[i].id@
                != #[trigger] ns[j].id@ by {
                if found is None && j == ns.len() - 1 {
                    assert(!node_named(node.id@)(old(self).nodes@[i]));
                } else if found is Some && (i == found->0 || j == found->0) {
                    let f = found->0 as int;
                    if i == f {
                        assert(!node_named(node.id@)(old(self).nodes@[j]) || old(self).nodes@[f].id@
                            == node.id@);
                        assert(old(self).nodes@[i].id@ != old(self).nodes@[j].id@);
                    } else {
                        assert(old(self).nodes@[i].id@ != old(self).nodes@[j].id@);
                    }
                } else {
                    assert(old(self).nodes@[i].id@ != old(self).nodes@[j].id@);
                }
            }
        }
        Ok(())
    }

    /// Registers a validated provider of a registered node, replacing a provider registered
    /// under the same id.
    pub fn register_provider(&mut self, provider: Provider) -> (r: Result<(), OrchestrationError>)
        requires
            old(self).wf(),
        ensures
            final(self).wf(),
            provider.check() is Err ==> r == provider.check() && final(self).same_as(*old(self)),
            provider.check() is Ok && old(self).node_index(provider.node_id@) < 0 ==> r == Err::<
                (),
                OrchestrationError,
            >(OrchestrationError::NodeNotFound) && final(self).same_as(*old(self)),
            provider.check() is Ok && old(self).node_index(provider.node_id@) >= 0
                && old(self).provider_index(provider.id@) < 0 && old(self).provider_seq().len()
                >= MAX_PROVIDERS ==> r == Err::<(), OrchestrationError>(
                OrchestrationError::RegistryFull,
            ) && final(self).same_as(*old(self)),
            provider.check() is Ok && old(self).node_index(provider.node_id@) >= 0 && (old(self).provider_index(provider.id@) >= 0 || old(self).provider_seq().len() < MAX_PROVIDERS)
                ==> r is Ok && final(self).provider_seq() == put_provider(
                old(self).provider_seq(),
                provider,
            ) && final(self).node_seq() == old(self).node_seq() && final(self).model_seq() == old(self).model_seq() && final(self).reservation_seq() == old(self).reservation_seq(),
    {
        provider.validate()?;
        if self.find_node(provider.node_id.as_str()).is_none() {
            return Err(OrchestrationError::NodeNotFound);
        }
        let found = self.find_provider(provider.id.as_str());
        proof {
            lemma_first_match_props(self.providers@, provider_named(provider.id@));
        }
        match found {
            Some(i) => {
                self.providers.set(i, provider);
            },
            None => {
                if self.providers.len() >= MAX_PROVIDERS {
                    return Err(OrchestrationError::RegistryFull);
                }
                self.providers.push(provider);
            },
        }
        proof {
            let ps = self.providers@;
            assert forall|i: int, j: int| 0 <= i < j < ps.len() implies #[trigger] ps[i].id@
                != #[trigger] ps[j].id@ by {
                if found is None && j == ps.len() - 1 {
                    assert(!provider_named(provider.id@)(old(self).providers@[i]));
                } else {
                    assert(old(self).providers@[i].id@ != old(self).providers@[j].id@);
                }
            }
        }
        Ok(())
    }

    /// Registers a validated model of a registered provider that offers it, replacing a model
    /// registered under the same reference.
    pub fn register_model(&mut self, model: ModelSpec) -> (r: Result<(), OrchestrationError>)
        requires
            old(self).wf(),
        ensures
            final(self).wf(),
            ({
                let pi = old(self).provider_index(model.provider_id@);
                let offered = pi >= 0 && old(self).provider_seq()[pi].model_refs@.map_values(
                    |m: String| m@,
                ).contains(model.model_ref@);
                &&& model.check() is Err ==> r == model.check() && final(self).same_as(*old(self))
                &&& model.check() is Ok && pi < 0 ==> r == Err::<(), OrchestrationError>(
                    OrchestrationError::ProviderNotFound,
                ) && final(self).same_as(*old(self))
                &&& model.check() is Ok && pi >= 0 && !offered ==> r == Err::<
                    (),
                    OrchestrationError,
                >(OrchestrationError::InvalidContract("provider_model_mismatch")) && final(self).same_as(*old(self))
                &&& model.check() is Ok && offered && old(self).model_index(model.model_ref@) < 0
                    && old(self).model_seq().len() >= MAX_MODELS ==> r == Err::<
                    (),
                    OrchestrationError,
                >(OrchestrationError::RegistryFull) && final(self).same_as(*old(self))
                &&& model.check() is Ok && offered && (old(self).model_index(model.model_ref@) >= 0
                    || old(self).model_seq().len() < MAX_MODELS) ==> r is Ok
                    && final(self).model_seq() == put_model(old(self).model_seq(), model)
                    && final(self).node_seq() == old(self).node_seq()
                    && final(self).provider_seq() == old(self).provider_seq()
                    && final(self).reservation_seq() == old(self).reservation_seq()
            }),
    {
        model.validate()?;
        let pi = match self.find_provider(model.provider_id.as_str()) {
            Some(pi) => pi,
            None => {
                return Err(OrchestrationError::ProviderNotFound);
            },
        };
        let refs = &self.providers[pi].model_refs;
        let ghost views = refs@.map_values(|m: String| m@);
        let mut offered = false;
        let mut k: usize = 0;
        while k < refs.len()
            invariant
                k <= refs.len(),
                views == refs@.map_values(|m: String| m@),
                offered == (exists|j: int| 0 <= j < k && views[j] == model.model_ref@),
            decreases refs.len() - k,
        {
            assert(views[k as int] == refs@[k as int]@);
            if text_equal(refs[k].as_str(), model.model_ref.as_str()) {
                offered = true;
            }
            k = k + 1;
        }
        proof {
            if offered {
                let j = choose|j: int| 0 <= j < k && views[j] == model.model_ref@;
                assert(views.contains(model.model_ref@));
            }
        }
        if !offered {
            return Err(OrchestrationError::InvalidContract("provider_model_mismatch"));
        }
        let found = self.find_model(model.model_ref.as_str());
        proof {
            lemma_first_match_props(self.models@, model_named(model.model_ref@));
        }
        match found {
            Some(i) => {
                self.models.set(i, model);
            },
            None => {
                if self.models.len() >= MAX_MODELS {
                    return Err(OrchestrationError::RegistryFull);
                }
                self.models.push(model);
            },
        }
        proof {
            let ms = self.models@;
            assert forall|i: int, j: int| 0 <= i < j < ms.len() implies #[trigger] ms[i].model_ref@
                != #[trigger] ms[j].model_ref@ by {
                if found is None && j == ms.len() - 1 {
                    assert(!model_named(model.model_ref@)(old(self).models@[i]));
                } else {
                    assert(old(self).models@[i].model_ref@ != old(self).models@[j].model_ref@);
                }
            }
        }
        Ok(())
    }

    /// Replaces the health of a registered node.
    pub fn update_node_health(&mut self, node_id: &str, health: HealthSnapshot) -> (r: Result<
        (),
        OrchestrationError,
    >)
        requires
            old(self).wf(),
        ensures
            final(self).wf(),
            health.check() is Err ==> r == health.check() && final(self).same_as(*old(self)),
            health.check() is Ok && old(self).node_index(node_id@) < 0 ==> r == Err::<
                (),
                OrchestrationError,
            >(OrchestrationError::NodeNotFound) && final(self).same_as(*old(self)),
            health.check() is Ok && old(self).node_index(node_id@) >= 0 ==> {
                let i = old(self).node_index(node_id@);
                &&& r is Ok
                &&& final(self).node_seq().len() == old(self).node_seq().len()
                &&& forall|k: int|
                    0 <= k < old(self).node_seq().len() && k != i ==> final(self).node_seq()[k]
                        == old(self).node_seq()[k]
                &&& final(self).node_seq()[i] == (ComputeNode { health, ..old(self).node_seq()[i] })
                &&& final(self).provider_seq() == old(self).provider_seq()
                &&& final(self).model_seq() == old(self).model_seq()
                &&& final(self).reservation_seq() == old(self).reservation_seq()
            },
    {
        health.validate()?;
        let i = match self.find_node(node_id) {
            Some(i) => i,
            None => {
                return Err(OrchestrationError::NodeNotFound);
            },
        };
        let mut node = self.nodes.remove(i);
        node.health = health;
        self.nodes.insert(i, node);
        proof {
            let ns = self.nodes@;
            let os = old(self).nodes@;
            assert forall|k: int| 0 <= k < os.len() && k != i implies ns[k] == os[k] by {}
            assert(ns[i as int].id@ == os[i as int].id@);
            assert forall|a: int, b: int| 0 <= a < b < ns.len() implies #[trigger] ns[a].id@
                != #[trigger] ns[b].id@ by {
                assert(os[a].id@ != os[b].id@);
            }
            assert forall|a: int| 0 <= a < ns.len() implies (#[trigger] ns[a]).ram_available_mb
                <= ns[a].ram_total_mb && ns[a].queue.depth <= ns[a].queue.capacity by {
                assert(os[a].ram_available_mb <= os[a].ram_total_mb);
            }
        }
        Ok(())
    }

    /// Replaces the health of a registered provider.
    pub fn update_provider_health(&mut self, provider_id: &str, health: HealthSnapshot) -> (r:
        Result<(), OrchestrationError>)
        requires
            old(self).wf(),
        ensures
            final(self).wf(),
            health.check() is Err ==> r == health.check() && final(self).same_as(*old(self)),
            health.check() is Ok && old(self).provider_index(provider_id@) < 0 ==> r == Err::<
                (),
                OrchestrationError,
            >(OrchestrationError::ProviderNotFound) && final(self).same_as(*old(self)),
            health.check() is Ok && old(self).provider_index(provider_id@) >= 0 ==> {
                let i = old(self).provider_index(provider_id@);
                &&& r is Ok
                &&& final(self).provider_seq().len() == old(self).provider_seq().len()
                &&& forall|k: int|
                    0 <= k < old(self).provider_seq().len() && k != i ==> final(self).provider_seq()[k] == old(self).provider_seq()[k]
                &&& final(self).provider_seq()[i] == (Provider {
                    health,
                    ..old(self).provider_seq()[i]
                })
                &&& final(self).node_seq() == old(self).node_seq()
                &&& final(self).model_seq() == old(self).model_seq()
                &&& final(self).reservation_seq() == old(self).reservation_seq()
            },
    {
        health.validate()?;
        let i = match self.find_provider(provider_id) {
            Some(i) => i,
            None => {
                return Err(OrchestrationError::ProviderNotFound);
            },
        };
        let mut provider = self.providers.remove(i);
        provider.health = health;
        self.providers.insert(i, provider);
        proof {
            let ps = self.providers@;
            let os = old(self).providers@;
            assert forall|k: int| 0 <= k < os.len() && k != i implies ps[k] == os[k] by {}
            assert forall|a: int, b: int| 0 <= a < b < ps.len() implies #[trigger] ps[a].id@
                != #[trigger] ps[b].id@ by {
                assert(os[a].id@ != os[b].id@);
            }
        }
        Ok(())
    }

    /// The queue load of a registered node.
    pub fn queue_status(&self, node_id: &str) -> (r: Result<QueueLoad, OrchestrationError>)
        ensures
            self.node_index(node_id@) < 0 ==> r == Err::<QueueLoad, OrchestrationError>(
                OrchestrationError::NodeNotFound,
            ),
            self.node_index(node_id@) >= 0 ==> r == Ok::<QueueLoad, OrchestrationError>(
                self.node_seq()[self.node_index(node_id@)].queue,
            ),
    {
        match self.find_node(node_id) {
            Some(i) => Ok(self.nodes[i].queue),
            None => Err(OrchestrationError::NodeNotFound),
        }
    }
}

} // verus!

verus! {

// ---------------------------------------------------------------------------------------------
// Ranking
// ---------------------------------------------------------------------------------------------
/// RAM a request needs on a node: the model's RAM plus the request's extra RAM (saturating).
pub open spec fn required_ram(model: ModelSpec, request: RoutingRequest) -> u64 {
    sat_add_u64(model.ram_mb, request.additional_ram_mb)
}

/// `a` ranks strictly before `b`: higher score first, then node id, provider id and model
/// reference in ascending string order.
pub open spec fn ranks_before(a: RouteCandidate, b: RouteCandidate) -> bool {
    a.score > b.score || (a.score == b.score && (text_lt(a.node_id@, b.node_id@) || (a.node_id@
        == b.node_id@ && (text_lt(a.provider_id@, b.provider_id@) || (a.provider_id@
        == b.provider_id@ && text_lt(a.model_ref@, b.model_ref@))))))
}

/// `try_reserve` refused `c`: its call on `c` gave an error.
pub open spec fn refused_by<F: FnMut(&RouteCandidate) -> Result<(), &'static str>>(
    try_reserve: F,
    c: RouteCandidate,
) -> bool {
    exists|e: &'static str| call_ensures(try_reserve, (&c,), Err::<(), &'static str>(e))
}

/// `try_reserve` accepted `c`: its call on `c` succeeded.
pub open spec fn accepted_by<F: FnMut(&RouteCandidate) -> Result<(), &'static str>>(
    try_reserve: F,
    c: RouteCandidate,
) -> bool {
    exists|outcome: Result<(), &'static str>|
        outcome is Ok && call_ensures(try_reserve, (&c,), outcome)
}

/// No candidate ranks strictly before one that comes earlier in the sequence.
pub open spec fn ranked(s: Seq<RouteCandidate>) -> bool {
    forall|i: int, j: int| 0 <= i < j < s.len() ==> !ranks_before(#[trigger] s[j], #[trigger] s[i])
}

pub proof fn lemma_ranks_before_transitive(a: RouteCandidate, b: RouteCandidate, c: RouteCandidate)
    requires
        ranks_before(a, b),
        ranks_before(b, c),
    ensures
        ranks_before(a, c),
{
    lemma_bytes_lt_transitive(encode_utf8(a.node_id@), encode_utf8(b.node_id@), encode_utf8(c.node_id@));
    lemma_bytes_lt_transitive(
        encode_utf8(a.provider_id@),
        encode_utf8(b.provider_id@),
        encode_utf8(c.provider_id@),
    );
    lemma_bytes_lt_transitive(
        encode_utf8(a.model_ref@),
        encode_utf8(b.model_ref@),
        encode_utf8(c.model_ref@),
    );
}

pub proof fn lemma_ranks_before_asymmetric(a: RouteCandidate, b: RouteCandidate)
    ensures
        !(ranks_before(a, b) && ranks_before(b, a)),
{
    lemma_bytes_lt_asymmetric(encode_utf8(a.node_id@), encode_utf8(b.node_id@));
    lemma_bytes_lt_asymmetric(encode_utf8(a.provider_id@), encode_utf8(b.provider_id@));
    lemma_bytes_lt_asymmetric(encode_utf8(a.model_ref@), encode_utf8(b.model_ref@));
    lemma_bytes_lt_asymmetric(encode_utf8(a.node_id@), encode_utf8(a.node_id@));
    lemma_bytes_lt_asymmetric(encode_utf8(a.provider_id@), encode_utf8(a.provider_id@));
}

fn candidate_ranks_before(a: &RouteCandidate, b: &RouteCandidate) -> (r: bool)
    ensures
        r == ranks_before(*a, *b),
{
    if a.score != b.score {
        return a.score > b.score;
    }
    if text_less(a.node_id.as_str(), b.node_id.as_str()) {
        return true;
    }
    if !text_equal(a.node_id.as_str(), b.node_id.as_str()) {
        return false;
    }
    if text_less(a.provider_id.as_str(), b.provider_id.as_str()) {
        return true;
    }
    if !text_equal(a.provider_id.as_str(), b.provider_id.as_str()) {
        return false;
    }
    text_less(a.model_ref.as_str(), b.model_ref.as_str())
}

/// Sorts candidates into rank order.
fn rank_order(candidates: Vec<RouteCandidate>) -> (out: Vec<RouteCandidate>)
    ensures
        ranked(out@),
        out@.to_multiset() == candidates@.to_multiset(),
{
    broadcast use vstd::seq_lib::group_to_multiset_ensures;

    let mut rest = candidates;
    let mut out: Vec<RouteCandidate> = Vec::new();
    while rest.len() > 0
        invariant
            ranked(out@),
            out@.to_multiset().add(rest@.to_multiset()) == candidates@.to_multiset(),
        decreases rest.len(),
    {
        let ghost before_rest = rest@;
        let c = rest.pop().unwrap();
        proof {
            assert(before_rest =~= rest@.push(c));
        }
        let mut k: usize = 0;
        while k < out.len() && !candidate_ranks_before(&c, &out[k])
            invariant
                k <= out.len(),
                forall|m: int| 0 <= m < k ==> !ranks_before(c, #[trigger] out@[m]),
            decreases out.len() - k,
        {
            k = k + 1;
        }
        let ghost old_out = out@;
        out.insert(k, c);
        proof {
            let o = out@;
            assert(o =~= old_out.insert(k as int, c));
            vstd::seq_lib::to_multiset_insert(old_out, k as int, c);
            vstd::seq_lib::to_multiset_build(rest@, c);
            assert(o.to_multiset().add(rest@.to_multiset()) =~= old_out.to_multiset().add(
                before_rest.to_multiset(),
            ));
            assert forall|i: int, j: int| 0 <= i < j < o.len() implies !ranks_before(
                #[trigger] o[j],
                #[trigger] o[i],
            ) by {
                if j < k {
                    assert(o[i] == old_out[i] && o[j] == old_out[j]);
                } else if j == k {
                    assert(o[i] == old_out[i]);
                } else if i == k {
                    assert(o[j] == old_out[j - 1]);
                    if k < old_out.len() {
                        assert(ranks_before(c, old_out[k as int]));
                        if ranks_before(old_out[j - 1], c) {
                            if j - 1 == k {
                                lemma_ranks_before_asymmetric(c, old_out[k as int]);
                            } else {
                                lemma_ranks_before_transitive(old_out[j - 1], c, old_out[k as int]);
                            }
                        }
                    }
                } else if i < k {
                    assert(o[i] == old_out[i] && o[j] == old_out[j - 1]);
                } else {
                    assert(o[i] == old_out[i - 1] && o[j] == old_out[j - 1]);
                }
            }
        }
    }
    assert(rest@.to_multiset() =~= Multiset::empty());
    out
}

impl OrchestrationManager {
    pub open spec fn node_of(self, provider: Provider) -> ComputeNode {
        self.node_seq()[self.node_index(provider.node_id@)]
    }

    pub open spec fn model_of(self, model_ref: Seq<char>) -> ModelSpec {
        self.model_seq()[self.model_index(model_ref)]
    }

    /// The provider's node and the model are registered, the model is the one requested (if any)
    /// and it offers the requested capability.
    pub open spec fn pair_compatible(
        self,
        request: RoutingRequest,
        provider: Provider,
        model_ref: Seq<char>,
    ) -> bool {
        &&& self.node_index(provider.node_id@) >= 0
        &&& self.model_index(model_ref) >= 0
        &&& !(request.model_ref matches Some(m) && m@ != model_ref)
        &&& self.model_of(model_ref).capabilities@.contains(request.capability)
    }

    pub open spec fn pair_latency(self, provider: Provider, model_ref: Seq<char>) -> u32 {
        spec_effective_latency(self.node_of(provider), provider, self.model_of(model_ref))
    }

    /// Compatible, within the latency limit, and both node and provider are usable.
    pub open spec fn pair_healthy(
        self,
        request: RoutingRequest,
        provider: Provider,
        model_ref: Seq<char>,
    ) -> bool {
        &&& self.pair_compatible(request, provider, model_ref)
        &&& !(request.max_latency_ms matches Some(m) && self.pair_latency(provider, model_ref) > m)
        &&& self.node_of(provider).health.usable()
        &&& provider.health.usable()
    }

    pub open spec fn pair_reuse(self, provider: Provider, model_ref: Seq<char>) -> bool {
        holds_model(self.node_of(provider).loaded_models@, self.model_of(model_ref).model_ref@)
    }

    /// Healthy, and the node has the RAM and (unless the model is loaded) a GPU with the VRAM.
    pub open spec fn pair_fits(
        self,
        request: RoutingRequest,
        provider: Provider,
        model_ref: Seq<char>,
    ) -> bool {
        let node = self.node_of(provider);
        let model = self.model_of(model_ref);
        &&& self.pair_healthy(request, provider, model_ref)
        &&& node.ram_available_mb >= required_ram(model, request)
        &&& (self.pair_reuse(provider, model_ref) || model.vram_mb == 0 || first_fit(
            node.gpus@,
            model.vram_mb,
        ) >= 0)
    }

    /// Fits, and the node's queue is not full.
    pub open spec fn pair_open(
        self,
        request: RoutingRequest,
        provider: Provider,
        model_ref: Seq<char>,
    ) -> bool {
        self.pair_fits(request, provider, model_ref) && !self.node_of(provider).queue.full()
    }

    pub open spec fn pair_level(
        self,
        request: RoutingRequest,
        provider: Provider,
        model_ref: Seq<char>,
        level: int,
    ) -> bool {
        if level == 0 {
            self.pair_compatible(request, provider, model_ref)
        } else if level == 1 {
            self.pair_healthy(request, provider, model_ref)
        } else if level == 2 {
            self.pair_fits(request, provider, model_ref)
        } else {
            self.pair_open(request, provider, model_ref)
        }
    }

    /// The candidate that routes `request` to `provider` with `model_ref`.
    pub open spec fn pair_candidate(
        self,
        request: RoutingRequest,
        provider: Provider,
        model_ref: Seq<char>,
    ) -> RouteCandidate {
        let node = self.node_of(provider);
        let model = self.model_of(model_ref);
        let reuse = self.pair_reuse(provider, model_ref);
        let latency = self.pair_latency(provider, model_ref);
        let ready = node.queue.active == 0 && node.queue.depth == 0;
        RouteCandidate {
            node_id: node.id,
            provider_id: provider.id,
            model_ref: model.model_ref,
            score: spec_route_score(request, node, provider, model, reuse, latency) as i64,
            queue_status: if ready {
                QueueStatus::Ready
            } else {
                QueueStatus::Queued
            },
            queue_position: if ready {
                0
            } else {
                node.queue.depth
            },
            loaded_model_reuse: reuse,
            available_vram_mb: max_vram(node.gpus@),
            available_ram_mb: node.ram_available_mb,
            estimated_latency_ms: latency,
        }
    }

    /// Candidates of one provider, in the order of its model references.
    pub open spec fn provider_candidates(
        self,
        request: RoutingRequest,
        provider: Provider,
        refs: Seq<String>,
    ) -> Seq<RouteCandidate>
        decreases refs.len(),
    {
        if refs.len() == 0 {
            Seq::empty()
        } else {
            let prev = self.provider_candidates(request, provider, refs.drop_last());
            if self.pair_open(request, provider, refs.last()@) {
                prev.push(self.pair_candidate(request, provider, refs.last()@))
            } else {
                prev
            }
        }
    }

    /// Candidates of a sequence of providers, provider after provider.
    pub open spec fn providers_candidates(self, request: RoutingRequest, providers: Seq<Provider>) -> Seq<
        RouteCandidate,
    >
        decreases providers.len(),
    {
        if providers.len() == 0 {
            Seq::empty()
        } else {
            self.providers_candidates(request, providers.drop_last()) + self.provider_candidates(
                request,
                providers.last(),
                providers.last().model_refs@,
            )
        }
    }

    /// Every (provider, model reference) pair that can take the request, as a candidate.
    pub open spec fn all_candidates(self, request: RoutingRequest) -> Seq<RouteCandidate> {
        self.providers_candidates(request, self.provider_seq())
    }

    /// Some registered pair reaches `level` (0 compatible, 1 healthy, 2 fits, 3 open queue).
    pub open spec fn some_pair(self, request: RoutingRequest, level: int) -> bool {
        exists|i: int, j: int|
            0 <= i < self.provider_seq().len() && 0 <= j < self.provider_seq()[i].model_refs@.len()
                && #[trigger] self.pair_level(
                request,
                self.provider_seq()[i],
                self.provider_seq()[i].model_refs@[j]@,
                level,
            )
    }

    /// Some pair before position (`i`, `j`) of the provider/model-reference walk reaches `level`.
    pub open spec fn seen_pair(self, request: RoutingRequest, i: int, j: int, level: int) -> bool {
        exists|a: int, b: int|
            0 <= a < self.provider_seq().len() && 0 <= b < self.provider_seq()[a].model_refs@.len()
                && (a < i || (a == i && b < j)) && #[trigger] self.pair_level(
                request,
                self.provider_seq()[a],
                self.provider_seq()[a].model_refs@[b]@,
                level,
            )
    }

    /// Why no candidate exists: the first of compatibility, health, resources and queue space
    /// that no pair reaches.
    pub open spec fn no_candidate_error(self, request: RoutingRequest) -> OrchestrationError {
        if !self.some_pair(request, 0) {
            OrchestrationError::NoCompatibleCandidate
        } else if !self.some_pair(request, 1) {
            OrchestrationError::NoHealthyCandidate
        } else if !self.some_pair(request, 2) {
            OrchestrationError::NoResources
        } else if !self.some_pair(request, 3) {
            OrchestrationError::QueueFull
        } else {
            OrchestrationError::NoResources
        }
    }
}

} // verus!

verus! {

impl OrchestrationManager {
    proof fn lemma_seen_step(self, request: RoutingRequest, i: int, j: int, level: int)
        requires
            0 <= i < self.provider_seq().len(),
            0 <= j < self.provider_seq()[i].model_refs@.len(),
        ensures
            self.seen_pair(request, i, j + 1, level) == (self.seen_pair(request, i, j, level)
                || self.pair_level(
                request,
                self.provider_seq()[i],
                self.provider_seq()[i].model_refs@[j]@,
                level,
            )),
    {
        if self.pair_level(
            request,
            self.provider_seq()[i],
            self.provider_seq()[i].model_refs@[j]@,
            level,
        ) {
            assert(self.seen_pair(request, i, j + 1, level));
        }
        if self.seen_pair(request, i, j + 1, level) {
            let (a, b) = choose|a: int, b: int|
                0 <= a < self.provider_seq().len() && 0 <= b
                    < self.provider_seq()[a].model_refs@.len() && (a < i || (a == i && b < j + 1))
                    && #[trigger] self.pair_level(
                    request,
                    self.provider_seq()[a],
                    self.provider_seq()[a].model_refs@[b]@,
                    level,
                );
            if !(a == i && b == j) {
                assert(self.seen_pair(request, i, j, level));
            }
        }
    }

    proof fn lemma_seen_next_provider(self, request: RoutingRequest, i: int, level: int)
        requires
            0 <= i < self.provider_seq().len(),
        ensures
            self.seen_pair(request, i, self.provider_seq()[i].model_refs@.len() as int, level)
                == self.seen_pair(request, i + 1, 0, level),
    {
        if self.seen_pair(request, i + 1, 0, level) {
            let (a, b) = choose|a: int, b: int|
                0 <= a < self.provider_seq().len() && 0 <= b
                    < self.provider_seq()[a].model_refs@.len() && (a < i + 1 || (a == i + 1 && b
                    < 0)) && #[trigger] self.pair_level(
                    request,
                    self.provider_seq()[a],
                    self.provider_seq()[a].model_refs@[b]@,
                    level,
                );
            assert(self.seen_pair(
                request,
                i,
                self.provider_seq()[i].model_refs@.len() as int,
                level,
            ));
        }
    }

    proof fn lemma_seen_all(self, request: RoutingRequest, level: int)
        ensures
            self.seen_pair(request, self.provider_seq().len() as int, 0, level) == self.some_pair(
                request,
                level,
            ),
    {
        if self.some_pair(request, level) {
            let (a, b) = choose|a: int, b: int|
                0 <= a < self.provider_seq().len() && 0 <= b
                    < self.provider_seq()[a].model_refs@.len() && #[trigger] self.pair_level(
                    request,
                    self.provider_seq()[a],
                    self.provider_seq()[a].model_refs@[b]@,
                    level,
                );
            assert(self.seen_pair(request, self.provider_seq().len() as int, 0, level));
        }
    }

    /// How far the pair (provider `pi`, its `j`-th model reference) gets: 0 incompatible,
    /// 1 compatible, 2 healthy, 3 fits, 4 open queue; with the candidate when it is open.
    fn consider_pair(
        &self,
        request: &RoutingRequest,
        pi: usize,
        j: usize,
        node_at: Option<usize>,
    ) -> (r: (u8, Option<RouteCandidate>))
        requires
            self.wf(),
            pi < self.provider_seq().len(),
            j < self.provider_seq()[pi as int].model_refs@.len(),
            match node_at {
                Some(n) => n as int == self.node_index(self.provider_seq()[pi as int].node_id@)
                    && n < self.node_seq().len(),
                None => self.node_index(self.provider_seq()[pi as int].node_id@) < 0,
            },
        ensures
            ({
                let p = self.provider_seq()[pi as int];
                let mr = p.model_refs@[j as int]@;
                &&& (r.0 >= 1) == self.pair_compatible(*request, p, mr)
                &&& (r.0 >= 2) == self.pair_healthy(*request, p, mr)
                &&& (r.0 >= 3) == self.pair_fits(*request, p, mr)
                &&& (r.0 >= 4) == self.pair_open(*request, p, mr)
                &&& match r.1 {
                    Some(c) => r.0 >= 4 && c == self.pair_candidate(*request, p, mr),
                    None => r.0 < 4,
                }
            }),
    {
        let provider = &self.providers[pi];
        let model_ref = &provider.model_refs[j];
        let ni = match node_at {
            Some(ni) => ni,
            None => {
                return (0, None);
            },
        };
        let mi = match self.find_model(model_ref.as_str()) {
            Some(mi) => mi,
            None => {
                return (0, None);
            },
        };
        let node = &self.nodes[ni];
        let model = &self.models[mi];
        proof {
            lemma_first_match_props(self.models@, model_named(model_ref@));
        }
        let mismatch = match &request.model_ref {
            Some(requested) => !text_equal(requested.as_str(), model_ref.as_str()),
            None => false,
        };
        if mismatch || !has_capability(&model.capabilities, request.capability) {
            return (0, None);
        }
        let latency = effective_latency(node, provider, model);
        let too_slow = match request.max_latency_ms {
            Some(maximum) => latency > maximum,
            None => false,
        };
        if too_slow || !node.health.is_usable() || !provider.health.is_usable() {
            return (1, None);
        }
        let reuse = has_loaded_model(node, &model.model_ref);
        let required = model.ram_mb.saturating_add(request.additional_ram_mb);
        let no_gpu = !reuse && model.vram_mb > 0 && first_fitting_gpu(node, model.vram_mb).is_none();
        if node.ram_available_mb < required || no_gpu {
            return (2, None);
        }
        if node.queue.is_full() {
            return (3, None);
        }
        let ready = node.queue.active == 0 && node.queue.depth == 0;
        proof {
            assert(nodes_ok(self.nodes@));
            assert(self.nodes@[ni as int].ram_available_mb <= self.nodes@[ni as int].ram_total_mb);
        }
        let score = route_score(request, node, provider, model, reuse, latency);
        let candidate = RouteCandidate {
            node_id: node.id.clone(),
            provider_id: provider.id.clone(),
            model_ref: model.model_ref.clone(),
            score,
            queue_status: if ready {
                QueueStatus::Ready
            } else {
                QueueStatus::Queued
            },
            queue_position: if ready {
                0
            } else {
                node.queue.depth
            },
            loaded_model_reuse: reuse,
            available_vram_mb: available_vram(node),
            available_ram_mb: node.ram_available_mb,
            estimated_latency_ms: latency,
        };
        (4, Some(candidate))
    }

    /// Every provider/model pair that can take the request, best first; or why there is none.
    pub fn rank_candidates(&self, request: &RoutingRequest) -> (r: Result<
        Vec<RouteCandidate>,
        OrchestrationError,
    >)
        requires
            self.wf(),
        ensures
            request.check() is Err ==> r == Err::<Vec<RouteCandidate>, OrchestrationError>(
                request.check()->Err_0,
            ),
            request.check() is Ok && self.all_candidates(*request).len() == 0 ==> r == Err::<
                Vec<RouteCandidate>,
                OrchestrationError,
            >(self.no_candidate_error(*request)),
            request.check() is Ok && self.all_candidates(*request).len() > 0 ==> (r matches Ok(v)
                && ranked(v@) && v@.to_multiset() == self.all_candidates(*request).to_multiset()),
    {
        request.validate()?;
        let mut compatible = false;
        let mut healthy = false;
        let mut resource_fit = false;
        let mut queue_available = false;
        let mut candidates: Vec<RouteCandidate> = Vec::new();
        let ghost ps = self.providers@;
        let mut i: usize = 0;
        while i < self.providers.len()
            invariant
                self.wf(),
                ps == self.provider_seq(),
                i <= ps.len(),
                candidates@ == self.providers_candidates(*request, ps.take(i as int)),
                compatible == self.seen_pair(*request, i as int, 0, 0),
                healthy == self.seen_pair(*request, i as int, 0, 1),
                resource_fit == self.seen_pair(*request, i as int, 0, 2),
                queue_available == self.seen_pair(*request, i as int, 0, 3),
            decreases ps.len() - i,
        {
            let node_at = self.find_node(self.providers[i].node_id.as_str());
            let ghost p = ps[i as int];
            let ghost refs = p.model_refs@;
            let mut j: usize = 0;
            assert(candidates@ =~= self.providers_candidates(*request, ps.take(i as int))
                + self.provider_candidates(*request, p, refs.take(0)));
            while j < self.providers[i].model_refs.len()
                invariant
                    self.wf(),
                    ps == self.provider_seq(),
                    i < ps.len(),
                    p == ps[i as int],
                    refs == p.model_refs@,
                    j <= refs.len(),
                    match node_at {
                        Some(n) => n as int == self.node_index(p.node_id@) && n < self.node_seq().len(),
                        None => self.node_index(p.node_id@) < 0,
                    },
                    candidates@ == self.providers_candidates(*request, ps.take(i as int))
                        + self.provider_candidates(*request, p, refs.take(j as int)),
                    compatible == self.seen_pair(*request, i as int, j as int, 0),
                    healthy == self.seen_pair(*request, i as int, j as int, 1),
                    resource_fit == self.seen_pair(*request, i as int, j as int, 2),
                    queue_available == self.seen_pair(*request, i as int, j as int, 3),
                decreases refs.len() - j,
            {
                let (level, candidate) = self.consider_pair(request, i, j, node_at);
                proof {
                    self.lemma_seen_step(*request, i as int, j as int, 0);
                    self.lemma_seen_step(*request, i as int, j as int, 1);
                    self.lemma_seen_step(*request, i as int, j as int, 2);
                    self.lemma_seen_step(*request, i as int, j as int, 3);
                    assert(refs.take(j + 1).drop_last() =~= refs.take(j as int));
                    assert(refs.take(j + 1).last() == refs[j as int]);
                }
                compatible = compatible || level >= 1;
                healthy = healthy || level >= 2;
                resource_fit = resource_fit || level >= 3;
                queue_available = queue_available || level >= 4;
                match candidate {
                    Some(c) => {
                        candidates.push(c);
                    },
                    None => {},
                }
                j = j + 1;
            }
            proof {
                assert(refs.take(refs.len() as int) =~= refs);
                assert(ps.take(i + 1).drop_last() =~= ps.take(i as int));
                assert(ps.take(i + 1).last() == p);
                self.lemma_seen_next_provider(*request, i as int, 0);
                self.lemma_seen_next_provider(*request, i as int, 1);
                self.lemma_seen_next_provider(*request, i as int, 2);
                self.lemma_seen_next_provider(*request, i as int, 3);
            }
            i = i + 1;
        }
        proof {
            assert(ps.take(ps.len() as int) =~= ps);
            self.lemma_seen_all(*request, 0);
            self.lemma_seen_all(*request, 1);
            self.lemma_seen_all(*request, 2);
            self.lemma_seen_all(*request, 3);
        }
        if candidates.len() == 0 {
            if !compatible {
                return Err(OrchestrationError::NoCompatibleCandidate);
            }
            if !healthy {
                return Err(OrchestrationError::NoHealthyCandidate);
            }
            if !resource_fit {
                return Err(OrchestrationError::NoResources);
            }
            if !queue_available {
                return Err(OrchestrationError::QueueFull);
            }
            return Err(OrchestrationError::NoResources);
        }
        Ok(rank_order(candidates))
    }
}

} // verus!

verus! {

// ---------------------------------------------------------------------------------------------
// Reservations
// ---------------------------------------------------------------------------------------------
/// `after` is `node` once `model` has been committed for `request`: the RAM and a queue slot are
/// taken, and unless the model was loaded already it is loaded, on the first GPU that fits when
/// it needs VRAM.
pub open spec fn node_after_commit(
    node: ComputeNode,
    model: ModelSpec,
    request: RoutingRequest,
    after: ComputeNode,
) -> bool {
    let reuse = holds_model(node.loaded_models@, model.model_ref@);
    let uses_gpu = !reuse && model.vram_mb != 0;
    let fit = first_fit(node.gpus@, model.vram_mb);
    &&& after.id == node.id
    &&& after.ram_total_mb == node.ram_total_mb
    &&& after.ram_available_mb == node.ram_available_mb - required_ram(model, request)
    &&& after.queue == (QueueLoad { depth: (node.queue.depth + 1) as u16, ..node.queue })
    &&& after.priority == node.priority
    &&& after.estimated_performance == node.estimated_performance
    &&& after.estimated_latency_ms == node.estimated_latency_ms
    &&& after.health == node.health
    &&& after.gpus@ == (if uses_gpu {
        node.gpus@.update(
            fit,
            GpuResource {
                vram_available_mb: (node.gpus@[fit].vram_available_mb - model.vram_mb) as u64,
                ..node.gpus@[fit]
            },
        )
    } else {
        node.gpus@
    })
    &&& after.loaded_models@ == (if reuse {
        node.loaded_models@
    } else {
        node.loaded_models@.push(
            LoadedModel {
                model_ref: model.model_ref,
                gpu_id: if uses_gpu {
                    Some(node.gpus@[fit].id)
                } else {
                    None
                },
                vram_mb: model.vram_mb,
                last_used_at_ms: Some(request.created_at_ms),
            },
        )
    })
}

impl GenerationReservation {
    /// A copy of the reservation.
    pub fn duplicate(&self) -> (r: Self)
        ensures
            r == *self,
    {
        GenerationReservation {
            request_id: self.request_id.clone(),
            node_id: self.node_id.clone(),
            provider_id: self.provider_id.clone(),
            model_ref: self.model_ref.clone(),
            score: self.score,
            queue_status: self.queue_status,
            queue_position: self.queue_position,
            loaded_model_reuse: self.loaded_model_reuse,
            reserved_ram_mb: self.reserved_ram_mb,
            status: self.status,
        }
    }
}

impl OrchestrationManager {
    /// The candidate's node and model are registered and the node still has the queue slot,
    /// the RAM and (unless the model is loaded) a GPU with the VRAM that the request needs.
    pub open spec fn commit_ok(self, request: RoutingRequest, candidate: RouteCandidate) -> bool {
        let ni = self.node_index(candidate.node_id@);
        let mi = self.model_index(candidate.model_ref@);
        let node = self.node_seq()[ni];
        let model = self.model_seq()[mi];
        &&& ni >= 0
        &&& mi >= 0
        &&& !node.queue.full()
        &&& node.ram_available_mb >= required_ram(model, request)
        &&& (holds_model(node.loaded_models@, model.model_ref@) || model.vram_mb == 0 || first_fit(
            node.gpus@,
            model.vram_mb,
        ) >= 0)
    }

    /// The reservation that committing `candidate` for `request` records.
    pub open spec fn reservation_for(self, request: RoutingRequest, candidate: RouteCandidate) -> GenerationReservation {
        let node = self.node_seq()[self.node_index(candidate.node_id@)];
        let model = self.model_seq()[self.model_index(candidate.model_ref@)];
        let ready = node.queue.active == 0 && node.queue.depth == 0;
        GenerationReservation {
            request_id: request.request_id,
            node_id: candidate.node_id,
            provider_id: candidate.provider_id,
            model_ref: candidate.model_ref,
            score: candidate.score,
            queue_status: if ready {
                QueueStatus::Ready
            } else {
                QueueStatus::Queued
            },
            queue_position: if ready {
                0
            } else {
                node.queue.depth
            },
            loaded_model_reuse: holds_model(node.loaded_models@, model.model_ref@),
            reserved_ram_mb: required_ram(model, request),
            status: ReservationStatus::Reserved,
        }
    }

    /// `after` is `self` with `candidate` committed for `request` on its node.
    pub open spec fn committed(
        self,
        after: Self,
        request: RoutingRequest,
        candidate: RouteCandidate,
    ) -> bool {
        let ni = self.node_index(candidate.node_id@);
        let mi = self.model_index(candidate.model_ref@);
        &&& self.commit_ok(request, candidate)
        &&& after.node_seq().len() == self.node_seq().len()
        &&& forall|k: int|
            0 <= k < self.node_seq().len() && k != ni ==> #[trigger] after.node_seq()[k]
                == self.node_seq()[k]
        &&& node_after_commit(self.node_seq()[ni], self.model_seq()[mi], request, after.node_seq()[ni])
        &&& after.provider_seq() == self.provider_seq()
        &&& after.model_seq() == self.model_seq()
    }

    /// `after` is `self` with `candidate` committed for `request` and the reservation recorded.
    pub open spec fn reserved(
        self,
        after: Self,
        request: RoutingRequest,
        candidate: RouteCandidate,
        reservation: GenerationReservation,
    ) -> bool {
        &&& self.committed(after, request, candidate)
        &&& reservation == self.reservation_for(request, candidate)
        &&& after.reservation_seq() == self.reservation_seq().push(reservation)
    }

    /// Routing `request` to `candidate` is one of the candidates that `all_candidates` yields.
    pub open spec fn open_candidate(self, request: RoutingRequest, candidate: RouteCandidate) -> bool {
        exists|p: Provider, mr: Seq<char>|
            self.pair_open(request, p, mr) && candidate == #[trigger] self.pair_candidate(
                request,
                p,
                mr,
            )
    }

    proof fn lemma_provider_candidates_open(
        self,
        request: RoutingRequest,
        provider: Provider,
        refs: Seq<String>,
    )
        ensures
            forall|k: int|
                0 <= k < self.provider_candidates(request, provider, refs).len()
                    ==> self.open_candidate(
                    request,
                    #[trigger] self.provider_candidates(request, provider, refs)[k],
                ),
        decreases refs.len(),
    {
        if refs.len() > 0 {
            self.lemma_provider_candidates_open(request, provider, refs.drop_last());
            let prev = self.provider_candidates(request, provider, refs.drop_last());
            let cur = self.provider_candidates(request, provider, refs);
            assert forall|k: int| 0 <= k < cur.len() implies self.open_candidate(
                request,
                #[trigger] cur[k],
            ) by {
                if k < prev.len() {
                    assert(cur[k] == prev[k]);
                } else {
                    let mr = refs.last()@;
                    assert(self.pair_open(request, provider, mr));
                    assert(cur[k] == self.pair_candidate(request, provider, mr));
                }
            }
        }
    }

    proof fn lemma_providers_candidates_open(self, request: RoutingRequest, providers: Seq<Provider>)
        ensures
            forall|k: int|
                0 <= k < self.providers_candidates(request, providers).len()
                    ==> self.open_candidate(
                    request,
                    #[trigger] self.providers_candidates(request, providers)[k],
                ),
        decreases providers.len(),
    {
        if providers.len() > 0 {
            self.lemma_providers_candidates_open(request, providers.drop_last());
            let p = providers.last();
            self.lemma_provider_candidates_open(request, p, p.model_refs@);
            let a = self.providers_candidates(request, providers.drop_last());
            let b = self.provider_candidates(request, p, p.model_refs@);
            let cur = self.providers_candidates(request, providers);
            assert forall|k: int| 0 <= k < cur.len() implies self.open_candidate(
                request,
                #[trigger] cur[k],
            ) by {
                if k < a.len() {
                    assert(cur[k] == a[k]);
                } else {
                    assert(cur[k] == b[k - a.len()]);
                }
            }
        }
    }

    /// Every candidate that ranking yields can be committed.
    proof fn lemma_open_candidate_commits(self, request: RoutingRequest, candidate: RouteCandidate)
        requires
            self.open_candidate(request, candidate),
        ensures
            self.commit_ok(request, candidate),
    {
        let (p, mr) = choose|p: Provider, mr: Seq<char>|
            self.pair_open(request, p, mr) && candidate == #[trigger] self.pair_candidate(
                request,
                p,
                mr,
            );
        lemma_first_match_props(self.node_seq(), node_named(p.node_id@));
        lemma_first_match_props(self.model_seq(), model_named(mr));
        assert(candidate.node_id@ == p.node_id@);
        assert(candidate.model_ref@ == mr);
    }

    /// Takes the queue slot, RAM and VRAM that `candidate` needs on its node.
    fn commit_reservation(&mut self, request: &RoutingRequest, candidate: &RouteCandidate) -> (r:
        Result<GenerationReservation, OrchestrationError>)
        requires
            old(self).wf(),
        ensures
            final(self).wf(),
            old(self).commit_ok(*request, *candidate) ==> r == Ok::<
                GenerationReservation,
                OrchestrationError,
            >(old(self).reservation_for(*request, *candidate)) && old(self).committed(
                *final(self),
                *request,
                *candidate,
            ) && final(self).reservation_seq() == old(self).reservation_seq(),
            !old(self).commit_ok(*request, *candidate) ==> r is Err && final(self).same_as(
                *old(self),
            ),
    {
        let mi = match self.find_model(candidate.model_ref.as_str()) {
            Some(mi) => mi,
            None => {
                return Err(OrchestrationError::NoCompatibleCandidate);
            },
        };
        let ni = match self.find_node(candidate.node_id.as_str()) {
            Some(ni) => ni,
            None => {
                return Err(OrchestrationError::NodeNotFound);
            },
        };
        let model_ref = self.models[mi].model_ref.clone();
        let model_vram = self.models[mi].vram_mb;
        let required = self.models[mi].ram_mb.saturating_add(request.additional_ram_mb);
        if self.nodes[ni].queue.is_full() || self.nodes[ni].ram_available_mb < required {
            return Err(OrchestrationError::NoResources);
        }
        let reuse = has_loaded_model(&self.nodes[ni], &model_ref);
        let fit = if reuse || model_vram == 0 {
            None
        } else {
            match first_fitting_gpu(&self.nodes[ni], model_vram) {
                Some(g) => Some(g),
                None => {
                    return Err(OrchestrationError::NoResources);
                },
            }
        };
        let ghost old_node = self.nodes@[ni as int];
        let ghost model = self.models@[mi as int];
        proof {
            lemma_first_match_props(old_node.gpus@, gpu_fits(model_vram));
            assert(nodes_ok(self.nodes@));
            assert(old_node.queue.depth <= old_node.queue.capacity);
        }
        let mut node = self.nodes.remove(ni);
        let ready = node.queue.active == 0 && node.queue.depth == 0;
        let queue_position = if ready {
            0
        } else {
            node.queue.depth
        };
        let gpu_id = match fit {
            Some(g) => {
                let gid = node.gpus[g].id.clone();
                let updated = GpuResource {
                    id: node.gpus[g].id.clone(),
                    vram_total_mb: node.gpus[g].vram_total_mb,
                    vram_available_mb: node.gpus[g].vram_available_mb - model_vram,
                    estimated_performance: node.gpus[g].estimated_performance,
                };
                node.gpus.set(g, updated);
                Some(gid)
            },
            None => None,
        };
        if !reuse {
            node.loaded_models.push(
                LoadedModel {
                    model_ref: model_ref.clone(),
                    gpu_id,
                    vram_mb: model_vram,
                    last_used_at_ms: Some(request.created_at_ms),
                },
            );
        }
        node.ram_available_mb = node.ram_available_mb - required;
        node.queue.depth = node.queue.depth + 1;
        self.nodes.insert(ni, node);
        proof {
            let ns = self.nodes@;
            let os = old(self).nodes@;
            assert forall|k: int| 0 <= k < os.len() && k != ni implies #[trigger] ns[k] == os[k] by {}
            assert(ns[ni as int].id@ == os[ni as int].id@);
            assert forall|a: int, b: int| 0 <= a < b < ns.len() implies #[trigger] ns[a].id@
                != #[trigger] ns[b].id@ by {
                assert(os[a].id@ != os[b].id@);
            }
            assert forall|a: int| 0 <= a < ns.len() implies (#[trigger] ns[a]).ram_available_mb
                <= ns[a].ram_total_mb && ns[a].queue.depth <= ns[a].queue.capacity by {
                assert(os[a].ram_available_mb <= os[a].ram_total_mb);
            }
            assert(node_after_commit(old_node, model, *request, ns[ni as int]));
        }
        Ok(
            GenerationReservation {
                request_id: request.request_id.clone(),
                node_id: candidate.node_id.clone(),
                provider_id: candidate.provider_id.clone(),
                model_ref: candidate.model_ref.clone(),
                score: candidate.score,
                queue_status: if ready {
                    QueueStatus::Ready
                } else {
                    QueueStatus::Queued
                },
                queue_position,
                loaded_model_reuse: reuse,
                reserved_ram_mb: required,
                status: ReservationStatus::Reserved,
            },
        )
    }
}

} // verus!

verus! {

impl OrchestrationManager {
    /// The reservation recorded under `request_id`, if any.
    pub open spec fn reservation_of(self, request_id: Seq<char>) -> Option<GenerationReservation> {
        let i = self.reservation_index(request_id);
        if i >= 0 {
            Some(self.reservation_seq()[i])
        } else {
            None
        }
    }

    proof fn lemma_ranked_best(
        self,
        request: RoutingRequest,
        v: Seq<RouteCandidate>,
    )
        requires
            ranked(v),
            v.len() > 0,
            v.to_multiset() == self.all_candidates(request).to_multiset(),
        ensures
            self.all_candidates(request).contains(v[0]),
            self.open_candidate(request, v[0]),
            forall|c: RouteCandidate|
                self.all_candidates(request).contains(c) ==> !ranks_before(c, v[0]),
    {
        broadcast use vstd::seq_lib::group_to_multiset_ensures;

        let all = self.all_candidates(request);
        assert(v.contains(v[0]));
        vstd::seq_lib::to_multiset_contains(v, v[0]);
        vstd::seq_lib::to_multiset_contains(all, v[0]);
        assert(all.contains(v[0]));
        self.lemma_providers_candidates_open(request, self.provider_seq());
        let k = choose|k: int| 0 <= k < all.len() && all[k] == v[0];
        assert(self.open_candidate(request, all[k]));
        assert forall|c: RouteCandidate| all.contains(c) implies !ranks_before(c, v[0]) by {
            vstd::seq_lib::to_multiset_contains(v, c);
            vstd::seq_lib::to_multiset_contains(all, c);
            assert(v.contains(c));
            let j = choose|j: int| 0 <= j < v.len() && v[j] == c;
            if j == 0 {
                lemma_ranks_before_asymmetric(c, c);
            } else {
                assert(!ranks_before(v[j], v[0]));
            }
        }
    }

    /// Reserves the best-ranked candidate for the request. A request id that already holds a
    /// reservation gets that reservation back and changes nothing.
    pub fn reserve(&mut self, request: RoutingRequest) -> (r: Result<
        GenerationReservation,
        OrchestrationError,
    >)
        requires
            old(self).wf(),
        ensures
            final(self).wf(),
            request.check() is Err ==> r == Err::<GenerationReservation, OrchestrationError>(
                request.check()->Err_0,
            ) && final(self).same_as(*old(self)),
            request.check() is Ok && old(self).reservation_of(request.request_id@) is Some ==> r
                == Ok::<GenerationReservation, OrchestrationError>(
                old(self).reservation_of(request.request_id@)->0,
            ) && final(self).same_as(*old(self)),
            request.check() is Ok && old(self).reservation_of(request.request_id@) is None
                && old(self).reservation_seq().len() >= MAX_RESERVATIONS ==> r == Err::<
                GenerationReservation,
                OrchestrationError,
            >(OrchestrationError::ReservationStoreFull) && final(self).same_as(*old(self)),
            request.check() is Ok && old(self).reservation_of(request.request_id@) is None
                && old(self).reservation_seq().len() < MAX_RESERVATIONS && old(self).all_candidates(
                request,
            ).len() == 0 ==> r == Err::<GenerationReservation, OrchestrationError>(
                old(self).no_candidate_error(request),
            ) && final(self).same_as(*old(self)),
            request.check() is Ok && old(self).reservation_of(request.request_id@) is None
                && old(self).reservation_seq().len() < MAX_RESERVATIONS && old(self).all_candidates(
                request,
            ).len() > 0 ==> (r matches Ok(res) && exists|c: RouteCandidate|
                old(self).all_candidates(request).contains(c) && (forall|c2: RouteCandidate|
                    old(self).all_candidates(request).contains(c2) ==> !ranks_before(c2, c))
                    && #[trigger] old(self).reserved(*final(self), request, c, res)),
    {
        request.validate()?;
        match self.find_reservation(request.request_id.as_str()) {
            Some(i) => {
                return Ok(self.reservations[i].duplicate());
            },
            None => {},
        }
        if self.reservations.len() >= MAX_RESERVATIONS {
            return Err(OrchestrationError::ReservationStoreFull);
        }
        let candidates = self.rank_candidates(&request)?;
        proof {
            vstd::seq_lib::to_multiset_len(candidates@);
            vstd::seq_lib::to_multiset_len(self.all_candidates(request));
            self.lemma_ranked_best(request, candidates@);
            self.lemma_open_candidate_commits(request, candidates@[0]);
            lemma_first_match_props(self.reservations@, reservation_named(request.request_id@));
        }
        let reservation = self.commit_reservation(&request, &candidates[0])?;
        let ghost mid = *self;
        self.reservations.push(reservation.duplicate());
        proof {
            let rs = self.reservations@;
            let os = old(self).reservations@;
            assert forall|a: int, b: int| 0 <= a < b < rs.len() implies #[trigger] rs[a].request_id@
                != #[trigger] rs[b].request_id@ by {
                if b == rs.len() - 1 {
                    assert(!reservation_named(request.request_id@)(os[a]));
                } else {
                    assert(os[a].request_id@ != os[b].request_id@);
                }
            }
            assert(old(self).reserved(*self, request, candidates@[0], reservation));
        }
        Ok(reservation)
    }

    /// Like `reserve`, but offers the ranked candidates to `try_reserve` in rank order and
    /// reserves the first one that it accepts.
    pub fn reserve_with<F>(&mut self, request: RoutingRequest, mut try_reserve: F) -> (r: Result<
        GenerationReservation,
        OrchestrationError,
    >) where F: FnMut(&RouteCandidate) -> Result<(), &'static str>
        requires
            old(self).wf(),
            forall|c: &RouteCandidate| call_requires(try_reserve, (c,)),
        ensures
            final(self).wf(),
            request.check() is Err ==> r == Err::<GenerationReservation, OrchestrationError>(
                request.check()->Err_0,
            ) && final(self).same_as(*old(self)),
            request.check() is Ok && old(self).reservation_of(request.request_id@) is Some ==> r
                == Ok::<GenerationReservation, OrchestrationError>(
                old(self).reservation_of(request.request_id@)->0,
            ) && final(self).same_as(*old(self)),
            request.check() is Ok && old(self).reservation_of(request.request_id@) is None
                && old(self).reservation_seq().len() >= MAX_RESERVATIONS ==> r == Err::<
                GenerationReservation,
                OrchestrationError,
            >(OrchestrationError::ReservationStoreFull) && final(self).same_as(*old(self)),
            request.check() is Ok && old(self).reservation_of(request.request_id@) is None
                && old(self).reservation_seq().len() < MAX_RESERVATIONS && old(self).all_candidates(
                request,
            ).len() == 0 ==> r == Err::<GenerationReservation, OrchestrationError>(
                old(self).no_candidate_error(request),
            ) && final(self).same_as(*old(self)),
            request.check() is Ok && old(self).reservation_of(request.request_id@) is None
                && old(self).reservation_seq().len() < MAX_RESERVATIONS && old(self).all_candidates(
                request,
            ).len() > 0 ==> match r {
                Ok(res) => exists|c: RouteCandidate|
                    old(self).all_candidates(request).contains(c) && #[trigger] old(self).reserved(
                        *final(self),
                        request,
                        c,
                        res,
                    ) && accepted_by(try_reserve, c) && forall|d: RouteCandidate|
                        old(self).all_candidates(request).contains(d) && ranks_before(d, c)
                            ==> #[trigger] refused_by(try_reserve, d),
                Err(e) => e == OrchestrationError::ReservationFailed && final(self).same_as(
                    *old(self),
                ) && forall|d: RouteCandidate|
                    old(self).all_candidates(request).contains(d) ==> #[trigger] refused_by(
                        try_reserve,
                        d,
                    ),
            },
    {
        broadcast use vstd::seq_lib::group_to_multiset_ensures;

        request.validate()?;
        match self.find_reservation(request.request_id.as_str()) {
            Some(i) => {
                return Ok(self.reservations[i].duplicate());
            },
            None => {},
        }
        if self.reservations.len() >= MAX_RESERVATIONS {
            return Err(OrchestrationError::ReservationStoreFull);
        }
        let candidates = self.rank_candidates(&request)?;
        proof {
            self.lemma_providers_candidates_open(request, self.provider_seq());
            lemma_first_match_props(self.reservations@, reservation_named(request.request_id@));
        }
        let ghost initial_try = try_reserve;
        let mut k: usize = 0;
        let mut found = false;
        while !found && k < candidates.len()
            invariant
                try_reserve == initial_try,
                self == old(self),
                forall|c: &RouteCandidate| call_requires(try_reserve, (c,)),
                k <= candidates@.len(),
                found ==> k < candidates@.len() && accepted_by(try_reserve, candidates@[k as int]),
                forall|j: int| 0 <= j < k ==> refused_by(try_reserve, #[trigger] candidates@[j]),
            decreases candidates.len() - k + (if found {
                0int
            } else {
                1int
            }),
        {
            let ghost before_call = try_reserve;
            let outcome = try_reserve(&candidates[k]);
            assert(try_reserve == before_call);
            match outcome {
                Ok(()) => {
                    assert(call_ensures(try_reserve, (&candidates@[k as int],), outcome));
                    found = true;
                },
                Err(e) => {
                    assert(call_ensures(
                        try_reserve,
                        (&candidates@[k as int],),
                        Err::<(), &'static str>(e),
                    ));
                    k = k + 1;
                },
            }
        }
        if found {
            proof {
                let c = candidates@[k as int];
                self.lemma_earlier_refused(request, candidates@, k as int, try_reserve);
                let all = self.all_candidates(request);
                assert(candidates@.contains(c));
                vstd::seq_lib::to_multiset_contains(candidates@, c);
                vstd::seq_lib::to_multiset_contains(all, c);
                assert(all.contains(c));
                let m = choose|m: int| 0 <= m < all.len() && all[m] == c;
                assert(self.open_candidate(request, all[m]));
                self.lemma_open_candidate_commits(request, c);
                lemma_first_match_props(self.reservations@, reservation_named(request.request_id@));
            }
            let reservation = self.commit_reservation(&request, &candidates[k])?;
            self.reservations.push(reservation.duplicate());
            proof {
                let rs = self.reservations@;
                let os = old(self).reservations@;
                assert forall|a: int, b: int| 0 <= a < b < rs.len() implies #[trigger] rs[
                    a
                ].request_id@ != #[trigger] rs[b].request_id@ by {
                    if b == rs.len() - 1 {
                        assert(!reservation_named(request.request_id@)(os[a]));
                    } else {
                        assert(os[a].request_id@ != os[b].request_id@);
                    }
                }
                assert(old(self).reserved(*self, request, candidates@[k as int], reservation));
            }
            return Ok(reservation);
        }
        proof {
            assert(k == candidates@.len());
            assert forall|d: RouteCandidate|
                self.all_candidates(request).contains(d) implies #[trigger] refused_by(
                try_reserve,
                d,
            ) by {
                vstd::seq_lib::to_multiset_contains(self.all_candidates(request), d);
                vstd::seq_lib::to_multiset_contains(candidates@, d);
                let j = choose|j: int| 0 <= j < candidates@.len() && candidates@[j] == d;
                assert(refused_by(try_reserve, candidates@[j]));
            }
        }
        Err(OrchestrationError::ReservationFailed)
    }

    /// In a ranked list that holds exactly the candidates of the request, every candidate that
    /// ranks before the one at `k` comes before `k`, so it was refused when every earlier one was.
    proof fn lemma_earlier_refused<F: FnMut(&RouteCandidate) -> Result<(), &'static str>>(
        self,
        request: RoutingRequest,
        v: Seq<RouteCandidate>,
        k: int,
        try_reserve: F,
    )
        requires
            0 <= k < v.len(),
            ranked(v),
            v.to_multiset() == self.all_candidates(request).to_multiset(),
            forall|j: int| 0 <= j < k ==> refused_by(try_reserve, #[trigger] v[j]),
        ensures
            forall|d: RouteCandidate|
                self.all_candidates(request).contains(d) && ranks_before(d, v[k])
                    ==> #[trigger] refused_by(try_reserve, d),
    {
        assert forall|d: RouteCandidate|
            self.all_candidates(request).contains(d) && ranks_before(d, v[k]) implies #[trigger] refused_by(
            try_reserve,
            d,
        ) by {
            vstd::seq_lib::to_multiset_contains(self.all_candidates(request), d);
            vstd::seq_lib::to_multiset_contains(v, d);
            let j = choose|j: int| 0 <= j < v.len() && v[j] == d;
            lemma_ranks_before_asymmetric(d, d);
            if j >= k {
                if j > k {
                    assert(!ranks_before(v[j], v[k]));
                }
                assert(false);
            }
            assert(refused_by(try_reserve, v[j]));
        }
    }

    /// `after` is `self` once the reservation under `request_id` is completed: its node gets back
    /// the queue slot and the reserved RAM (up to its total), and the reservation is marked
    /// completed.
    pub open spec fn completed(self, after: Self, request_id: Seq<char>, result: Result<
        GenerationReservation,
        OrchestrationError,
    >) -> bool {
        let ri = self.reservation_index(request_id);
        let existing = self.reservation_seq()[ri];
        let ni = self.node_index(existing.node_id@);
        let node = self.node_seq()[ni];
        if ri < 0 {
            result == Err::<GenerationReservation, OrchestrationError>(
                OrchestrationError::ReservationNotFound,
            ) && after.same_as(self)
        } else if existing.status == ReservationStatus::Completed {
            result == Ok::<GenerationReservation, OrchestrationError>(existing) && after.same_as(
                self,
            )
        } else if ni < 0 {
            result == Err::<GenerationReservation, OrchestrationError>(
                OrchestrationError::NodeNotFound,
            ) && after.same_as(self)
        } else if node.queue.depth == 0 || node.ram_available_mb > node.ram_total_mb {
            result == Err::<GenerationReservation, OrchestrationError>(
                OrchestrationError::InvalidContract("reservation_state"),
            ) && after.same_as(self)
        } else {
            let done = GenerationReservation { status: ReservationStatus::Completed, ..existing };
            let freed = sat_add_u64(node.ram_available_mb, existing.reserved_ram_mb);
            &&& result == Ok::<GenerationReservation, OrchestrationError>(done)
            &&& after.reservation_seq() == self.reservation_seq().update(ri, done)
            &&& after.node_seq() == self.node_seq().update(
                ni,
                ComputeNode {
                    ram_available_mb: if freed < node.ram_total_mb {
                        freed
                    } else {
                        node.ram_total_mb
                    },
                    queue: QueueLoad { depth: (node.queue.depth - 1) as u16, ..node.queue },
                    ..node
                },
            )
            &&& after.provider_seq() == self.provider_seq()
            &&& after.model_seq() == self.model_seq()
        }
    }

    /// Completes a reservation, releasing its queue slot and RAM on its node.
    pub fn complete(&mut self, request_id: &str) -> (r: Result<
        GenerationReservation,
        OrchestrationError,
    >)
        requires
            old(self).wf(),
        ensures
            final(self).wf(),
            old(self).completed(*final(self), request_id@, r),
    {
        let ri = match self.find_reservation(request_id) {
            Some(ri) => ri,
            None => {
                return Err(OrchestrationError::ReservationNotFound);
            },
        };
        let existing = self.reservations[ri].duplicate();
        if existing.status == ReservationStatus::Completed {
            return Ok(existing);
        }
        let ni = match self.find_node(existing.node_id.as_str()) {
            Some(ni) => ni,
            None => {
                return Err(OrchestrationError::NodeNotFound);
            },
        };
        if self.nodes[ni].queue.depth == 0 || self.nodes[ni].ram_available_mb
            > self.nodes[ni].ram_total_mb {
            return Err(OrchestrationError::InvalidContract("reservation_state"));
        }
        let mut node = self.nodes.remove(ni);
        node.queue.depth = node.queue.depth - 1;
        let freed = node.ram_available_mb.saturating_add(existing.reserved_ram_mb);
        node.ram_available_mb = if freed < node.ram_total_mb {
            freed
        } else {
            node.ram_total_mb
        };
        self.nodes.insert(ni, node);
        let mut completed = existing;
        completed.status = ReservationStatus::Completed;
        let stored = completed.duplicate();
        self.reservations.set(ri, stored);
        proof {
            let ns = self.nodes@;
            let os = old(self).nodes@;
            assert(ns =~= os.update(ni as int, ns[ni as int]));
            assert forall|a: int, b: int| 0 <= a < b < ns.len() implies #[trigger] ns[a].id@
                != #[trigger] ns[b].id@ by {
                assert(os[a].id@ != os[b].id@);
            }
            assert forall|a: int| 0 <= a < ns.len() implies (#[trigger] ns[a]).ram_available_mb
                <= ns[a].ram_total_mb && ns[a].queue.depth <= ns[a].queue.capacity by {
                assert(os[a].ram_available_mb <= os[a].ram_total_mb);
            }
            let rs = self.reservations@;
            let ors = old(self).reservations@;
            assert forall|a: int, b: int| 0 <= a < b < rs.len() implies #[trigger] rs[a].request_id@
                != #[trigger] rs[b].request_id@ by {
                assert(ors[a].request_id@ != ors[b].request_id@);
            }
        }
        Ok(completed)
    }
}

impl Default for OrchestrationManager {
    fn default() -> (m: Self)
        ensures
            m.wf(),
            m.node_seq().len() == 0,
            m.provider_seq().len() == 0,
            m.model_seq().len() == 0,
            m.reservation_seq().len() == 0,
    {
        OrchestrationManager::new()
    }
}

} // verus!

verus! {

/// Registering a node makes it the node found under its id, and leaves the node found under
/// every other id as it was.
pub proof fn law_registered_node_is_found(nodes: Seq<ComputeNode>, node: ComputeNode, other: Seq<char>)
    requires
        nodes_ok(nodes),
    ensures
        ({
            let after = put_node(nodes, node);
            let i = first_match(after, node_named(node.id@));
            &&& i >= 0
            &&& after[i] == node
            &&& other != node.id@ ==> {
                let j = first_match(nodes, node_named(other));
                let k = first_match(after, node_named(other));
                &&& (j >= 0) == (k >= 0)
                &&& j >= 0 ==> after[k] == nodes[j]
            }
        }),
{
    let after = put_node(nodes, node);
    let f = first_match(nodes, node_named(node.id@));
    lemma_first_match_props(nodes, node_named(node.id@));
    lemma_first_match_props(nodes, node_named(other));
    lemma_first_match_props(after, node_named(node.id@));
    lemma_first_match_props(after, node_named(other));
    if f >= 0 {
        assert(node_named(node.id@)(after[f]));
    } else {
        assert(node_named(node.id@)(after[nodes.len() as int]));
    }
    if other != node.id@ {
        let j = first_match(nodes, node_named(other));
        let k = first_match(after, node_named(other));
        if j >= 0 {
            assert(after[j] == nodes[j]);
            assert(node_named(other)(after[j]));
            if k >= 0 && k < j {
                assert(k < nodes.len());
                assert(after[k] == nodes[k] || k == f);
            }
        }
        if k >= 0 {
            assert(after[k] != node);
            assert(k < nodes.len());
            assert(after[k] == nodes[k]);
        }
    }
}

proof fn lemma_same_ids_same_index(a: Seq<ComputeNode>, b: Seq<ComputeNode>, id: Seq<char>)
    requires
        a.len() == b.len(),
        forall|k: int| 0 <= k < a.len() ==> #[trigger] a[k].id@ == b[k].id@,
    ensures
        first_match(a, node_named(id)) == first_match(b, node_named(id)),
{
    lemma_first_match_props(a, node_named(id));
    let i = first_match(a, node_named(id));
    assert forall|k: int| 0 <= k < (if i >= 0 { i } else { a.len() as int }) implies !node_named(id)(
        #[trigger] b[k],
    ) by {
        assert(a[k].id@ == b[k].id@);
    }
    if i >= 0 {
        assert(a[i].id@ == b[i].id@);
        lemma_first_match(b, node_named(id), i);
    } else {
        lemma_first_match(b, node_named(id), a.len() as int);
    }
}

/// Completing a reservation gives its node back exactly the queue depth and the RAM that
/// reserving it took, and reports the reservation as completed.
pub proof fn law_complete_releases_reservation(
    m0: OrchestrationManager,
    m1: OrchestrationManager,
    m2: OrchestrationManager,
    request: RoutingRequest,
    candidate: RouteCandidate,
    reservation: GenerationReservation,
    result: Result<GenerationReservation, OrchestrationError>,
)
    requires
        m0.wf(),
        m0.reservation_of(request.request_id@) is None,
        m0.reserved(m1, request, candidate, reservation),
        m1.completed(m2, request.request_id@, result),
    ensures
        ({
            let ni = m0.node_index(candidate.node_id@);
            &&& result == Ok::<GenerationReservation, OrchestrationError>(
                GenerationReservation { status: ReservationStatus::Completed, ..reservation },
            )
            &&& m2.node_seq()[ni].queue == m0.node_seq()[ni].queue
            &&& m2.node_seq()[ni].ram_available_mb == m0.node_seq()[ni].ram_available_mb
        }),
{
    let ni = m0.node_index(candidate.node_id@);
    let rs0 = m0.reservation_seq();
    let rs1 = m1.reservation_seq();
    lemma_first_match_props(rs0, reservation_named(request.request_id@));
    assert forall|k: int| 0 <= k < rs0.len() implies !reservation_named(request.request_id@)(
        #[trigger] rs1[k],
    ) by {
        assert(rs1[k] == rs0[k]);
    }
    lemma_first_match(rs1, reservation_named(request.request_id@), rs0.len() as int);
    assert(rs1[rs0.len() as int] == reservation);
    lemma_first_match_props(m0.node_seq(), node_named(candidate.node_id@));
    assert forall|k: int| 0 <= k < m0.node_seq().len() implies #[trigger] m0.node_seq()[k].id@
        == m1.node_seq()[k].id@ by {
        if k != ni {
            assert(m1.node_seq()[k] == m0.node_seq()[k]);
        }
    }
    lemma_same_ids_same_index(m0.node_seq(), m1.node_seq(), candidate.node_id@);
    assert(reservation.node_id == candidate.node_id);
    assert(nodes_ok(m0.node_seq()));
    assert(m0.node_seq()[ni].ram_available_mb <= m0.node_seq()[ni].ram_total_mb);
}

/// Completing an already completed reservation returns it again and changes nothing.
pub proof fn law_complete_is_idempotent(
    m1: OrchestrationManager,
    m2: OrchestrationManager,
    m3: OrchestrationManager,
    request_id: Seq<char>,
    done: GenerationReservation,
    again: Result<GenerationReservation, OrchestrationError>,
)
    requires
        m1.completed(m2, request_id, Ok(done)),
        m2.completed(m3, request_id, again),
    ensures
        again == Ok::<GenerationReservation, OrchestrationError>(done),
        m3.same_as(m2),
{
    let ri = m1.reservation_index(request_id);
    lemma_first_match_props(m1.reservation_seq(), reservation_named(request_id));
    if m1.reservation_seq()[ri].status != ReservationStatus::Completed {
        let rs1 = m1.reservation_seq();
        let rs2 = m2.reservation_seq();
        assert forall|k: int| 0 <= k < ri implies !reservation_named(request_id)(#[trigger] rs2[k]) by {
            assert(rs2[k] == rs1[k]);
        }
        assert(rs2[ri].request_id == rs1[ri].request_id);
        lemma_first_match(rs2, reservation_named(request_id), ri);
    }
}


/// All else equal, a lower latency gives a strictly higher score: the faster route ranks
/// first.
pub proof fn law_lower_latency_scores_higher(
    request: RoutingRequest,
    node: ComputeNode,
    provider: Provider,
    model: ModelSpec,
    loaded_model_reuse: bool,
    fast: u32,
    slow: u32,
)
    requires
        fast < slow,
    ensures
        spec_route_score(request, node, provider, model, loaded_model_reuse, fast)
            > spec_route_score(request, node, provider, model, loaded_model_reuse, slow),
{
}

/// A candidate with a strictly higher score ranks before one with a lower score.
pub proof fn law_higher_score_ranks_first(a: RouteCandidate, b: RouteCandidate)
    requires
        a.score > b.score,
    ensures
        ranks_before(a, b),
{
}

} // verus!
