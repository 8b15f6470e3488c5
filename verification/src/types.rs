//! Core types describing services, handlers and invocation targets.

use vstd::prelude::*;

verus! {

/// The kind of a service.
#[derive(Clone, Copy, Debug, PartialEq, Eq, Structural)]
pub enum ServiceType {
    Service,
    VirtualObject,
    Workflow,
}

impl ServiceType {
    /// A service is keyed when each invocation is bound to a key.
    pub open spec fn spec_is_keyed(self) -> bool {
        self is VirtualObject || self is Workflow
    }

    pub fn is_keyed(&self) -> (r: bool)
        ensures
            r == self.spec_is_keyed(),
    {
        match self {
            ServiceType::Service => false,
            ServiceType::VirtualObject => true,
            ServiceType::Workflow => true,
        }
    }

    /// Only keyed services carry state.
    pub fn has_state(&self) -> (r: bool)
        ensures
            r == self.spec_is_keyed(),
    {
        self.is_keyed()
    }

    pub open spec fn spec_name(self) -> Seq<char> {
        match self {
            ServiceType::Service => "Service"@,
            ServiceType::VirtualObject => "VirtualObject"@,
            ServiceType::Workflow => "Workflow"@,
        }
    }

    /// The display form of the service type (its variant name).
    pub fn to_display_string(&self) -> (s: String)
        ensures
            s@ == self.spec_name(),
    {
        proof {
            reveal_strlit("Service");
            reveal_strlit("VirtualObject");
            reveal_strlit("Workflow");
        }
        match self {
            ServiceType::Service => "Service".to_string(),
            ServiceType::VirtualObject => "VirtualObject".to_string(),
            ServiceType::Workflow => "Workflow".to_string(),
        }
    }
}


/// The kind of a virtual object handler.
#[derive(Clone, Copy, Debug, PartialEq, Eq, Structural)]
pub enum VirtualObjectHandlerType {
    Exclusive,
    Shared,
}

impl Default for VirtualObjectHandlerType {
    /// The default handler kind is `Exclusive`.
    fn default() -> (r: Self)
        ensures
            r == VirtualObjectHandlerType::Exclusive,
    {
        VirtualObjectHandlerType::Exclusive
    }
}

impl VirtualObjectHandlerType {
    pub open spec fn spec_name(self) -> Seq<char> {
        match self {
            VirtualObjectHandlerType::Exclusive => "Exclusive"@,
            VirtualObjectHandlerType::Shared => "Shared"@,
        }
    }

    /// The display form (the variant name).
    pub fn to_display_string(&self) -> (s: String)
        ensures
            s@ == self.spec_name(),
    {
        match self {
            VirtualObjectHandlerType::Exclusive => "Exclusive".to_string(),
            VirtualObjectHandlerType::Shared => "Shared".to_string(),
        }
    }
}

/// The kind of a workflow handler.
#[derive(Clone, Copy, Debug, PartialEq, Eq, Structural)]
pub enum WorkflowHandlerType {
    Workflow,
    Shared,
}

impl Default for WorkflowHandlerType {
    /// The default handler kind is `Workflow`.
    fn default() -> (r: Self)
        ensures
            r == WorkflowHandlerType::Workflow,
    {
        WorkflowHandlerType::Workflow
    }
}

impl WorkflowHandlerType {
    pub open spec fn spec_name(self) -> Seq<char> {
        match self {
            WorkflowHandlerType::Workflow => "Workflow"@,
            WorkflowHandlerType::Shared => "Shared"@,
        }
    }

    /// The display form (the variant name).
    pub fn to_display_string(&self) -> (s: String)
        ensures
            s@ == self.spec_name(),
    {
        match self {
            WorkflowHandlerType::Workflow => "Workflow".to_string(),
            WorkflowHandlerType::Shared => "Shared".to_string(),
        }
    }
}

/// The kind of the handler an invocation targets.
#[derive(Clone, Copy, Debug, PartialEq, Eq, Structural)]
pub enum InvocationTargetType {
    Service,
    VirtualObject(VirtualObjectHandlerType),
    Workflow(WorkflowHandlerType),
}

impl InvocationTargetType {
    pub open spec fn spec_is_keyed(self) -> bool {
        self is VirtualObject || self is Workflow
    }

    /// Exclusive object handlers and workflow run handlers may write state.
    pub open spec fn spec_can_write_state(self) -> bool {
        self == InvocationTargetType::VirtualObject(VirtualObjectHandlerType::Exclusive)
            || self == InvocationTargetType::Workflow(WorkflowHandlerType::Workflow)
    }

    pub fn is_keyed(&self) -> (r: bool)
        ensures
            r == self.spec_is_keyed(),
    {
        match self {
            InvocationTargetType::Service => false,
            InvocationTargetType::VirtualObject(_) => true,
            InvocationTargetType::Workflow(_) => true,
        }
    }

    /// Every keyed handler may read state.
    pub fn can_read_state(&self) -> (r: bool)
        ensures
            r == self.spec_is_keyed(),
    {
        self.is_keyed()
    }

    pub fn can_write_state(&self) -> (r: bool)
        ensures
            r == self.spec_can_write_state(),
    {
        match self {
            InvocationTargetType::VirtualObject(VirtualObjectHandlerType::Exclusive) => true,
            InvocationTargetType::Workflow(WorkflowHandlerType::Workflow) => true,
            _ => false,
        }
    }

    pub open spec fn spec_service_type(self) -> ServiceType {
        match self {
            InvocationTargetType::Service => ServiceType::Service,
            InvocationTargetType::VirtualObject(_) => ServiceType::VirtualObject,
            InvocationTargetType::Workflow(_) => ServiceType::Workflow,
        }
    }

    pub open spec fn spec_name(self) -> Seq<char> {
        match self {
            InvocationTargetType::Service => "Service"@,
            InvocationTargetType::VirtualObject(h) => "VirtualObject("@ + h.spec_name() + ")"@,
            InvocationTargetType::Workflow(h) => "Workflow("@ + h.spec_name() + ")"@,
        }
    }

    /// The display form, as the derived debug formatting writes it.
    pub fn to_display_string(&self) -> (s: String)
        ensures
            s@ == self.spec_name(),
    {
        match self {
            InvocationTargetType::Service => "Service".to_string(),
            InvocationTargetType::VirtualObject(h) => {
                let mut s = "VirtualObject(".to_string();
                let inner = h.to_display_string();
                s.append(inner.as_str());
                s.append(")");
                s
            },
            InvocationTargetType::Workflow(h) => {
                let mut s = "Workflow(".to_string();
                let inner = h.to_display_string();
                s.append(inner.as_str());
                s.append(")");
                s
            },
        }
    }
}

impl From<InvocationTargetType> for ServiceType {
    fn from(value: InvocationTargetType) -> (r: Self) {
        match value {
            InvocationTargetType::Service => ServiceType::Service,
            InvocationTargetType::VirtualObject(_) => ServiceType::VirtualObject,
            InvocationTargetType::Workflow(_) => ServiceType::Workflow,
        }
    }
}

impl vstd::std_specs::convert::FromSpecImpl<InvocationTargetType> for ServiceType {
    open spec fn obeys_from_spec() -> bool {
        true
    }

    open spec fn from_spec(v: InvocationTargetType) -> Self {
        v.spec_service_type()
    }
}


/// A key of the partition an entity belongs to.
pub type PartitionKey = u64;

/// Data structures that belong to a partition.
pub trait WithPartitionKey {
    /// The partition key of this value.
    fn partition_key(&self) -> PartitionKey;
}

/// The id of a keyed service instance: service name, key and partition key.
#[derive(Clone, Debug, PartialEq, Eq)]
pub struct ServiceId {
    /// The name of the service.
    pub service_name: String,
    /// The key of the instance.
    pub key: String,
    partition_key: PartitionKey,
}

impl ServiceId {
    pub closed spec fn spec_partition_key(self) -> PartitionKey {
        self.partition_key
    }

    pub closed spec fn spec_service_name(self) -> Seq<char> {
        self.service_name@
    }

    pub closed spec fn spec_key(self) -> Seq<char> {
        self.key@
    }

    /// Builds an id in partition 0.
    pub fn new(service_name: String, key: String) -> (r: Self)
        ensures
            r.spec_service_name() == service_name@,
            r.spec_key() == key@,
            r.spec_partition_key() == 0,
    {
        Self::with_partition_key(0, service_name, key)
    }

    /// Builds an id with the given partition key.
    pub fn with_partition_key(partition_key: PartitionKey, service_name: String, key: String) -> (r: Self)
        ensures
            r.spec_service_name() == service_name@,
            r.spec_key() == key@,
            r.spec_partition_key() == partition_key,
    {
        Self::from_parts(partition_key, service_name, key)
    }

    /// Builds an id from its three parts.
    pub fn from_parts(partition_key: PartitionKey, service_name: String, key: String) -> (r: Self)
        ensures
            r.spec_service_name() == service_name@,
            r.spec_key() == key@,
            r.spec_partition_key() == partition_key,
    {
        ServiceId { service_name, key, partition_key }
    }

    /// The display form `service_name/key`.
    pub fn to_display_string(&self) -> (s: String)
        ensures
            s@ == self.spec_service_name() + "/"@ + self.spec_key(),
    {
        let mut s = self.service_name.clone();
        s.append("/");
        s.append(self.key.as_str());
        s
    }
}

impl WithPartitionKey for ServiceId {
    fn partition_key(&self) -> (r: PartitionKey)
        ensures
            r == self.spec_partition_key(),
    {
        self.partition_key
    }
}

/// The target of an invocation: a handler of a service, object or workflow.
#[derive(Clone, Debug, PartialEq, Eq)]
#[allow(inconsistent_fields)]
pub enum InvocationTarget {
    Service { name: String, handler: String },
    VirtualObject { name: String, key: String, handler: String, handler_ty: VirtualObjectHandlerType },
    Workflow { name: String, key: String, handler: String, handler_ty: WorkflowHandlerType },
}

impl InvocationTarget {
    pub open spec fn spec_service_name(self) -> Seq<char> {
        match self {
            InvocationTarget::Service { name, .. } => name@,
            InvocationTarget::VirtualObject { name, .. } => name@,
            InvocationTarget::Workflow { name, .. } => name@,
        }
    }

    pub open spec fn spec_handler_name(self) -> Seq<char> {
        match self {
            InvocationTarget::Service { handler, .. } => handler@,
            InvocationTarget::VirtualObject { handler, .. } => handler@,
            InvocationTarget::Workflow { handler, .. } => handler@,
        }
    }

    pub open spec fn spec_key(self) -> Option<Seq<char>> {
        match self {
            InvocationTarget::Service { .. } => None,
            InvocationTarget::VirtualObject { key, .. } => Some(key@),
            InvocationTarget::Workflow { key, .. } => Some(key@),
        }
    }

    pub open spec fn spec_invocation_target_ty(self) -> InvocationTargetType {
        match self {
            InvocationTarget::Service { .. } => InvocationTargetType::Service,
            InvocationTarget::VirtualObject { handler_ty, .. } => InvocationTargetType::VirtualObject(handler_ty),
            InvocationTarget::Workflow { handler_ty, .. } => InvocationTargetType::Workflow(handler_ty),
        }
    }

    pub fn service(name: String, handler: String) -> (r: Self)
        ensures
            r == (InvocationTarget::Service { name, handler }),
    {
        InvocationTarget::Service { name, handler }
    }

    pub fn virtual_object(name: String, key: String, handler: String, handler_ty: VirtualObjectHandlerType) -> (r: Self)
        ensures
            r == (InvocationTarget::VirtualObject { name, key, handler, handler_ty }),
    {
        InvocationTarget::VirtualObject { name, key, handler, handler_ty }
    }

    pub fn workflow(name: String, key: String, handler: String, handler_ty: WorkflowHandlerType) -> (r: Self)
        ensures
            r == (InvocationTarget::Workflow { name, key, handler, handler_ty }),
    {
        InvocationTarget::Workflow { name, key, handler, handler_ty }
    }

    pub fn service_name(&self) -> (r: &String)
        ensures
            r@ == self.spec_service_name(),
    {
        match self {
            InvocationTarget::Service { name, .. } => name,
            InvocationTarget::VirtualObject { name, .. } => name,
            InvocationTarget::Workflow { name, .. } => name,
        }
    }

    pub fn key(&self) -> (r: Option<&String>)
        ensures
            r is None <==> self.spec_key() is None,
            r matches Some(k) ==> self.spec_key() == Some(k@),
    {
        match self {
            InvocationTarget::Service { .. } => None,
            InvocationTarget::VirtualObject { key, .. } => Some(key),
            InvocationTarget::Workflow { key, .. } => Some(key),
        }
    }

    pub fn handler_name(&self) -> (r: &String)
        ensures
            r@ == self.spec_handler_name(),
    {
        match self {
            InvocationTarget::Service { handler, .. } => handler,
            InvocationTarget::VirtualObject { handler, .. } => handler,
            InvocationTarget::Workflow { handler, .. } => handler,
        }
    }

    /// The id of the keyed service instance this target belongs to, for keyed targets.
    pub fn as_keyed_service_id(&self) -> (r: Option<ServiceId>)
        ensures
            r is None <==> self.spec_key() is None,
            r matches Some(id) ==> {
                &&& id.spec_service_name() == self.spec_service_name()
                &&& self.spec_key() == Some(id.spec_key())
                &&& id.spec_partition_key() == 0
            },
    {
        match self {
            InvocationTarget::Service { .. } => None,
            InvocationTarget::VirtualObject { name, key, .. } => Some(ServiceId::new(name.clone(), key.clone())),
            InvocationTarget::Workflow { name, key, .. } => Some(ServiceId::new(name.clone(), key.clone())),
        }
    }

    pub fn service_ty(&self) -> (r: ServiceType)
        ensures
            r == self.spec_invocation_target_ty().spec_service_type(),
    {
        match self {
            InvocationTarget::Service { .. } => ServiceType::Service,
            InvocationTarget::VirtualObject { .. } => ServiceType::VirtualObject,
            InvocationTarget::Workflow { .. } => ServiceType::Workflow,
        }
    }

    pub fn invocation_target_ty(&self) -> (r: InvocationTargetType)
        ensures
            r == self.spec_invocation_target_ty(),
    {
        match self {
            InvocationTarget::Service { .. } => InvocationTargetType::Service,
            InvocationTarget::VirtualObject { handler_ty, .. } => InvocationTargetType::VirtualObject(*handler_ty),
            InvocationTarget::Workflow { handler_ty, .. } => InvocationTargetType::Workflow(*handler_ty),
        }
    }

    pub open spec fn spec_display(self) -> Seq<char> {
        match self.spec_key() {
            Some(k) => self.spec_service_name() + "/"@ + k + "/"@ + self.spec_handler_name(),
            None => self.spec_service_name() + "/"@ + self.spec_handler_name(),
        }
    }

    /// The display form `service/key/handler`, or `service/handler` without a key.
    pub fn to_display_string(&self) -> (s: String)
        ensures
            s@ == self.spec_display(),
    {
        let mut s = self.service_name().clone();
        s.append("/");
        if let Some(key) = self.key() {
            s.append(key.as_str());
            s.append("/");
        }
        s.append(self.handler_name().as_str());
        s
    }
}

/// A header of an invocation.
#[derive(Clone, Debug, PartialEq, Eq)]
pub struct Header {
    pub name: String,
    pub value: String,
}

impl Header {
    pub fn new(name: String, value: String) -> (r: Self)
        ensures
            r.name == name,
            r.value == value,
    {
        Header { name, value }
    }

    /// The display form `name: value`.
    pub fn to_display_string(&self) -> (s: String)
        ensures
            s@ == self.name@ + ": "@ + self.value@,
    {
        let mut s = self.name.clone();
        s.append(": ");
        s.append(self.value.as_str());
        s
    }
}

/// The error an invocation failed with.
#[derive(Clone, Debug, PartialEq, Eq)]
pub struct InvocationError {
    pub code: u16,
    pub message: String,
}

/// The result of an invocation.
#[derive(Clone, Debug, PartialEq, Eq)]
pub enum ResponseResult {
    Success(Vec<u8>),
    Failure(InvocationError),
}

impl From<Result<Vec<u8>, InvocationError>> for ResponseResult {
    fn from(value: Result<Vec<u8>, InvocationError>) -> (r: Self) {
        match value {
            Ok(v) => ResponseResult::Success(v),
            Err(e) => ResponseResult::Failure(e),
        }
    }
}

impl vstd::std_specs::convert::FromSpecImpl<Result<Vec<u8>, InvocationError>> for ResponseResult {
    open spec fn obeys_from_spec() -> bool {
        true
    }

    open spec fn from_spec(v: Result<Vec<u8>, InvocationError>) -> Self {
        match v {
            Ok(b) => ResponseResult::Success(b),
            Err(e) => ResponseResult::Failure(e),
        }
    }
}

impl From<ResponseResult> for Result<Vec<u8>, InvocationError> {
    fn from(value: ResponseResult) -> (r: Self) {
        match value {
            ResponseResult::Success(v) => Ok(v),
            ResponseResult::Failure(e) => Err(e),
        }
    }
}

impl vstd::std_specs::convert::FromSpecImpl<ResponseResult> for Result<Vec<u8>, InvocationError> {
    open spec fn obeys_from_spec() -> bool {
        true
    }

    open spec fn from_spec(v: ResponseResult) -> Self {
        match v {
            ResponseResult::Success(b) => Ok(b),
            ResponseResult::Failure(e) => Err(e),
        }
    }
}

impl From<InvocationError> for ResponseResult {
    fn from(e: InvocationError) -> (r: Self) {
        ResponseResult::Failure(e)
    }
}

impl vstd::std_specs::convert::FromSpecImpl<InvocationError> for ResponseResult {
    open spec fn obeys_from_spec() -> bool {
        true
    }

    open spec fn from_spec(e: InvocationError) -> Self {
        ResponseResult::Failure(e)
    }
}

/// Converting a result into a response result and back gives the result again.
pub proof fn lemma_response_result_round_trip(v: Result<Vec<u8>, InvocationError>)
    ensures
        <Result<Vec<u8>, InvocationError> as vstd::std_specs::convert::FromSpec<ResponseResult>>::from_spec(
            <ResponseResult as vstd::std_specs::convert::FromSpec<Result<Vec<u8>, InvocationError>>>::from_spec(v),
        ) == v,
{
}

} // verus!
