//! The models of the Restate admin API: the requests it takes and the responses
//! it gives. Models the library does not interpret are kept as their JSON text.

use vstd::prelude::*;

verus! {

/// How an invocation is deleted.
#[derive(Clone, Copy, Debug, PartialEq, Eq, PartialOrd, Ord, Hash, Structural)]
pub enum DeletionMode {
    Cancel,
    Kill,
    Purge,
}

impl DeletionMode {
    /// The name of the variant, as the API writes it.
    pub open spec fn spec_name(self) -> Seq<char> {
        match self {
            DeletionMode::Cancel => "Cancel"@,
            DeletionMode::Kill => "Kill"@,
            DeletionMode::Purge => "Purge"@,
        }
    }

    /// The display form: the name of the variant.
    pub fn to_display_string(&self) -> (s: String)
        ensures
            s@ == self.spec_name(),
    {
        proof {
            reveal_strlit("Cancel");
            reveal_strlit("Kill");
            reveal_strlit("Purge");
        }
        match self {
            DeletionMode::Cancel => "Cancel".to_string(),
            DeletionMode::Kill => "Kill".to_string(),
            DeletionMode::Purge => "Purge".to_string(),
        }
    }
}

impl Default for DeletionMode {
    fn default() -> (r: DeletionMode)
        ensures
            r == DeletionMode::Cancel,
    {
        DeletionMode::Cancel
    }
}

/// The kind of a handler, as the admin API reports it.
#[derive(Clone, Copy, Debug, PartialEq, Eq, PartialOrd, Ord, Hash, Structural)]
pub enum HandlerMetadataType {
    Exclusive,
    Shared,
    Workflow,
}

impl HandlerMetadataType {
    /// The name of the variant, as the API writes it.
    pub open spec fn spec_name(self) -> Seq<char> {
        match self {
            HandlerMetadataType::Exclusive => "Exclusive"@,
            HandlerMetadataType::Shared => "Shared"@,
            HandlerMetadataType::Workflow => "Workflow"@,
        }
    }

    /// The display form: the name of the variant.
    pub fn to_display_string(&self) -> (s: String)
        ensures
            s@ == self.spec_name(),
    {
        proof {
            reveal_strlit("Exclusive");
            reveal_strlit("Shared");
            reveal_strlit("Workflow");
        }
        match self {
            HandlerMetadataType::Exclusive => "Exclusive".to_string(),
            HandlerMetadataType::Shared => "Shared".to_string(),
            HandlerMetadataType::Workflow => "Workflow".to_string(),
        }
    }
}

impl Default for HandlerMetadataType {
    fn default() -> (r: HandlerMetadataType)
        ensures
            r == HandlerMetadataType::Exclusive,
    {
        HandlerMetadataType::Exclusive
    }
}

/// The kind of a service, as the admin API reports it.
#[derive(Clone, Copy, Debug, PartialEq, Eq, PartialOrd, Ord, Hash, Structural)]
pub enum ServiceType {
    Service,
    VirtualObject,
    Workflow,
}

impl ServiceType {
    /// The name of the variant, as the API writes it.
    pub open spec fn spec_name(self) -> Seq<char> {
        match self {
            ServiceType::Service => "Service"@,
            ServiceType::VirtualObject => "VirtualObject"@,
            ServiceType::Workflow => "Workflow"@,
        }
    }

    /// The display form: the name of the variant.
    pub fn to_display_string(&self) -> (s: String)
        ensures
            s@ == self.spec_name(),
    {
        proof {
            reveal_strlit("Service");
            reveal_strlit("VirtualObject");
            reveal_strlit("Workflow");
        }
        match self {
            ServiceType::Service => "Service".to_string(),
            ServiceType::VirtualObject => "VirtualObject".to_string(),
            ServiceType::Workflow => "Workflow".to_string(),
        }
    }
}

impl Default for ServiceType {
    fn default() -> (r: ServiceType)
        ensures
            r == ServiceType::Service,
    {
        ServiceType::Service
    }
}

/// How an invocation is terminated.
#[derive(Clone, Copy, Debug, PartialEq, Eq, PartialOrd, Ord, Hash, Structural)]
pub enum TerminationMode {
    Cancel,
    Kill,
}

impl TerminationMode {
    /// The name of the variant, as the API writes it.
    pub open spec fn spec_name(self) -> Seq<char> {
        match self {
            TerminationMode::Cancel => "Cancel"@,
            TerminationMode::Kill => "Kill"@,
        }
    }

    /// The display form: the name of the variant.
    pub fn to_display_string(&self) -> (s: String)
        ensures
            s@ == self.spec_name(),
    {
        proof {
            reveal_strlit("Cancel");
            reveal_strlit("Kill");
        }
        match self {
            TerminationMode::Cancel => "Cancel".to_string(),
            TerminationMode::Kill => "Kill".to_string(),
        }
    }
}

impl Default for TerminationMode {
    fn default() -> (r: TerminationMode)
        ensures
            r == TerminationMode::Cancel,
    {
        TerminationMode::Cancel
    }
}

/// The protocol a deployment speaks.
#[derive(Clone, Copy, Debug, PartialEq, Eq, PartialOrd, Ord, Hash, Structural)]
pub enum ProtocolType {
    RequestResponse,
    BidiStream,
}

impl ProtocolType {
    /// The name of the variant, as the API writes it.
    pub open spec fn spec_name(self) -> Seq<char> {
        match self {
            ProtocolType::RequestResponse => "RequestResponse"@,
            ProtocolType::BidiStream => "BidiStream"@,
        }
    }

    /// The display form: the name of the variant.
    pub fn to_display_string(&self) -> (s: String)
        ensures
            s@ == self.spec_name(),
    {
        proof {
            reveal_strlit("RequestResponse");
            reveal_strlit("BidiStream");
        }
        match self {
            ProtocolType::RequestResponse => "RequestResponse".to_string(),
            ProtocolType::BidiStream => "BidiStream".to_string(),
        }
    }
}

impl Default for ProtocolType {
    fn default() -> (r: ProtocolType)
        ensures
            r == ProtocolType::RequestResponse,
    {
        ProtocolType::RequestResponse
    }
}

/// A model of the API the library does not interpret: its JSON text.
#[derive(Clone, Debug, PartialEq, Eq, Default)]
pub struct ServiceMetadata {
    pub json: String,
}

/// A deployment as the API lists it, kept as its JSON text.
#[derive(Clone, Debug, PartialEq, Eq, Default)]
pub struct DeploymentResponse {
    pub json: String,
}

/// A handler as the API lists it, kept as its JSON text.
#[derive(Clone, Debug, PartialEq, Eq, Default)]
pub struct HandlerMetadata {
    pub json: String,
}

/// A subscription as the API lists it, kept as its JSON text.
#[derive(Clone, Debug, PartialEq, Eq, Default)]
pub struct SubscriptionResponse {
    pub json: String,
}

/// A deployment reached over HTTP.
#[derive(Clone, Debug, PartialEq, Eq)]
pub struct DeploymentResponseAnyOf {
    pub uri: String,
    pub protocol_type: ProtocolType,
    pub http_version: String,
    pub additional_headers: Option<Vec<(String, String)>>,
    pub created_at: String,
    pub min_protocol_version: i32,
    pub max_protocol_version: i32,
}

impl DeploymentResponseAnyOf {
    pub fn new(
        uri: String,
        protocol_type: ProtocolType,
        http_version: String,
        created_at: String,
        min_protocol_version: i32,
        max_protocol_version: i32,
    ) -> (r: DeploymentResponseAnyOf)
        ensures
            r == (DeploymentResponseAnyOf {
                uri,
                protocol_type,
                http_version,
                additional_headers: None,
                created_at,
                min_protocol_version,
                max_protocol_version,
            }),
    {
        DeploymentResponseAnyOf {
            uri,
            protocol_type,
            http_version,
            additional_headers: None,
            created_at,
            min_protocol_version,
            max_protocol_version,
        }
    }
}

/// A deployment with the services it exposes.
#[derive(Clone, Debug, PartialEq, Eq)]
pub struct DetailedDeploymentResponse {
    pub id: String,
    /// The services exposed by this deployment.
    pub services: Vec<ServiceMetadata>,
    pub uri: String,
    pub protocol_type: ProtocolType,
    pub additional_headers: Option<Vec<(String, String)>>,
    pub created_at: String,
    pub min_protocol_version: i32,
    pub max_protocol_version: i32,
    pub arn: String,
    pub assume_role_arn: Option<Option<String>>,
}

impl DetailedDeploymentResponse {
    pub fn new(
        id: String,
        services: Vec<ServiceMetadata>,
        uri: String,
        protocol_type: ProtocolType,
        created_at: String,
        min_protocol_version: i32,
        max_protocol_version: i32,
        arn: String,
    ) -> (r: DetailedDeploymentResponse)
        ensures
            r == (DetailedDeploymentResponse {
                id,
                services,
                uri,
                protocol_type,
                additional_headers: None,
                created_at,
                min_protocol_version,
                max_protocol_version,
                arn,
                assume_role_arn: None,
            }),
    {
        DetailedDeploymentResponse {
            id,
            services,
            uri,
            protocol_type,
            additional_headers: None,
            created_at,
            min_protocol_version,
            max_protocol_version,
            arn,
            assume_role_arn: None,
        }
    }
}

/// The error details of a response.
#[derive(Clone, Debug, PartialEq, Eq)]
pub struct ErrorDescriptionResponse {
    pub message: String,
    /// The Restate error code of this error.
    pub restate_code: Option<Option<String>>,
}

impl ErrorDescriptionResponse {
    pub fn new(message: String) -> (r: ErrorDescriptionResponse)
        ensures
            r == (ErrorDescriptionResponse { message, restate_code: None }),
    {
        ErrorDescriptionResponse { message, restate_code: None }
    }
}

#[derive(Clone, Debug, PartialEq, Eq)]
pub struct ListDeploymentsResponse {
    pub deployments: Vec<DeploymentResponse>,
}

impl ListDeploymentsResponse {
    pub fn new(deployments: Vec<DeploymentResponse>) -> (r: ListDeploymentsResponse)
        ensures
            r == (ListDeploymentsResponse { deployments }),
    {
        ListDeploymentsResponse { deployments }
    }
}

#[derive(Clone, Debug, PartialEq, Eq)]
pub struct ListServiceHandlersResponse {
    pub handlers: Vec<HandlerMetadata>,
}

impl ListServiceHandlersResponse {
    pub fn new(handlers: Vec<HandlerMetadata>) -> (r: ListServiceHandlersResponse)
        ensures
            r == (ListServiceHandlersResponse { handlers }),
    {
        ListServiceHandlersResponse { handlers }
    }
}

#[derive(Clone, Debug, PartialEq, Eq)]
pub struct ListSubscriptionsResponse {
    pub subscriptions: Vec<SubscriptionResponse>,
}

impl ListSubscriptionsResponse {
    pub fn new(subscriptions: Vec<SubscriptionResponse>) -> (r: ListSubscriptionsResponse)
        ensures
            r == (ListSubscriptionsResponse { subscriptions }),
    {
        ListSubscriptionsResponse { subscriptions }
    }
}

/// A change to a service's settings; what is `None` stays as it is.
#[derive(Clone, Debug, PartialEq, Eq)]
pub struct ModifyServiceRequest {
    /// Whether the service can be invoked through the ingress, or only from
    /// another Restate service.
    pub public: Option<Option<bool>>,
    /// The retention of idempotent requests for this service.
    pub idempotency_retention: Option<Option<String>>,
    /// The retention of the workflow completion (workflow services only).
    pub workflow_completion_retention: Option<Option<String>>,
}

impl ModifyServiceRequest {
    pub fn new() -> (r: ModifyServiceRequest)
        ensures
            r == (ModifyServiceRequest {
                public: None,
                idempotency_retention: None,
                workflow_completion_retention: None,
            }),
    {
        ModifyServiceRequest { public: None, idempotency_retention: None, workflow_completion_retention: None }
    }
}

/// A request to register a deployment reached over HTTP.
#[derive(Clone, Debug, PartialEq, Eq)]
pub struct RegisterDeploymentRequestAnyOf {
    /// The uri used to discover and invoke the deployment.
    pub uri: String,
    /// Headers added to the discovery and invocation requests.
    pub additional_headers: Option<Option<Vec<(String, String)>>>,
    /// Whether discovery uses HTTP/1.1 rather than HTTP/2.
    pub use_http_11: Option<bool>,
    /// Whether to override a deployment with the same uri.
    pub force: Option<bool>,
    /// Whether to run discovery without registering.
    pub dry_run: Option<bool>,
}

impl RegisterDeploymentRequestAnyOf {
    pub fn new(uri: String) -> (r: RegisterDeploymentRequestAnyOf)
        ensures
            r == (RegisterDeploymentRequestAnyOf {
                uri,
                additional_headers: None,
                use_http_11: None,
                force: None,
                dry_run: None,
            }),
    {
        RegisterDeploymentRequestAnyOf { uri, additional_headers: None, use_http_11: None, force: None, dry_run: None }
    }
}

#[derive(Clone, Debug, PartialEq, Eq)]
pub struct RegisterDeploymentResponse {
    pub id: String,
    pub services: Vec<ServiceMetadata>,
}

impl RegisterDeploymentResponse {
    pub fn new(id: String, services: Vec<ServiceMetadata>) -> (r: RegisterDeploymentResponse)
        ensures
            r == (RegisterDeploymentResponse { id, services }),
    {
        RegisterDeploymentResponse { id, services }
    }
}

#[derive(Clone, Debug, PartialEq, Eq)]
pub struct ServiceNameRevPair {
    pub name: String,
    pub revision: i32,
}

impl ServiceNameRevPair {
    pub fn new(name: String, revision: i32) -> (r: ServiceNameRevPair)
        ensures
            r == (ServiceNameRevPair { name, revision }),
    {
        ServiceNameRevPair { name, revision }
    }
}

} // verus!
