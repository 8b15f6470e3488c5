use restate_sdk::openapi::{
    DeletionMode, DeploymentResponseAnyOf, DetailedDeploymentResponse, ErrorDescriptionResponse,
    HandlerMetadataType, ListDeploymentsResponse, ListServiceHandlersResponse, ListSubscriptionsResponse,
    ModifyServiceRequest, ProtocolType, RegisterDeploymentRequestAnyOf, RegisterDeploymentResponse,
    ServiceNameRevPair, ServiceType, TerminationMode,
};

#[test]
fn model_constructors_leave_optional_fields_unset() {
    let d = DeploymentResponseAnyOf::new(
        "http://x".to_string(),
        ProtocolType::BidiStream,
        "HTTP/2.0".to_string(),
        "now".to_string(),
        1,
        2,
    );
    assert_eq!(d.additional_headers, None);
    assert_eq!(d.max_protocol_version, 2);
    let d = DetailedDeploymentResponse::new(
        "dp_1".to_string(),
        vec![],
        "http://x".to_string(),
        ProtocolType::RequestResponse,
        "now".to_string(),
        1,
        2,
        "arn".to_string(),
    );
    assert_eq!(d.assume_role_arn, None);
    assert_eq!(d.arn, "arn");
    assert_eq!(ErrorDescriptionResponse::new("m".to_string()).restate_code, None);
    assert!(ListDeploymentsResponse::new(vec![]).deployments.is_empty());
    assert!(ListServiceHandlersResponse::new(vec![]).handlers.is_empty());
    assert!(ListSubscriptionsResponse::new(vec![]).subscriptions.is_empty());
    let m = ModifyServiceRequest::new();
    assert_eq!((m.public, m.idempotency_retention, m.workflow_completion_retention), (None, None, None));
    let r = RegisterDeploymentRequestAnyOf::new("u".to_string());
    assert_eq!((r.use_http_11, r.force, r.dry_run), (None, None, None));
    assert_eq!(RegisterDeploymentResponse::new("id".to_string(), vec![]).id, "id");
    let p = ServiceNameRevPair::new("svc".to_string(), 3);
    assert_eq!((p.name.as_str(), p.revision), ("svc", 3));
}

#[test]
fn model_enums_display_and_default() {
    assert_eq!(DeletionMode::default(), DeletionMode::Cancel);
    assert_eq!(DeletionMode::Purge.to_display_string(), "Purge");
    assert_eq!(HandlerMetadataType::default(), HandlerMetadataType::Exclusive);
    assert_eq!(HandlerMetadataType::Shared.to_display_string(), "Shared");
    assert_eq!(ServiceType::default(), ServiceType::Service);
    assert_eq!(ServiceType::VirtualObject.to_display_string(), "VirtualObject");
    assert_eq!(TerminationMode::default(), TerminationMode::Cancel);
    assert_eq!(TerminationMode::Kill.to_display_string(), "Kill");
}
