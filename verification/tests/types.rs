use restate_sdk::types::{
    Header, InvocationTarget, InvocationTargetType, ServiceId, ServiceType, VirtualObjectHandlerType,
    WithPartitionKey, WorkflowHandlerType,
};

#[test]
fn service_type_keys_and_state() {
    assert!(!ServiceType::Service.is_keyed());
    assert!(ServiceType::VirtualObject.is_keyed());
    assert!(ServiceType::Workflow.has_state());
    assert!(!ServiceType::Service.has_state());
}

#[test]
fn invocation_target_type_state_access() {
    let exclusive = InvocationTargetType::VirtualObject(VirtualObjectHandlerType::Exclusive);
    let shared = InvocationTargetType::VirtualObject(VirtualObjectHandlerType::Shared);
    let wf = InvocationTargetType::Workflow(WorkflowHandlerType::Workflow);
    let wf_shared = InvocationTargetType::Workflow(WorkflowHandlerType::Shared);
    assert!(!InvocationTargetType::Service.is_keyed());
    assert!(!InvocationTargetType::Service.can_read_state());
    assert!(shared.can_read_state() && !shared.can_write_state());
    assert!(exclusive.can_write_state());
    assert!(wf.can_write_state() && !wf_shared.can_write_state());
    assert_eq!(ServiceType::from(wf), ServiceType::Workflow);
    assert_eq!(exclusive.to_display_string(), "VirtualObject(Exclusive)");
}

#[test]
fn targets_display_and_keys() {
    let t = InvocationTarget::virtual_object(
        "Counter".to_string(),
        "k1".to_string(),
        "add".to_string(),
        VirtualObjectHandlerType::Exclusive,
    );
    assert_eq!(t.to_display_string(), "Counter/k1/add");
    assert_eq!(t.key(), Some(&"k1".to_string()));
    let id = t.as_keyed_service_id().unwrap();
    assert_eq!(id.partition_key(), 0);
    let s = InvocationTarget::service("Greeter".to_string(), "greet".to_string());
    assert_eq!(s.to_display_string(), "Greeter/greet");
    assert!(s.as_keyed_service_id().is_none());
    assert_eq!(s.invocation_target_ty(), InvocationTargetType::Service);
}

#[test]
fn service_id_and_header() {
    let id = ServiceId::with_partition_key(7, "Svc".to_string(), "key".to_string());
    assert_eq!(id.partition_key(), 7);
    assert_eq!(ServiceId::new("Svc".to_string(), "key".to_string()).partition_key(), 0);
    assert_eq!(Header::new("a".to_string(), "b".to_string()).to_display_string(), "a: b");
}
