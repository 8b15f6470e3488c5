use restate_sdk::endpoint::{attribute_path_matches, invoke_path, route, Route};

fn handlers() -> Vec<(String, String)> {
    vec![
        ("Greeter".to_string(), "greet".to_string()),
        ("Counter".to_string(), "add".to_string()),
    ]
}

#[test]
fn routes_of_the_endpoint() {
    assert_eq!(route(true, &"/discover".to_string(), &handlers()), Route::Discover);
    assert_eq!(route(true, &"/invoke/Counter/add".to_string(), &handlers()), Route::Invoke(1));
    assert_eq!(route(true, &"/invoke/Greeter/greet".to_string(), &handlers()), Route::Invoke(0));
    assert_eq!(route(true, &"/invoke/Counter/sub".to_string(), &handlers()), Route::NotFound);
    assert_eq!(route(false, &"/discover".to_string(), &handlers()), Route::NotFound);
}

#[test]
fn first_matching_handler_wins() {
    let mut hs = handlers();
    hs.push(("Greeter".to_string(), "greet".to_string()));
    assert_eq!(route(true, &"/invoke/Greeter/greet".to_string(), &hs), Route::Invoke(0));
}

#[test]
fn invoke_paths() {
    assert_eq!(invoke_path(&"Svc".to_string(), &"run".to_string()), "/invoke/Svc/run");
}

#[test]
fn attribute_paths() {
    let segments = vec!["restate".to_string(), "handler".to_string()];
    assert!(attribute_path_matches(&segments, &"restate::handler".to_string()));
    assert!(!attribute_path_matches(&segments, &"restate::service".to_string()));
    assert!(attribute_path_matches(&vec![], &String::new()));
}
