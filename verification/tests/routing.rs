//! Path construction, registration, and the verb policy.

use connect_core::router::{build_method_path, to_pascal_case, MethodDescriptor, MethodRegistry};
use connect_core::{Code, Method};

fn descriptor(method_name: &str, idempotent: bool) -> MethodDescriptor {
    MethodDescriptor {
        service_package: "greet".to_string(),
        version: "v1".to_string(),
        service_name: "GreetService".to_string(),
        method_name: method_name.to_string(),
        idempotent,
    }
}

#[test]
fn pascal_case_of_snake_case_names() {
    assert_eq!(to_pascal_case("greet"), "Greet");
    assert_eq!(to_pascal_case("get_user"), "GetUser");
    assert_eq!(to_pascal_case("a_b_c"), "ABC");
    assert_eq!(to_pascal_case(""), "");
    assert_eq!(to_pascal_case("_x"), "X");
    assert_eq!(to_pascal_case("foo__bar"), "FooBar");
    assert_eq!(to_pascal_case("already"), "Already");
}

#[test]
fn method_path_from_static_identifiers() {
    let d = descriptor("get_user", true);
    assert_eq!(build_method_path(&d), "/greet.v1.GreetService/GetUser");
}

#[test]
fn registration_appends_routes() {
    let mut reg = MethodRegistry::new();
    assert_eq!(reg.len(), 0);
    reg.register(descriptor("greet", false)).unwrap();
    reg.register(descriptor("get_user", true)).unwrap();
    assert_eq!(reg.len(), 2);
    assert_eq!(reg.route_at(0).path, "/greet.v1.GreetService/Greet");
    assert!(!reg.route_at(0).idempotent);
    assert_eq!(reg.route_at(1).path, "/greet.v1.GreetService/GetUser");
    assert!(reg.route_at(1).idempotent);
}

#[test]
fn duplicate_path_fails_at_registration_time() {
    let mut reg = MethodRegistry::new();
    reg.register(descriptor("greet", false)).unwrap();
    let e = reg.register(descriptor("greet", true)).unwrap_err();
    assert!(matches!(e.code, Code::AlreadyExists));
    assert_eq!(reg.len(), 1);
}

#[test]
fn idempotent_methods_accept_get_and_post() {
    let mut reg = MethodRegistry::new();
    reg.register(descriptor("get_user", true)).unwrap();
    let path = "/greet.v1.GreetService/GetUser";
    assert_eq!(reg.find_route(path, Method::Get).unwrap(), 0);
    assert_eq!(reg.find_route(path, Method::Post).unwrap(), 0);
}

#[test]
fn non_idempotent_methods_reject_get_but_accept_post() {
    let mut reg = MethodRegistry::new();
    reg.register(descriptor("greet", false)).unwrap();
    let path = "/greet.v1.GreetService/Greet";
    assert_eq!(reg.find_route(path, Method::Post).unwrap(), 0);
    let e = reg.find_route(path, Method::Get).unwrap_err();
    assert!(matches!(e.code, Code::InvalidArgument));
}

#[test]
fn unknown_path_is_not_found() {
    let mut reg = MethodRegistry::new();
    reg.register(descriptor("greet", false)).unwrap();
    let e = reg
        .find_route("/greet.v1.GreetService/Missing", Method::Post)
        .unwrap_err();
    assert!(matches!(e.code, Code::NotFound));
}
