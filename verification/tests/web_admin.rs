use kitu::error::KituError;
use kitu::web_admin::{Request, Response, WebAdminServer};

#[test]
fn registering_route_and_handling_request() {
    let mut server = WebAdminServer::default();
    server.register_route("/health", |_req| {
        Ok(Response {
            status: 200,
            body: "ok".into(),
        })
    });
    server.start();
    let response = server
        .handle(Request {
            path: "/health".into(),
        })
        .unwrap();
    assert_eq!(response.status, 200);
    assert_eq!(response.body, "ok");
}

#[test]
fn handling_missing_route_errors() {
    let mut server = WebAdminServer::default();
    server.start();
    let result = server.handle(Request {
        path: "/unknown".into(),
    });
    assert!(matches!(
        result,
        Err(KituError::InvalidInput("missing route"))
    ));
}

#[test]
fn a_server_that_is_not_running_answers_nothing() {
    let mut server = WebAdminServer::default();
    server.register_route("/health", |_req| Ok(Response { status: 200, body: "ok".into() }));
    assert!(!server.is_running());
    assert_eq!(
        server.handle(Request { path: "/health".into() }),
        Err(KituError::NotImplemented("server not started".to_string()))
    );
    assert_eq!(
        server.handle(Request { path: "/unknown".into() }),
        Err(KituError::NotImplemented("server not started".to_string()))
    );
    server.start();
    assert!(server.is_running());
    assert!(server.handle(Request { path: "/health".into() }).is_ok());
    server.stop();
    assert!(!server.is_running());
    assert!(server.handle(Request { path: "/health".into() }).is_err());
}

#[test]
fn the_handler_of_the_path_answers_and_its_failure_is_returned() {
    let mut server = WebAdminServer::default();
    server.register_route("/echo", |req: &Request| {
        Ok(Response { status: 201, body: req.path.clone() })
    });
    server.register_route("/fail", |_req| Err(KituError::InvalidInput("no")));
    server.start();
    assert_eq!(
        server.handle(Request { path: "/echo".into() }),
        Ok(Response { status: 201, body: "/echo".to_string() })
    );
    assert_eq!(
        server.handle(Request { path: "/fail".into() }),
        Err(KituError::InvalidInput("no"))
    );
    server.register_route("/fail", |_req| Ok(Response { status: 204, body: String::new() }));
    assert_eq!(
        server.handle(Request { path: "/fail".into() }),
        Ok(Response { status: 204, body: String::new() })
    );
}
