use hatena_publish::model::Env;
use hatena_publish::publish::build_request;
use hatena_publish::publish::endpoint_url;
use hatena_publish::publish::publish_outcome;
use hatena_publish::publish::PublishError;
use hatena_publish::publish::PublishResult;
use hatena_publish::publish::TransportEvent;

#[test]
fn endpoint_url_interpolates_identity_and_blog() {
    assert_eq!(
        endpoint_url("u1", "b1"),
        "https://blog.hatena.ne.jp/u1/b1/atom/entry"
    );
}

#[test]
fn build_request_carries_credentials_and_document() {
    let env = Env {
        hatena_id: "u1".to_string(),
        password: "p".to_string(),
        blog_id: "b1".to_string(),
    };
    let req = build_request("<doc />".to_string(), &env);
    assert_eq!(req.url, "https://blog.hatena.ne.jp/u1/b1/atom/entry");
    assert_eq!(req.username, "u1");
    assert_eq!(req.secret, "p");
    assert_eq!(req.content_type, "application/xml");
    assert_eq!(req.body, "<doc />");
    assert!(!req.body.contains("u1") && !req.body.contains("p"));
}

#[test]
fn success_status_gives_publish_result() {
    let event = TransportEvent::Response {
        status: 201,
        body: "created".to_string(),
    };
    match publish_outcome(event) {
        Ok(PublishResult { status, body }) => {
            assert_eq!(status, 201);
            assert_eq!(body, "created");
        }
        Err(_) => panic!("a 2xx response must be a success"),
    }
}

#[test]
fn non_success_status_is_an_error_with_the_body() {
    let event = TransportEvent::Response {
        status: 404,
        body: "missing".to_string(),
    };
    match publish_outcome(event) {
        Err(PublishError::Http { status, body }) => {
            assert_eq!(status, 404);
            assert_eq!(body, "missing");
        }
        _ => panic!("a non-2xx response must be an http error"),
    }
}

#[test]
fn transport_failure_aborts_with_an_error() {
    let event = TransportEvent::Failure {
        message: "connection reset".to_string(),
    };
    match publish_outcome(event) {
        Err(PublishError::Transport { message }) => {
            assert_eq!(message, "connection reset");
        }
        _ => panic!("a transport failure must abort the run"),
    }
}

#[test]
fn success_range_boundaries() {
    let response = |status: u16| TransportEvent::Response {
        status,
        body: String::new(),
    };
    assert!(matches!(publish_outcome(response(200)), Ok(_)));
    assert!(matches!(publish_outcome(response(299)), Ok(_)));
    assert!(matches!(publish_outcome(response(199)), Err(_)));
    assert!(matches!(publish_outcome(response(300)), Err(_)));
    assert!(matches!(publish_outcome(response(500)), Err(_)));
}
