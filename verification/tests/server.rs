use psionic::logging::{LogItem, LogItemType};
use psionic::routing::{Route, RouteAction, RouteHandler, RouteMap, RouteOutcome};
use psionic::server::{
    finish_connection, handle_400, handle_404, handle_500, handle_connection, handle_request,
    parse_request, ConnectionContext, ConnectionStep,
};

fn buffer_of(bytes: &[u8]) -> [u8; 4096] {
    let mut buffer = [0u8; 4096];
    buffer[..bytes.len()].copy_from_slice(bytes);
    buffer
}

fn context() -> ConnectionContext {
    ConnectionContext::with_ids(1, 0xa1a2a3a4b1b2c1c2d1d2d3d4d5d6d7d8, "127.0.0.1".to_string())
}

fn routes() -> RouteMap {
    RouteMap::new(vec![
        Route::new(
            "^/$".to_string(),
            RouteHandler::create_static("./fixtures/index.html".to_string(), "text/html".to_string()),
        )
        .unwrap(),
        Route::new("^/x$".to_string(), RouteHandler::create_job("missing".to_string(), vec![]))
            .unwrap(),
    ])
}

fn texts(log: &[LogItem]) -> Vec<(LogItemType, &str, &str)> {
    log.iter().map(|item| (item.item_type, item.from.as_str(), item.message.as_str())).collect()
}

#[test]
fn context_carries_slug_of_six_characters() {
    let context = context();
    assert_eq!(context.id, 1);
    assert_eq!(context.slug, "a1a2a3");
    assert_eq!(context.from, "127.0.0.1");
    let fresh = ConnectionContext::new("10.0.0.1".to_string());
    assert_eq!(fresh.slug.len(), 6);
    assert!(fresh.slug.chars().all(|c| c.is_ascii_hexdigit() && !c.is_ascii_uppercase()));
    assert_eq!(fresh.from, "10.0.0.1");
    assert_eq!((fresh.id >> 76) & 0xf, 4);
    let other = ConnectionContext::new("10.0.0.1".to_string());
    assert_ne!(fresh.id, other.id);
}

#[test]
fn error_responses() {
    let mut response = handle_500();
    assert_eq!(response.code, 500);
    assert_eq!(response.content_type, "application/json");
    assert_eq!(response.body, Some(br#"{"message":"Server error"}"#.to_vec()));
    assert!(response.to_bytes().starts_with(b"HTTP/1.1 500 Internal Error\r\n"));
    let response = handle_400();
    assert_eq!(response.code, 400);
    assert_eq!(response.content_type, "application/json");
    assert_eq!(response.body, Some(br#"{"message":"Bad request"}"#.to_vec()));
    let response = handle_404();
    assert_eq!(response.code, 404);
    assert_eq!(response.body, Some(br#"{"message":"Not found"}"#.to_vec()));
}

#[test]
fn static_hit() {
    let plan = handle_connection(buffer_of(b"GET / HTTP/1.1\r\n\r\n"), &context(), &routes());
    assert_eq!(
        texts(&plan.log),
        vec![
            (LogItemType::Information, "a1a2a3 connection-handler", "Connection received"),
            (LogItemType::Information, "a1a2a3 request-handler", "Handling request for /"),
        ]
    );
    let action = match plan.step {
        ConnectionStep::Perform(action) => action,
        other => panic!("{:?}", other),
    };
    assert!(matches!(&action, RouteAction::ReadFile { content_path, .. } if content_path == "./fixtures/index.html"));
    let file = b"<h1>index</h1>".to_vec();
    let (mut response, log) =
        finish_connection(&context(), action, RouteOutcome::FileRead(file.clone()));
    assert!(log.is_none());
    assert_eq!(response.code, 200);
    assert_eq!(response.headers.get(&"Content-Type".to_string()), Some(&"text/html".to_string()));
    assert_eq!(response.body, Some(file));
    let expected = "HTTP/1.1 200 OK\r\nServer: Psionic 0.0.1\r\nContent-Length: 14\r\n\
                    Connection: Closed\r\nContent-Type: text/html\r\n\r\n<h1>index</h1>";
    assert_eq!(response.to_bytes(), expected.as_bytes().to_vec());
}

#[test]
fn missing_route_is_answered_with_500() {
    let empty = RouteMap::new(vec![]);
    let plan = handle_connection(buffer_of(b"GET /anything HTTP/1.1\r\n\r\n"), &context(), &empty);
    match plan.step {
        ConnectionStep::Respond(response) => {
            assert_eq!(response.code, 500);
            assert_eq!(response.body, Some(br#"{"message":"Server error"}"#.to_vec()));
        }
        other => panic!("{:?}", other),
    }
    assert_eq!(
        texts(&plan.log),
        vec![
            (LogItemType::Information, "a1a2a3 connection-handler", "Connection received"),
            (LogItemType::Information, "a1a2a3 request-handler", "Handling request for /anything"),
            (
                LogItemType::Error,
                "a1a2a3 connection-handler",
                "Error in response handler: Route not found"
            ),
        ]
    );
}

#[test]
fn bad_request_is_answered_with_400() {
    let plan = handle_connection(buffer_of(b"BOGUS / HTTP/1.1\r\n\r\n"), &context(), &routes());
    match plan.step {
        ConnectionStep::Respond(response) => {
            assert_eq!(response.code, 400);
            assert_eq!(response.body, Some(br#"{"message":"Bad request"}"#.to_vec()));
        }
        other => panic!("{:?}", other),
    }
    assert_eq!(
        texts(&plan.log),
        vec![
            (LogItemType::Information, "a1a2a3 connection-handler", "Connection received"),
            (
                LogItemType::Error,
                "a1a2a3 connection-handler",
                "Error parsing http request: Unknown http verb"
            ),
        ]
    );
}

#[test]
fn oversized_head_is_answered_with_400() {
    let mut buffer = [b'a'; 4096];
    buffer[..15].copy_from_slice(b"GET / HTTP/1.1\r");
    buffer[15] = b'\n';
    let plan = handle_connection(buffer, &context(), &routes());
    match plan.step {
        ConnectionStep::Respond(response) => assert_eq!(response.code, 400),
        other => panic!("{:?}", other),
    }
    assert_eq!(
        plan.log[1].message,
        "Error parsing http request: Request header larger than buffer"
    );
    assert_eq!(parse_request(buffer).err(), Some("Request header larger than buffer"));
}

#[test]
fn job_route_is_answered_with_201() {
    let plan = handle_connection(buffer_of(b"GET /x HTTP/1.1\r\n\r\n"), &context(), &routes());
    let action = match plan.step {
        ConnectionStep::Perform(action) => action,
        other => panic!("{:?}", other),
    };
    assert!(matches!(&action, RouteAction::QueueJob { command } if command.name == "missing"));
    let (response, log) = finish_connection(&context(), action, RouteOutcome::JobQueued);
    assert!(log.is_none());
    assert_eq!(response.code, 201);
    assert_eq!(response.content_type, "text/plain");
    assert_eq!(response.body, Some(b"Job queued".to_vec()));
}

#[test]
fn failed_action_is_answered_with_500() {
    let plan = handle_connection(buffer_of(b"GET / HTTP/1.1\r\n\r\n"), &context(), &routes());
    let action = match plan.step {
        ConnectionStep::Perform(action) => action,
        other => panic!("{:?}", other),
    };
    let (response, log) = finish_connection(&context(), action, RouteOutcome::FileUnreadable);
    assert_eq!(response.code, 500);
    assert_eq!(response.body, Some(br#"{"message":"Server error"}"#.to_vec()));
    let log = log.unwrap();
    assert_eq!(log.item_type, LogItemType::Error);
    assert_eq!(log.from, "a1a2a3 connection-handler");
    assert_eq!(log.message, "Error in response handler: Error reading file.");
}

#[test]
fn request_is_handed_to_the_routes() {
    let request = parse_request(buffer_of(b"GET /x HTTP/1.1\r\n\r\n")).unwrap();
    let (log, action) = handle_request(&request, &context(), &routes());
    assert_eq!(log.from, "a1a2a3 request-handler");
    assert_eq!(log.message, "Handling request for /x");
    assert!(matches!(action, Ok(RouteAction::QueueJob { .. })));
    let request = parse_request(buffer_of(b"GET /y HTTP/1.1\r\n\r\n")).unwrap();
    let (_, action) = handle_request(&request, &context(), &routes());
    assert_eq!(action.err(), Some("Route not found"));
}
