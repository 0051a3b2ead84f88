use psionic::commands::{format_output, lines_of, CommandOutput};
use psionic::http::{HttpRequest, HttpRequestHeader};
use psionic::routing::{
    clone_strings, command_response, handle_command, select, ResponseFormatter, Route,
    RouteAction, RouteHandler, RouteMap, RouteOutcome,
};

fn request(path: &str) -> HttpRequest {
    let head = format!("GET {} HTTP/1.1", path);
    HttpRequest::create(HttpRequestHeader::parse_from_string(head).unwrap(), None).unwrap()
}

fn job_route(regex: &str, name: &str) -> Route {
    Route::new(regex.to_string(), RouteHandler::create_job(name.to_string(), vec![])).unwrap()
}

fn output(success: bool, stdout: &[u8]) -> CommandOutput {
    CommandOutput { success, stdout: stdout.to_vec(), stderr: vec![] }
}

fn queued(map: &RouteMap, path: &str) -> Option<String> {
    match map.handle(&request(path)) {
        Ok(RouteAction::QueueJob { command }) => Some(command.name),
        Ok(other) => panic!("{:?}", other),
        Err(e) => {
            assert_eq!(e, "Route not found");
            None
        }
    }
}

#[test]
fn expression_that_does_not_compile_is_refused() {
    let handler = RouteHandler::create_job("a".to_string(), vec![]);
    assert_eq!(Route::new("(".to_string(), handler).err(), Some("Invalid route regex"));
    let handler = RouteHandler::create_job("a".to_string(), vec![]);
    assert_eq!(Route::new("[a-".to_string(), handler).err(), Some("Invalid route regex"));
    let handler = RouteHandler::create_job("a".to_string(), vec![]);
    assert!(Route::new("".to_string(), handler).is_ok());
}

#[test]
fn route_matches_anywhere_in_the_path() {
    let route = job_route("b+c", "x");
    assert!(route.is_match(&"abbbcd".to_string()));
    assert!(route.is_match(&"bc".to_string()));
    assert!(!route.is_match(&"b".to_string()));
    assert!(!route.is_match(&"".to_string()));
    let anchored = job_route("^/info$", "x");
    assert!(anchored.is_match(&"/info".to_string()));
    assert!(!anchored.is_match(&"/info/".to_string()));
    assert!(!anchored.is_match(&"x/info".to_string()));
}

#[test]
fn last_matching_route_wins() {
    let map = RouteMap::new(vec![
        job_route("^/a", "first"),
        job_route("^/ab", "second"),
        job_route("^/abc", "third"),
        job_route("^/z", "fourth"),
    ]);
    assert_eq!(queued(&map, "/a"), Some("first".to_string()));
    assert_eq!(queued(&map, "/ab"), Some("second".to_string()));
    assert_eq!(queued(&map, "/abcd"), Some("third".to_string()));
    assert_eq!(queued(&map, "/z"), Some("fourth".to_string()));
    assert_eq!(queued(&map, "/b"), None);
    let same = RouteMap::new(vec![job_route("^/a$", "one"), job_route("^/a$", "two")]);
    assert_eq!(queued(&same, "/a"), Some("two".to_string()));
}

#[test]
fn same_path_gives_same_handler_every_time() {
    let map = RouteMap::new(vec![job_route("a", "first"), job_route("b", "second")]);
    for _ in 0..3 {
        assert_eq!(queued(&map, "/ab"), Some("second".to_string()));
        assert_eq!(queued(&map, "/a"), Some("first".to_string()));
    }
    let copy = map.clone();
    assert_eq!(queued(&copy, "/ab"), Some("second".to_string()));
    assert_eq!(copy.routes.len(), 2);
}

#[test]
fn without_routes_nothing_is_found() {
    let map = RouteMap::new(vec![]);
    assert_eq!(map.handle(&request("/")).err(), Some("Route not found"));
    assert_eq!(map.handle(&request("/anything")).err(), Some("Route not found"));
    assert_eq!(map.handle(&request("")).err(), Some("Route not found"));
}

#[test]
fn last_set_flag_is_selected() {
    assert_eq!(select(&vec![]), None);
    assert_eq!(select(&vec![false, false]), None);
    assert_eq!(select(&vec![true]), Some(0));
    assert_eq!(select(&vec![true, false]), Some(0));
    assert_eq!(select(&vec![true, false, true, false]), Some(2));
    assert_eq!(select(&vec![false, true, true]), Some(2));
}

#[test]
fn handlers_ask_for_their_actions() {
    let handler = RouteHandler::create_static("i.html".to_string(), "text/html".to_string());
    match handler.handle(&request("/")) {
        RouteAction::ReadFile { content_path, content_type } => {
            assert_eq!(content_path, "i.html");
            assert_eq!(content_type, "text/html");
        }
        other => panic!("{:?}", other),
    }
    let handler = RouteHandler::create_command(
        "echo".to_string(),
        vec!["hello".to_string(), "you".to_string()],
        ResponseFormatter::JsonLines,
    );
    match handler.clone().handle(&request("/")) {
        RouteAction::RunCommand { command_name, args, formatter } => {
            assert_eq!(command_name, "echo");
            assert_eq!(args, vec!["hello", "you"]);
            assert_eq!(formatter, ResponseFormatter::JsonLines);
        }
        other => panic!("{:?}", other),
    }
    let handler = RouteHandler::create_job("sleepy".to_string(), vec!["ignored".to_string()]);
    match handler.handle(&request("/")) {
        RouteAction::QueueJob { command } => assert_eq!(command.name, "sleepy"),
        other => panic!("{:?}", other),
    }
}

#[test]
fn file_that_was_read_is_sent() {
    let action = RouteAction::ReadFile {
        content_path: "./fixtures/index.html".to_string(),
        content_type: "text/html".to_string(),
    };
    let response = action.respond(RouteOutcome::FileRead(b"<html></html>".to_vec())).unwrap();
    assert_eq!(response.code, 200);
    assert_eq!(response.content_type, "text/html");
    assert_eq!(response.headers.get(&"Content-Type".to_string()), Some(&"text/html".to_string()));
    assert_eq!(response.headers.get(&"Content-Length".to_string()), Some(&"13".to_string()));
    assert_eq!(response.body, Some(b"<html></html>".to_vec()));
}

#[test]
fn file_that_could_not_be_read_is_an_error() {
    let action = RouteAction::ReadFile {
        content_path: "x".to_string(),
        content_type: "text/html".to_string(),
    };
    assert_eq!(action.respond(RouteOutcome::FileUnreadable).err(), Some("Error reading file."));
}

#[test]
fn output_of_command_is_sent_as_json_lines() {
    let action = RouteAction::RunCommand {
        command_name: "echo".to_string(),
        args: vec!["hello".to_string()],
        formatter: ResponseFormatter::JsonLines,
    };
    let response = action.respond(RouteOutcome::CommandRan(output(true, b"hello\n"))).unwrap();
    assert_eq!(response.code, 200);
    assert_eq!(response.content_type, "application/json");
    assert_eq!(response.body, Some(br#"["hello",""]"#.to_vec()));
}

#[test]
fn failed_command_is_answered_with_500() {
    let action = RouteAction::RunCommand {
        command_name: "false".to_string(),
        args: vec![],
        formatter: ResponseFormatter::JsonLines,
    };
    let response = action.respond(RouteOutcome::CommandRan(output(false, b"x"))).unwrap();
    assert_eq!(response.code, 500);
    assert_eq!(response.content_type, "text/plain");
    assert_eq!(response.body, Some(b"Process failed.".to_vec()));
    let response = handle_command(output(true, &[0xff, 0xfe]));
    assert_eq!(response.code, 500);
    assert_eq!(response.body, Some(b"Failed to read output.".to_vec()));
    let response = ResponseFormatter::JsonLines.format(output(true, b""));
    assert_eq!(response.code, 200);
    assert_eq!(response.body, Some(br#"[""]"#.to_vec()));
}

#[test]
fn command_that_did_not_start_is_an_error() {
    let action = RouteAction::RunCommand {
        command_name: "nope".to_string(),
        args: vec![],
        formatter: ResponseFormatter::JsonLines,
    };
    let answer = action.respond(RouteOutcome::CommandNotStarted);
    assert_eq!(answer.err(), Some("Error running command."));
}

#[test]
fn queued_job_is_answered_at_once() {
    let handler = RouteHandler::create_job("sleepy".to_string(), vec![]);
    let response = handler.handle(&request("/run")).respond(RouteOutcome::JobQueued).unwrap();
    assert_eq!(response.code, 201);
    assert_eq!(response.content_type, "text/plain");
    assert_eq!(response.body, Some(b"Job queued".to_vec()));
}

#[test]
fn outcome_of_another_action_is_an_error() {
    let job = || RouteHandler::create_job("a".to_string(), vec![]).handle(&request("/"));
    let file = || {
        RouteHandler::create_static("a".to_string(), "b".to_string()).handle(&request("/"))
    };
    let command = || {
        RouteHandler::create_command("a".to_string(), vec![], ResponseFormatter::JsonLines)
            .handle(&request("/"))
    };
    let wrong = Some("Outcome of another action.");
    assert_eq!(job().respond(RouteOutcome::FileUnreadable).err(), wrong);
    assert_eq!(job().respond(RouteOutcome::FileRead(vec![])).err(), wrong);
    assert_eq!(job().respond(RouteOutcome::CommandNotStarted).err(), wrong);
    assert_eq!(file().respond(RouteOutcome::JobQueued).err(), wrong);
    assert_eq!(file().respond(RouteOutcome::CommandRan(output(true, b""))).err(), wrong);
    assert_eq!(command().respond(RouteOutcome::JobQueued).err(), wrong);
    assert_eq!(command().respond(RouteOutcome::FileRead(vec![])).err(), wrong);
}

#[test]
fn output_is_formatted_as_json_lines() {
    assert_eq!(format_output(output(true, b"a\nb")), Ok(r#"["a","b"]"#.to_string()));
    assert_eq!(format_output(output(true, b"hello\n")), Ok(r#"["hello",""]"#.to_string()));
    assert_eq!(format_output(output(true, b"")), Ok(r#"[""]"#.to_string()));
    assert_eq!(
        format_output(output(true, b"say \"hi\"\\\tnow\r\n")),
        Ok(r#"["say \"hi\"\\\tnow\r",""]"#.to_string())
    );
    assert_eq!(format_output(output(true, "héllo".as_bytes())), Ok("[\"héllo\"]".to_string()));
    assert_eq!(format_output(output(false, b"a")), Err("Process failed."));
    assert_eq!(format_output(output(false, &[0xff])), Err("Process failed."));
    assert_eq!(format_output(output(true, &[b'a', 0xff])), Err("Failed to read output."));
    assert_eq!(format_output(output(true, &[0xc3])), Err("Failed to read output."));
}

#[test]
fn lines_are_cut_at_line_feeds() {
    assert_eq!(lines_of("a\nb\n"), vec!["a", "b", ""]);
    assert_eq!(lines_of(""), vec![""]);
    assert_eq!(lines_of("a\r\nb"), vec!["a\r", "b"]);
}

#[test]
fn text_of_output_becomes_a_response() {
    let response = command_response(Ok("[]".to_string()));
    assert_eq!(response.code, 200);
    assert_eq!(response.content_type, "application/json");
    assert_eq!(response.body, Some(b"[]".to_vec()));
    let response = command_response(Err("Process failed."));
    assert_eq!(response.code, 500);
    assert_eq!(response.content_type, "text/plain");
    assert_eq!(response.body, Some(b"Process failed.".to_vec()));
}

#[test]
fn strings_are_copied() {
    let items = vec!["a".to_string(), "".to_string(), "ü".to_string()];
    assert_eq!(clone_strings(&items), items);
    assert_eq!(clone_strings(&vec![]), Vec::<String>::new());
}

#[test]
fn every_character_is_written_as_json_has_it() {
    let mut characters: Vec<char> = (0u32..0x100).filter_map(char::from_u32).collect();
    characters.extend(['\u{2028}', '\u{4e2d}', '\u{1f600}', '\u{fffd}', '\u{7ff}', '\u{10ffff}']);
    for c in characters {
        if c == '\n' {
            continue;
        }
        let escaped = match c {
            '"' => "\\\"".to_string(),
            '\\' => "\\\\".to_string(),
            '\u{8}' => "\\b".to_string(),
            '\t' => "\\t".to_string(),
            '\u{c}' => "\\f".to_string(),
            '\r' => "\\r".to_string(),
            c if (c as u32) < 0x20 => format!("\\u{:04x}", c as u32),
            c => c.to_string(),
        };
        let text = format!("a{}b\n{}", c, c);
        let expected = format!("[\"a{}b\",\"{}\"]", escaped, escaped);
        assert_eq!(format_output(output(true, text.as_bytes())), Ok(expected), "{:?}", c);
    }
}
