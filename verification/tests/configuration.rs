use psionic::configuration::{
    create_action, create_job_config, create_route_from_value, create_route_map, get_string,
    load_config, load_jobs_config, strip_bom, ActionType, Configuration, JobsConfiguration,
};
use psionic::http::HttpRequest;
use psionic::http::HttpRequestHeader;
use psionic::json::{Json, Member};
use psionic::routing::{ResponseFormatter, RouteAction, RouteHandler};

fn json(text: &str) -> Json {
    Json::parse(text).unwrap()
}

fn request(path: &str) -> HttpRequest {
    let head = format!("GET {} HTTP/1.1", path);
    HttpRequest::create(HttpRequestHeader::parse_from_string(head).unwrap(), None).unwrap()
}

#[test]
fn json_text_is_parsed() {
    match json(r#"{"a": [1, "two", null, true, 2.5, {"b": -3}], "c": "d"}"#) {
        Json::Object(members) => {
            assert_eq!(members.len(), 2);
            assert_eq!(members[0].name, "a");
            assert_eq!(members[1].name, "c");
            match &members[0].value {
                Json::Array(items) => {
                    assert_eq!(items.len(), 6);
                    assert!(matches!(items[0], Json::Integer(1)));
                    assert!(matches!(&items[1], Json::Text(t) if t == "two"));
                    assert!(matches!(items[2], Json::Null));
                    assert!(matches!(items[3], Json::Bool(true)));
                    assert!(matches!(items[4], Json::Decimal));
                    assert!(matches!(&items[5], Json::Object(m) if m.len() == 1));
                }
                other => panic!("{:?}", other),
            }
            assert!(matches!(&members[1].value, Json::Text(t) if t == "d"));
        }
        other => panic!("{:?}", other),
    }
}

#[test]
fn text_that_is_no_json_is_refused() {
    assert!(Json::parse("").is_none());
    assert!(Json::parse("{").is_none());
    assert!(Json::parse("{\"a\": }").is_none());
    assert!(Json::parse("\u{feff}{}").is_none());
    assert!(Json::parse("{} x").is_none());
    assert!(Json::parse(" {} ").is_some());
}

#[test]
fn json_numbers_are_kept_where_they_fit() {
    assert_eq!(json("9223372036854775807").as_i64(), Some(i64::MAX));
    assert_eq!(json("-9223372036854775808").as_i64(), Some(i64::MIN));
    assert_eq!(json("9223372036854775808").as_i64(), None);
    assert_eq!(json("1.0").as_i64(), None);
    assert_eq!(json("\"1\"").as_i64(), None);
    assert_eq!(json("0").as_i64(), Some(0));
}

#[test]
fn json_members_are_found_by_name() {
    let value = json(r#"{"name": "n", "args": ["a", 1, "b"], "name2": null}"#);
    assert!(value.is_object());
    assert_eq!(value.get("name").map(get_string), Some("n".to_string()));
    assert!(value.get("nam").is_none());
    assert!(value.get("").is_none());
    assert!(matches!(value.get("name2"), Some(Json::Null)));
    assert_eq!(value.get("args").unwrap().texts(), vec!["a", "", "b"]);
    assert_eq!(value.get("args").unwrap().as_array().unwrap().len(), 3);
    assert_eq!(value.get("name").unwrap().texts(), Vec::<String>::new());
    assert!(value.get("name").unwrap().as_array().is_none());
    assert!(!value.get("name").unwrap().is_object());
    assert!(json("[1]").get("0").is_none());
    assert_eq!(get_string(&json("5")), "");
    assert_eq!(json("\"x\"").text(), "x");
}

#[test]
fn first_member_of_a_name_is_the_one_found() {
    let value = Json::Object(vec![
        Member { name: "a".to_string(), value: Json::Integer(1) },
        Member { name: "b".to_string(), value: Json::Integer(2) },
        Member { name: "a".to_string(), value: Json::Integer(3) },
    ]);
    assert_eq!(value.get("a").unwrap().as_i64(), Some(1));
    assert_eq!(value.get("b").unwrap().as_i64(), Some(2));
}

#[test]
fn byte_order_marks_are_stripped() {
    assert_eq!(strip_bom("\u{feff}{}"), "{}");
    assert_eq!(strip_bom("\u{feff}\u{feff}{}"), "{}");
    assert_eq!(strip_bom("{}\u{feff}"), "{}\u{feff}");
    assert_eq!(strip_bom(""), "");
    assert_eq!(strip_bom("\u{feff}"), "");
}

#[test]
fn command_action_is_read() {
    let action = create_action(&json(
        r#"{"type": "command", "command_name": "echo", "args": ["a", "b"]}"#,
    ));
    match action.unwrap() {
        ActionType::Command(c) => {
            assert_eq!(c.command_name, "echo");
            assert_eq!(c.args, vec!["a", "b"]);
        }
        other => panic!("{:?}", other),
    }
    let action = create_action(&json(r#"{"type": "command", "command_name": 5, "args": 7}"#));
    match action.unwrap() {
        ActionType::Command(c) => {
            assert_eq!(c.command_name, "");
            assert_eq!(c.args, Vec::<String>::new());
        }
        other => panic!("{:?}", other),
    }
}

#[test]
fn test_action_is_read() {
    match create_action(&json(r#"{"type": "test", "wait_time": 50}"#)).unwrap() {
        ActionType::Test(t) => assert_eq!(t.wait_time, 50),
        other => panic!("{:?}", other),
    }
    match create_action(&json(r#"{"type": "test", "wait_time": -50, "name": "n"}"#)).unwrap() {
        ActionType::Test(t) => assert_eq!(t.wait_time, -50),
        other => panic!("{:?}", other),
    }
    match create_action(&json(r#"{"type": "test", "wait_time": 0}"#)).unwrap() {
        ActionType::Test(t) => assert_eq!(t.wait_time, 0),
        other => panic!("{:?}", other),
    }
}

#[test]
fn actions_are_made_from_their_parts() {
    match ActionType::create_command("ls".to_string(), vec!["-l".to_string()]) {
        ActionType::Command(c) => {
            assert_eq!(c.command_name, "ls");
            assert_eq!(c.args, vec!["-l"]);
        }
        other => panic!("{:?}", other),
    }
    match ActionType::create_test(-7) {
        ActionType::Test(t) => assert_eq!(t.wait_time, -7),
        other => panic!("{:?}", other),
    }
}

#[test]
fn action_errors() {
    let error = |text: &str| create_action(&json(text)).err();
    assert_eq!(error("[]"), Some("Action value is not and object"));
    assert_eq!(error("1"), Some("Action value is not and object"));
    assert_eq!(error("{}"), Some("Missing type value"));
    assert_eq!(error(r#"{"type": "other"}"#), Some("Unknown job type."));
    assert_eq!(error(r#"{"type": 5}"#), Some("Unknown job type."));
    assert_eq!(error(r#"{"type": "command"}"#), Some("Missing command name"));
    assert_eq!(error(r#"{"type": "command", "args": []}"#), Some("Missing command name"));
    assert_eq!(error(r#"{"type": "command", "command_name": "x"}"#), Some("Missing args"));
    assert_eq!(error(r#"{"type": "test"}"#), Some("Missing wait time value."));
    assert_eq!(error(r#"{"type": "test", "wait_time": "5"}"#), Some("Test wait time is not i64."));
    assert_eq!(error(r#"{"type": "test", "wait_time": 1.5}"#), Some("Test wait time is not i64."));
    assert_eq!(
        error(r#"{"type": "test", "wait_time": 9223372036854775808}"#),
        Some("Test wait time is not i64.")
    );
}

#[test]
fn job_is_read() {
    let job = create_job_config(&json(
        r#"{"name": "sleepy", "actions": [{"type": "test", "wait_time": 50},
            {"type": "command", "command_name": "echo", "args": ["x"]}]}"#,
    ))
    .unwrap();
    assert_eq!(job.name, "sleepy");
    assert_eq!(job.actions.len(), 2);
    assert!(matches!(&job.actions[0], ActionType::Test(t) if t.wait_time == 50));
    assert!(matches!(&job.actions[1], ActionType::Command(c) if c.command_name == "echo"));
}

#[test]
fn job_errors() {
    let error = |text: &str| create_job_config(&json(text)).err();
    assert_eq!(error("[]"), Some("Job value is not and object"));
    assert_eq!(error("{}"), Some("Missing name value"));
    assert_eq!(error(r#"{"actions": []}"#), Some("Missing name value"));
    assert_eq!(error(r#"{"name": "x"}"#), Some("Missing type value"));
    assert_eq!(error(r#"{"name": "x", "actions": {}}"#), Some("Actions value is not an array."));
    assert_eq!(
        error(r#"{"name": "x", "actions": [{"type": "test", "wait_time": 1}, {"type": "no"}, 5]}"#),
        Some("Unknown job type.")
    );
    assert_eq!(
        error(r#"{"name": "x", "actions": [5, {"type": "no"}]}"#),
        Some("Action value is not and object")
    );
}

#[test]
fn jobs_document_is_loaded() {
    let text = "\u{feff}{\"jobs\": [
        {\"name\": \"a\", \"actions\": []},
        {\"name\": \"b\", \"actions\": [{\"type\": \"test\", \"wait_time\": 1}]},
        {\"name\": \"a\", \"actions\": [{\"type\": \"test\", \"wait_time\": 2}]}
    ]}";
    let jobs = load_jobs_config(text).unwrap();
    assert_eq!(jobs.len(), 2);
    let a = jobs.get_job("a").unwrap();
    assert_eq!(a.name, "a");
    assert!(matches!(&a.actions[..], [ActionType::Test(t)] if t.wait_time == 2));
    let b = jobs.get_job("b").unwrap();
    assert!(matches!(&b.actions[..], [ActionType::Test(t)] if t.wait_time == 1));
    assert!(jobs.get_job("c").is_none());
    assert!(jobs.get_job("").is_none());
    assert!(JobsConfiguration::load(text).is_ok());
}

#[test]
fn jobs_document_errors() {
    let error = |text: &str| load_jobs_config(text).err();
    assert_eq!(error("not json"), Some("Error parsing config"));
    assert_eq!(error(""), Some("Error parsing config"));
    assert_eq!(error("{}"), Some("Jobs value not found."));
    assert_eq!(error("[]"), Some("Jobs value not found."));
    assert_eq!(error(r#"{"jobs": {}}"#), Some("Jobs value is not an array."));
    assert_eq!(error(r#"{"jobs": [{"name": "a", "actions": []}, 7]}"#), Some("Job value is not and object"));
    assert_eq!(
        error(r#"{"jobs": [{"name": "a", "actions": [{"type": "test"}]}]}"#),
        Some("Missing wait time value.")
    );
    assert_eq!(load_jobs_config(r#"{"jobs": []}"#).unwrap().len(), 0);
}

#[test]
fn jobs_table_replaces_job_of_same_name() {
    let mut jobs = JobsConfiguration::new();
    assert_eq!(jobs.len(), 0);
    jobs.insert(create_job_config(&json(r#"{"name": "a", "actions": []}"#)).unwrap());
    jobs.insert(create_job_config(&json(r#"{"name": "b", "actions": []}"#)).unwrap());
    jobs.insert(
        create_job_config(&json(r#"{"name": "a", "actions": [{"type": "test", "wait_time": 3}]}"#))
            .unwrap(),
    );
    assert_eq!(jobs.len(), 2);
    assert_eq!(jobs.get_job("a").unwrap().actions.len(), 1);
    assert_eq!(jobs.get_job("b").unwrap().actions.len(), 0);
}

#[test]
fn static_route_is_read() {
    let route = create_route_from_value(&json(
        r#"{"regex": "^/$", "type": "static", "content_path": "./fixtures/index.html",
            "content_type": "text/html"}"#,
    ))
    .unwrap();
    assert!(route.is_match(&"/".to_string()));
    assert!(!route.is_match(&"/x".to_string()));
    match route.handler() {
        RouteHandler::Static(s) => {
            assert_eq!(s.content_path, "./fixtures/index.html");
            assert_eq!(s.content_type, "text/html");
        }
        other => panic!("{:?}", other),
    }
}

#[test]
fn command_and_job_routes_are_read() {
    let route = create_route_from_value(&json(
        r#"{"regex": "^/info$", "type": "command", "command_name": "echo", "args": ["hello"]}"#,
    ))
    .unwrap();
    match route.handler() {
        RouteHandler::Command(c) => {
            assert_eq!(c.command_name, "echo");
            assert_eq!(c.args, vec!["hello"]);
            assert_eq!(c.response_handler, ResponseFormatter::JsonLines);
        }
        other => panic!("{:?}", other),
    }
    let route = create_route_from_value(&json(
        r#"{"regex": "^/run$", "type": "job", "name": "sleepy", "args": ["x", 1]}"#,
    ))
    .unwrap();
    match route.handler() {
        RouteHandler::Job(j) => {
            assert_eq!(j.name, "sleepy");
            assert_eq!(j.args, vec!["x", ""]);
        }
        other => panic!("{:?}", other),
    }
}

#[test]
fn route_errors() {
    let error = |text: &str| create_route_from_value(&json(text)).err();
    assert_eq!(error("5"), Some("Json value is not a object."));
    assert_eq!(error("{}"), Some("Missing route regex"));
    assert_eq!(error(r#"{"type": "static"}"#), Some("Missing route regex"));
    assert_eq!(error(r#"{"regex": "^/$"}"#), Some("Missing route type"));
    assert_eq!(error(r#"{"regex": "^/$", "type": "other"}"#), Some("Unknown route type"));
    assert_eq!(error(r#"{"regex": "^/$", "type": 1}"#), Some("Unknown route type"));
    assert_eq!(error(r#"{"regex": "^/$", "type": "static"}"#), Some("Missing content path"));
    assert_eq!(
        error(r#"{"regex": "^/$", "type": "static", "content_type": "a"}"#),
        Some("Missing content path")
    );
    assert_eq!(
        error(r#"{"regex": "^/$", "type": "static", "content_path": "a"}"#),
        Some("Missing content type")
    );
    assert_eq!(error(r#"{"regex": "^/$", "type": "command"}"#), Some("Missing command name"));
    assert_eq!(
        error(r#"{"regex": "^/$", "type": "command", "command_name": "a"}"#),
        Some("Missing args")
    );
    assert_eq!(error(r#"{"regex": "^/$", "type": "job"}"#), Some("Missing command name"));
    assert_eq!(error(r#"{"regex": "^/$", "type": "job", "name": "a"}"#), Some("Missing args"));
    assert_eq!(
        error(r#"{"regex": "(", "type": "job", "name": "a", "args": []}"#),
        Some("Invalid route regex")
    );
    assert_eq!(error(r#"{"regex": "(", "type": "job", "name": "a"}"#), Some("Missing args"));
}

#[test]
fn route_without_text_for_regex_matches_everything() {
    let route = create_route_from_value(&json(
        r#"{"regex": 5, "type": "job", "name": "a", "args": []}"#,
    ))
    .unwrap();
    assert!(route.is_match(&"/anything".to_string()));
}

#[test]
fn route_map_is_read() {
    let routes = create_route_map(&json(
        r#"[{"regex": "^/a", "type": "job", "name": "first", "args": []},
            {"regex": "^/ab", "type": "job", "name": "second", "args": []}]"#,
    ))
    .unwrap();
    assert_eq!(routes.routes.len(), 2);
    assert_eq!(create_route_map(&json("{}")).err(), Some("Routes value is not an array"));
    assert_eq!(create_route_map(&json("null")).err(), Some("Routes value is not an array"));
    assert_eq!(
        create_route_map(&json(r#"[{"regex": "a", "type": "x"}, 5]"#)).err(),
        Some("Unknown route type")
    );
    assert_eq!(
        create_route_map(&json(r#"[5, {"regex": "a", "type": "x"}]"#)).err(),
        Some("Json value is not a object.")
    );
    assert_eq!(create_route_map(&json("[]")).unwrap().routes.len(), 0);
}

#[test]
fn configuration_is_loaded() {
    let text = "\u{feff}{\"name\": \"demo\", \"address\": \"0.0.0.0:7878\", \"routes\": [
        {\"regex\": \"^/$\", \"type\": \"static\", \"content_path\": \"i.html\", \"content_type\": \"text/html\"},
        {\"regex\": \"^/run$\", \"type\": \"job\", \"name\": \"sleepy\", \"args\": []}
    ]}";
    let configuration = load_config(text).unwrap();
    assert_eq!(configuration.name, "demo");
    assert_eq!(configuration.address, "0.0.0.0:7878");
    assert_eq!(configuration.routes.routes.len(), 2);
    match configuration.routes.handle(&request("/run")).unwrap() {
        RouteAction::QueueJob { command } => assert_eq!(command.name, "sleepy"),
        other => panic!("{:?}", other),
    }
    assert!(Configuration::load(text).is_ok());
}

#[test]
fn configuration_errors_and_defaults() {
    assert_eq!(load_config("nope").err(), Some("Error parsing config"));
    assert_eq!(load_config("{}").err(), Some("Routes value is not an array"));
    assert_eq!(load_config("[]").err(), Some("Routes value is not an array"));
    assert_eq!(load_config(r#"{"routes": 5}"#).err(), Some("Routes value is not an array"));
    assert_eq!(load_config(r#"{"routes": [{}]}"#).err(), Some("Missing route regex"));
    let configuration = load_config(r#"{"routes": [], "name": 5}"#).unwrap();
    assert_eq!(configuration.name, "");
    assert_eq!(configuration.address, "");
    assert_eq!(configuration.routes.routes.len(), 0);
}
