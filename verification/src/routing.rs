//! Routes: which handler serves a path, what the handler asks for, and the
//! response that is made of what came back.

use crate::commands::{format_output, formatted, CommandOutput};
use crate::http::{created, HttpRequest, HttpResponse, Response};
use crate::json::strings;
use crate::orchestration::JobCommand;
use vstd::prelude::*;
use vstd::string::*;
use vstd::utf8::encode_utf8;

verus! {

/// Whether a text is a regular expression that `regex` accepts.
pub uninterp spec fn regex_valid(pattern: Seq<char>) -> bool;

/// Whether the regular expression `pattern` matches somewhere in `text`.
pub uninterp spec fn regex_matches(pattern: Seq<char>, text: Seq<char>) -> bool;

/// `regex::Regex::new`: whether `pattern` compiles. The contract names the
/// answer and says no more of it.
#[verifier::external_body]
fn pattern_compiles(pattern: &str) -> (ok: bool)
    ensures
        ok == regex_valid(pattern@),
{
    regex::Regex::new(pattern).is_ok()
}

/// `regex::Regex::is_match` on the expression compiled from `pattern`:
/// whether it matches anywhere in `text`. The contract names the answer and
/// says no more of it.
#[verifier::external_body]
fn pattern_matches(pattern: &str, text: &str) -> (found: bool)
    requires
        regex_valid(pattern@),
    ensures
        found == regex_matches(pattern@, text@),
{
    regex::Regex::new(pattern).unwrap().is_match(text)
}

/// How the output of a command becomes a response.
#[derive(Clone, Copy, Debug, PartialEq, Eq, Structural)]
pub enum ResponseFormatter {
    /// The lines of the standard output as a JSON array.
    JsonLines,
}

/// A file that is sent as it is.
#[derive(Clone, Debug)]
pub struct StaticRoute {
    pub content_path: String,
    pub content_type: String,
}

/// A command whose output is sent.
#[derive(Clone, Debug)]
pub struct CommandRoute {
    pub command_name: String,
    pub args: Vec<String>,
    pub response_handler: ResponseFormatter,
}

/// A job that is started.
#[derive(Clone, Debug)]
pub struct JobRoute {
    pub name: String,
    pub args: Vec<String>,
}

/// What serves a request.
#[derive(Debug)]
pub enum RouteHandler {
    Static(StaticRoute),
    Command(CommandRoute),
    Job(JobRoute),
}

/// The model of a handler.
pub enum Handler {
    Static { content_path: Seq<char>, content_type: Seq<char> },
    Command { command_name: Seq<char>, args: Seq<Seq<char>>, formatter: ResponseFormatter },
    Job { name: Seq<char>, args: Seq<Seq<char>> },
}

impl View for RouteHandler {
    type V = Handler;

    open spec fn view(&self) -> Handler {
        match self {
            RouteHandler::Static(sr) => Handler::Static {
                content_path: sr.content_path@,
                content_type: sr.content_type@,
            },
            RouteHandler::Command(cr) => Handler::Command {
                command_name: cr.command_name@,
                args: strings(cr.args@),
                formatter: cr.response_handler,
            },
            RouteHandler::Job(jr) => Handler::Job { name: jr.name@, args: strings(jr.args@) },
        }
    }
}

/// What a handler asks the server to do before it can answer.
#[derive(Debug)]
pub enum RouteAction {
    /// Read the file at `content_path`.
    ReadFile { content_path: String, content_type: String },
    /// Run `command_name` with `args` and wait for it.
    RunCommand { command_name: String, args: Vec<String>, formatter: ResponseFormatter },
    /// Hand `command` to the orchestrator, without waiting.
    QueueJob { command: JobCommand },
}

/// The model of an action.
pub enum Action {
    ReadFile { content_path: Seq<char>, content_type: Seq<char> },
    RunCommand { command_name: Seq<char>, args: Seq<Seq<char>>, formatter: ResponseFormatter },
    QueueJob { name: Seq<char> },
}

impl View for RouteAction {
    type V = Action;

    open spec fn view(&self) -> Action {
        match self {
            RouteAction::ReadFile { content_path, content_type } => Action::ReadFile {
                content_path: content_path@,
                content_type: content_type@,
            },
            RouteAction::RunCommand { command_name, args, formatter } => Action::RunCommand {
                command_name: command_name@,
                args: strings(args@),
                formatter: *formatter,
            },
            RouteAction::QueueJob { command } => Action::QueueJob { name: command.name@ },
        }
    }
}

/// What came of an action.
#[derive(Debug)]
pub enum RouteOutcome {
    /// The file was read; these are its bytes.
    FileRead(Vec<u8>),
    /// The file could not be read.
    FileUnreadable,
    /// The command ran to its end.
    CommandRan(CommandOutput),
    /// The command could not be started.
    CommandNotStarted,
    /// The job command was handed over.
    JobQueued,
}

/// The action that a handler asks for. The arguments of a job route are not
/// passed on.
pub open spec fn action_of(handler: Handler) -> Action {
    match handler {
        Handler::Static { content_path, content_type } => Action::ReadFile {
            content_path,
            content_type,
        },
        Handler::Command { command_name, args, formatter } => Action::RunCommand {
            command_name,
            args,
            formatter,
        },
        Handler::Job { name, args } => Action::QueueJob { name },
    }
}

/// The response made of the text of a command's output: the text as JSON
/// under status 200, or the cause of a failure as plain text under 500.
pub open spec fn command_reply(text: Result<Seq<char>, Seq<char>>) -> Response {
    match text {
        Ok(json) => created(200, "application/json"@, Some(encode_utf8(json))),
        Err(cause) => created(500, "text/plain"@, Some(encode_utf8(cause))),
    }
}

/// The response to a request whose action had the given outcome. A file that
/// was read is sent under status 200 with the content type of the route; the
/// output of a command goes through the formatter; a job that was handed over
/// is answered with 201 at once. An action that failed is an error, and so is
/// an outcome of another action.
pub open spec fn reply(action: Action, outcome: RouteOutcome) -> Result<Response, Seq<char>> {
    match (action, outcome) {
        (Action::ReadFile { content_path, content_type }, RouteOutcome::FileRead(bytes)) => Ok(
            created(200, content_type, Some(bytes@)),
        ),
        (Action::ReadFile { .. }, RouteOutcome::FileUnreadable) => Err("Error reading file."@),
        (Action::RunCommand { .. }, RouteOutcome::CommandRan(output)) => Ok(
            command_reply(formatted(output.success, output.stdout@)),
        ),
        (Action::RunCommand { .. }, RouteOutcome::CommandNotStarted) => Err(
            "Error running command."@,
        ),
        (Action::QueueJob { .. }, RouteOutcome::JobQueued) => Ok(
            created(201, "text/plain"@, Some(encode_utf8("Job queued"@))),
        ),
        _ => Err("Outcome of another action."@),
    }
}

/// A copy of a list of strings.
pub fn clone_strings(items: &Vec<String>) -> (copy: Vec<String>)
    ensures
        strings(copy@) == strings(items@),
{
    let mut copy: Vec<String> = Vec::new();
    let mut i: usize = 0;
    while i < items.len()
        invariant
            i <= items.len(),
            strings(copy@) == strings(items@).take(i as int),
        decreases items.len() - i,
    {
        let ghost before = copy@;
        copy.push(items[i].clone());
        i = i + 1;
        proof {
            assert(strings(copy@) =~= strings(before).push(items@[i - 1]@));
            assert(strings(items@).take(i as int) =~= strings(items@).take(i - 1).push(
                items@[i - 1]@,
            ));
        }
    }
    assert(strings(items@).take(items@.len() as int) =~= strings(items@));
    copy
}

/// The response made of the text of a command's output.
pub fn command_response(text: Result<String, &'static str>) -> (response: HttpResponse)
    ensures
        response@ == command_reply(
            match text {
                Ok(json) => Ok(json@),
                Err(cause) => Err(cause@),
            },
        ),
{
    match text {
        Ok(json) => HttpResponse::create(
            200,
            String::from_str("application/json"),
            Some(json.as_str().as_bytes_vec()),
        ),
        Err(e) => HttpResponse::create(
            500,
            String::from_str("text/plain"),
            Some(e.as_bytes_vec()),
        ),
    }
}

/// The response made of the output of a command.
pub fn handle_command(output: CommandOutput) -> (response: HttpResponse)
    ensures
        response@ == command_reply(formatted(output.success, output.stdout@)),
{
    command_response(format_output(output))
}

impl ResponseFormatter {
    /// The response that this formatter makes of the output of a command.
    pub fn format(&self, output: CommandOutput) -> (response: HttpResponse)
        ensures
            response@ == command_reply(formatted(output.success, output.stdout@)),
    {
        match self {
            ResponseFormatter::JsonLines => handle_command(output),
        }
    }
}

impl Clone for RouteHandler {
    fn clone(&self) -> (copy: RouteHandler)
        ensures
            copy@ == self@,
    {
        match self {
            RouteHandler::Static(sr) => RouteHandler::create_static(
                sr.content_path.clone(),
                sr.content_type.clone(),
            ),
            RouteHandler::Command(cr) => RouteHandler::create_command(
                cr.command_name.clone(),
                clone_strings(&cr.args),
                cr.response_handler,
            ),
            RouteHandler::Job(jr) => RouteHandler::create_job(
                jr.name.clone(),
                clone_strings(&jr.args),
            ),
        }
    }
}

impl RouteHandler {
    /// A handler that sends the file at `content_path` as `content_type`.
    pub fn create_static(content_path: String, content_type: String) -> (handler: RouteHandler)
        ensures
            handler@ == (Handler::Static {
                content_path: content_path@,
                content_type: content_type@,
            }),
    {
        RouteHandler::Static(StaticRoute { content_path, content_type })
    }

    /// A handler that runs `command_name` with `args` and sends what
    /// `response_handler` makes of the output.
    pub fn create_command(
        command_name: String,
        args: Vec<String>,
        response_handler: ResponseFormatter,
    ) -> (handler: RouteHandler)
        ensures
            handler@ == (Handler::Command {
                command_name: command_name@,
                args: strings(args@),
                formatter: response_handler,
            }),
    {
        RouteHandler::Command(CommandRoute { command_name, args, response_handler })
    }

    /// A handler that starts the job called `name`.
    pub fn create_job(name: String, args: Vec<String>) -> (handler: RouteHandler)
        ensures
            handler@ == (Handler::Job { name: name@, args: strings(args@) }),
    {
        RouteHandler::Job(JobRoute { name, args })
    }

    /// What has to be done to serve `request`.
    pub fn handle(&self, request: &HttpRequest) -> (action: RouteAction)
        ensures
            action@ == action_of(self@),
    {
        match self {
            RouteHandler::Static(sr) => RouteAction::ReadFile {
                content_path: sr.content_path.clone(),
                content_type: sr.content_type.clone(),
            },
            RouteHandler::Command(cr) => RouteAction::RunCommand {
                command_name: cr.command_name.clone(),
                args: clone_strings(&cr.args),
                formatter: cr.response_handler,
            },
            RouteHandler::Job(jr) => RouteAction::QueueJob {
                command: JobCommand { name: jr.name.clone() },
            },
        }
    }
}

impl RouteAction {
    /// The response to the request, now that the action had `outcome`.
    pub fn respond(self, outcome: RouteOutcome) -> (response: Result<HttpResponse, &'static str>)
        ensures
            match response {
                Ok(r) => reply(self@, outcome) == Ok::<Response, Seq<char>>(r@),
                Err(e) => reply(self@, outcome) == Err::<Response, Seq<char>>(e@),
            },
    {
        match self {
            RouteAction::ReadFile { content_path, content_type } => match outcome {
                RouteOutcome::FileRead(body) => Ok(
                    HttpResponse::create(200, content_type, Some(body)),
                ),
                RouteOutcome::FileUnreadable => Err("Error reading file."),
                _ => Err("Outcome of another action."),
            },
            RouteAction::RunCommand { command_name, args, formatter } => match outcome {
                RouteOutcome::CommandRan(output) => Ok(formatter.format(output)),
                RouteOutcome::CommandNotStarted => Err("Error running command."),
                _ => Err("Outcome of another action."),
            },
            RouteAction::QueueJob { command } => match outcome {
                RouteOutcome::JobQueued => Ok(
                    HttpResponse::create(
                        201,
                        String::from_str("text/plain"),
                        Some("Job queued".as_bytes_vec()),
                    ),
                ),
                _ => Err("Outcome of another action."),
            },
        }
    }
}

/// A handler and the regular expression that selects the paths it serves.
#[derive(Debug)]
pub struct Route {
    pattern: String,
    handler: RouteHandler,
}

/// The model of a route.
pub struct RouteModel {
    pub pattern: Seq<char>,
    pub handler: Handler,
}

impl View for Route {
    type V = RouteModel;

    closed spec fn view(&self) -> RouteModel {
        RouteModel { pattern: self.pattern@, handler: self.handler@ }
    }
}

impl Clone for Route {
    fn clone(&self) -> (copy: Route)
        ensures
            copy@ == self@,
    {
        proof {
            use_type_invariant(self);
        }
        Route { pattern: self.pattern.clone(), handler: self.handler.clone() }
    }
}

impl Route {
    #[verifier::type_invariant]
    spec fn well_formed(&self) -> bool {
        regex_valid(self.pattern@)
    }

    /// A route for the paths that `route_regex` matches. An expression that
    /// does not compile is refused.
    pub fn new(route_regex: String, handler: RouteHandler) -> (route: Result<Route, &'static str>)
        ensures
            match route {
                Ok(r) => regex_valid(route_regex@) && r@ == (RouteModel {
                    pattern: route_regex@,
                    handler: handler@,
                }),
                Err(e) => !regex_valid(route_regex@) && e@ == "Invalid route regex"@,
            },
    {
        if pattern_compiles(route_regex.as_str()) {
            Ok(Route { pattern: route_regex, handler })
        } else {
            Err("Invalid route regex")
        }
    }

    /// The handler of the route.
    pub fn handler(&self) -> (handler: &RouteHandler)
        ensures
            handler@ == self@.handler,
    {
        &self.handler
    }

    /// Whether the route serves the path `route`.
    pub fn is_match(&self, route: &String) -> (found: bool)
        ensures
            found == regex_matches(self@.pattern, route@),
    {
        proof {
            use_type_invariant(self);
        }
        pattern_matches(self.pattern.as_str(), route.as_str())
    }
}

/// The routes of a server, in the order of the configuration.
#[derive(Debug)]
pub struct RouteMap {
    pub routes: Vec<Route>,
}

impl View for RouteMap {
    type V = Seq<RouteModel>;

    open spec fn view(&self) -> Seq<RouteModel> {
        self.routes@.map_values(|route: Route| route@)
    }
}

/// Position `i` holds the last flag that is set.
pub open spec fn is_last_match(flags: Seq<bool>, i: int) -> bool {
    &&& 0 <= i < flags.len()
    &&& flags[i]
    &&& forall|j: int| i < j < flags.len() ==> !flags[j]
}

/// The position of the last flag that is set.
pub open spec fn last_match(flags: Seq<bool>) -> Option<int> {
    if exists|i: int| is_last_match(flags, i) {
        Some(choose|i: int| is_last_match(flags, i))
    } else {
        None
    }
}

/// For each route, whether it serves `path`.
pub open spec fn match_flags(routes: Seq<RouteModel>, path: Seq<char>) -> Seq<bool> {
    routes.map_values(|route: RouteModel| regex_matches(route.pattern, path))
}

/// The route that serves `path`: the last one whose expression matches.
pub open spec fn selected(routes: Seq<RouteModel>, path: Seq<char>) -> Option<int> {
    last_match(match_flags(routes, path))
}

/// What has to be done for a request to `path`, or why nothing can be.
pub open spec fn routed(routes: Seq<RouteModel>, path: Seq<char>) -> Result<Action, Seq<char>> {
    match selected(routes, path) {
        Some(i) => Ok(action_of(routes[i].handler)),
        None => Err("Route not found"@),
    }
}

/// `last_match` gives a set flag after which none is set, and nothing
/// exactly when no flag is set.
pub proof fn lemma_last_match(flags: Seq<bool>)
    ensures
        match last_match(flags) {
            Some(i) => is_last_match(flags, i),
            None => forall|j: int| 0 <= j < flags.len() ==> !flags[j],
        },
    decreases flags.len(),
{
    if flags.len() > 0 && last_match(flags) is None {
        let earlier = flags.drop_last();
        if flags.last() {
            assert(is_last_match(flags, flags.len() - 1));
        } else {
            lemma_last_match(earlier);
            match last_match(earlier) {
                Some(i) => {
                    assert(is_last_match(flags, i)) by {
                        assert forall|j: int| i < j < flags.len() implies !flags[j] by {
                            if j < earlier.len() {
                                assert(earlier[j] == flags[j]);
                            }
                        }
                    }
                },
                None => {
                    assert forall|j: int| 0 <= j < flags.len() implies !flags[j] by {
                        if j < earlier.len() {
                            assert(earlier[j] == flags[j]);
                        }
                    }
                },
            }
        }
    }
}

/// The route that is selected for a path matches it, and no route after it
/// does; no route is selected exactly when none matches. So the same routes
/// and the same path always give the same handler.
pub proof fn lemma_selected(routes: Seq<RouteModel>, path: Seq<char>)
    ensures
        match selected(routes, path) {
            Some(i) => {
                &&& 0 <= i < routes.len()
                &&& regex_matches(routes[i].pattern, path)
                &&& forall|j: int|
                    i < j < routes.len() ==> !regex_matches((#[trigger] routes[j]).pattern, path)
            },
            None => forall|j: int|
                0 <= j < routes.len() ==> !regex_matches((#[trigger] routes[j]).pattern, path),
        },
{
    let flags = match_flags(routes, path);
    lemma_last_match(flags);
    match last_match(flags) {
        Some(i) => {
            assert forall|j: int| i < j < routes.len() implies !regex_matches(
                (#[trigger] routes[j]).pattern,
                path,
            ) by {
                assert(!flags[j]);
            }
        },
        None => {
            assert forall|j: int| 0 <= j < routes.len() implies !regex_matches(
                (#[trigger] routes[j]).pattern,
                path,
            ) by {
                assert(!flags[j]);
            }
        },
    }
}

/// Without routes no path is served.
pub proof fn lemma_no_routes(path: Seq<char>)
    ensures
        routed(Seq::<RouteModel>::empty(), path) == Err::<Action, Seq<char>>("Route not found"@),
{
    lemma_selected(Seq::<RouteModel>::empty(), path);
}

/// The position of the last flag that is set.
pub fn select(flags: &Vec<bool>) -> (found: Option<usize>)
    ensures
        match found {
            Some(i) => last_match(flags@) == Some(i as int),
            None => last_match(flags@) is None,
        },
{
    let mut found: Option<usize> = None;
    let mut i: usize = 0;
    while i < flags.len()
        invariant
            i <= flags.len(),
            match found {
                Some(k) => k < i && flags@[k as int] && forall|j: int| k < j < i ==> !flags@[j],
                None => forall|j: int| 0 <= j < i ==> !flags@[j],
            },
        decreases flags.len() - i,
    {
        if flags[i] {
            found = Some(i);
        }
        i = i + 1;
    }
    proof {
        lemma_last_match(flags@);
        match found {
            Some(k) => {
                assert(is_last_match(flags@, k as int));
                let chosen = last_match(flags@)->Some_0;
                if chosen < k {
                    assert(!flags@[k as int]);
                } else if chosen > k {
                    assert(!flags@[chosen]);
                }
            },
            None => {
                if last_match(flags@) is Some {
                    assert(flags@[last_match(flags@)->Some_0]);
                }
            },
        }
    }
    found
}

impl Clone for RouteMap {
    fn clone(&self) -> (copy: RouteMap)
        ensures
            copy@ == self@,
    {
        let mut routes: Vec<Route> = Vec::new();
        let mut i: usize = 0;
        while i < self.routes.len()
            invariant
                i <= self.routes.len(),
                routes@.map_values(|route: Route| route@) == self@.take(i as int),
            decreases self.routes.len() - i,
        {
            let ghost before = routes@;
            let route = self.routes[i].clone();
            routes.push(route);
            i = i + 1;
            proof {
                assert(self@[i - 1] == self.routes@[i - 1]@);
                assert(routes@.map_values(|route: Route| route@) =~= before.map_values(
                    |route: Route| route@,
                ).push(route@));
                assert(self@.take(i as int) =~= self@.take(i - 1).push(self@[i - 1]));
            }
        }
        assert(self@.take(self@.len() as int) =~= self@);
        RouteMap { routes }
    }
}

impl RouteMap {
    /// The routes of a server.
    pub fn new(routes: Vec<Route>) -> (map: RouteMap)
        ensures
            map.routes == routes,
    {
        RouteMap { routes }
    }

    /// What has to be done to serve `request`: what the last route asks for
    /// whose expression matches the path.
    pub fn handle(&self, request: &HttpRequest) -> (action: Result<RouteAction, &'static str>)
        ensures
            match action {
                Ok(a) => routed(self@, request@.head.route) == Ok::<Action, Seq<char>>(a@),
                Err(e) => routed(self@, request@.head.route) == Err::<Action, Seq<char>>(e@),
            },
    {
        let mut flags: Vec<bool> = Vec::new();
        let mut i: usize = 0;
        while i < self.routes.len()
            invariant
                i <= self.routes.len(),
                flags@ == match_flags(self@, request@.head.route).take(i as int),
            decreases self.routes.len() - i,
        {
            let found = self.routes[i].is_match(&request.header.route);
            flags.push(found);
            i = i + 1;
            proof {
                let all = match_flags(self@, request@.head.route);
                assert(self@[i - 1] == self.routes@[i - 1]@);
                assert(all.take(i as int) =~= all.take(i - 1).push(all[i - 1]));
            }
        }
        proof {
            let all = match_flags(self@, request@.head.route);
            assert(all.take(all.len() as int) =~= all);
        }
        match select(&flags) {
            None => Err("Route not found"),
            Some(k) => {
                assert(self@[k as int] == self.routes@[k as int]@);
                Ok(self.routes[k].handler().handle(request))
            },
        }
    }
}

} // verus!
