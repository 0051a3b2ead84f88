//! The two configuration documents: the routes of the server, and the jobs
//! with their actions.

use crate::json::{json_document, strings, Json, JsonValue};
use crate::routing::{
    regex_valid, Handler, ResponseFormatter, Route, RouteHandler, RouteMap, RouteModel,
};
use crate::text::{to_chars, to_string};
use vstd::prelude::*;
use vstd::string::*;

verus! {

/// The configuration of a server.
#[derive(Debug)]
pub struct Configuration {
    pub name: String,
    pub address: String,
    pub routes: RouteMap,
}

/// The jobs that can be started, each name once.
#[derive(Debug)]
pub struct JobsConfiguration {
    jobs: Vec<JobConfiguration>,
}

/// A job: its name and its actions, in the order in which they are handed
/// to the workers.
#[derive(Debug)]
pub struct JobConfiguration {
    pub name: String,
    pub actions: Vec<ActionType>,
}

/// One unit of work of a job.
#[derive(Debug)]
pub enum ActionType {
    Command(CommandActionType),
    Test(TestActionType),
}

/// An action that runs a command.
#[derive(Debug)]
pub struct CommandActionType {
    pub command_name: String,
    pub args: Vec<String>,
}

/// An action that waits, for tests under load. The time is in milliseconds;
/// of a negative one the magnitude is taken.
#[derive(Debug)]
pub struct TestActionType {
    pub wait_time: i64,
}

/// The model of an action.
pub enum ActionModel {
    Command { command_name: Seq<char>, args: Seq<Seq<char>> },
    Test { wait_time: int },
}

/// The model of a job.
pub struct JobModel {
    pub name: Seq<char>,
    pub actions: Seq<ActionModel>,
}

/// The model of a server's configuration.
pub struct ConfigurationModel {
    pub name: Seq<char>,
    pub address: Seq<char>,
    pub routes: Seq<RouteModel>,
}

impl View for ActionType {
    type V = ActionModel;

    open spec fn view(&self) -> ActionModel {
        match self {
            ActionType::Command(c) => ActionModel::Command {
                command_name: c.command_name@,
                args: strings(c.args@),
            },
            ActionType::Test(t) => ActionModel::Test { wait_time: t.wait_time as int },
        }
    }
}

/// The models of a list of actions.
pub open spec fn action_models(actions: Seq<ActionType>) -> Seq<ActionModel> {
    actions.map_values(|action: ActionType| action@)
}

impl View for JobConfiguration {
    type V = JobModel;

    open spec fn view(&self) -> JobModel {
        JobModel { name: self.name@, actions: action_models(self.actions@) }
    }
}

impl View for Configuration {
    type V = ConfigurationModel;

    open spec fn view(&self) -> ConfigurationModel {
        ConfigurationModel { name: self.name@, address: self.address@, routes: self.routes@ }
    }
}

impl View for JobsConfiguration {
    type V = Seq<JobModel>;

    closed spec fn view(&self) -> Seq<JobModel> {
        self.jobs@.map_values(|job: JobConfiguration| job@)
    }
}

/// No two jobs carry the same name.
pub open spec fn distinct_jobs(jobs: Seq<JobModel>) -> bool {
    forall|i: int, j: int|
        0 <= i < j < jobs.len() ==> (#[trigger] jobs[i]).name != (#[trigger] jobs[j]).name
}

/// Whether some job is called `name`.
pub open spec fn has_job(jobs: Seq<JobModel>, name: Seq<char>) -> bool {
    exists|i: int| 0 <= i < jobs.len() && (#[trigger] jobs[i]).name == name
}

/// The position of a job called `name`.
pub open spec fn job_position(jobs: Seq<JobModel>, name: Seq<char>) -> int {
    choose|i: int| 0 <= i < jobs.len() && (#[trigger] jobs[i]).name == name
}

/// The job called `name`.
pub open spec fn job_named(jobs: Seq<JobModel>, name: Seq<char>) -> Option<JobModel> {
    if has_job(jobs, name) {
        Some(jobs[job_position(jobs, name)])
    } else {
        None
    }
}

/// The table after `job` was put in: it takes the place of a job of the same
/// name, and goes to the end where there is none.
pub open spec fn with_job(jobs: Seq<JobModel>, job: JobModel) -> Seq<JobModel> {
    if has_job(jobs, job.name) {
        jobs.update(job_position(jobs, job.name), job)
    } else {
        jobs.push(job)
    }
}

/// Putting a job in keeps the names distinct.
pub proof fn lemma_with_job_distinct(jobs: Seq<JobModel>, job: JobModel)
    requires
        distinct_jobs(jobs),
    ensures
        distinct_jobs(with_job(jobs, job)),
        job_named(with_job(jobs, job), job.name) == Some(job),
{
    let after = with_job(jobs, job);
    if has_job(jobs, job.name) {
        let at = job_position(jobs, job.name);
        assert(after[at] == job);
        assert forall|i: int, j: int| 0 <= i < j < after.len() implies (#[trigger] after[i]).name
            != (#[trigger] after[j]).name by {
            assert(after[i].name == jobs[i].name);
            assert(after[j].name == jobs[j].name);
        }
        let found = job_position(after, job.name);
        if found < at {
            assert(after[found].name != after[at].name);
        } else if found > at {
            assert(after[at].name != after[found].name);
        }
    } else {
        let at = jobs.len() as int;
        assert(after[at] == job);
        assert forall|i: int, j: int| 0 <= i < j < after.len() implies (#[trigger] after[i]).name
            != (#[trigger] after[j]).name by {
            assert(after[i] == jobs[i]);
            if j < at {
                assert(after[j] == jobs[j]);
            }
        }
        let found = job_position(after, job.name);
        if found != at {
            assert(after[found] == jobs[found]);
        }
    }
}

/// The text without the byte order marks at its beginning.
pub open spec fn without_bom(text: Seq<char>) -> Seq<char>
    decreases text.len(),
{
    if text.len() > 0 && text[0] == '\u{feff}' {
        without_bom(text.skip(1))
    } else {
        text
    }
}

/// The action that a JSON value declares. It has to be an object with a
/// `type`: a `command` has a `command_name` and `args`, a `test` has a
/// `wait_time` that is an integer.
pub open spec fn action_of_json(value: JsonValue) -> Result<ActionModel, Seq<char>> {
    if !(value is Object) {
        Err("Action value is not and object"@)
    } else {
        match value.member("type"@) {
            None => Err("Missing type value"@),
            Some(kind) => if kind.text() == "command"@ {
                match (value.member("command_name"@), value.member("args"@)) {
                    (Some(name), Some(args)) => Ok(
                        ActionModel::Command { command_name: name.text(), args: args.texts() },
                    ),
                    (None, _) => Err("Missing command name"@),
                    (_, None) => Err("Missing args"@),
                }
            } else if kind.text() == "test"@ {
                match value.member("wait_time"@) {
                    None => Err("Missing wait time value."@),
                    Some(wait) => match wait.integer() {
                        None => Err("Test wait time is not i64."@),
                        Some(wait_time) => Ok(ActionModel::Test { wait_time }),
                    },
                }
            } else {
                Err("Unknown job type."@)
            },
        }
    }
}

/// The actions that the items declare, or what is wrong with the first item
/// that declares none.
pub open spec fn actions_of_json(items: Seq<JsonValue>) -> Result<Seq<ActionModel>, Seq<char>>
    decreases items.len(),
{
    if items.len() == 0 {
        Ok(Seq::empty())
    } else {
        match actions_of_json(items.drop_last()) {
            Err(e) => Err(e),
            Ok(before) => match action_of_json(items.last()) {
                Err(e) => Err(e),
                Ok(action) => Ok(before.push(action)),
            },
        }
    }
}

/// The job that a JSON value declares. It has to be an object with a `name`
/// and with `actions`, an array of actions.
pub open spec fn job_of_json(value: JsonValue) -> Result<JobModel, Seq<char>> {
    if !(value is Object) {
        Err("Job value is not and object"@)
    } else {
        match (value.member("name"@), value.member("actions"@)) {
            (Some(name), Some(actions)) => match actions.items() {
                None => Err("Actions value is not an array."@),
                Some(items) => match actions_of_json(items) {
                    Err(e) => Err(e),
                    Ok(actions) => Ok(JobModel { name: name.text(), actions }),
                },
            },
            (None, _) => Err("Missing name value"@),
            (_, None) => Err("Missing type value"@),
        }
    }
}

/// The table of the jobs that the items declare, a later job taking the
/// place of an earlier one of the same name; or what is wrong with the first
/// item that declares none.
pub open spec fn jobs_of_json(items: Seq<JsonValue>) -> Result<Seq<JobModel>, Seq<char>>
    decreases items.len(),
{
    if items.len() == 0 {
        Ok(Seq::empty())
    } else {
        match jobs_of_json(items.drop_last()) {
            Err(e) => Err(e),
            Ok(before) => match job_of_json(items.last()) {
                Err(e) => Err(e),
                Ok(job) => Ok(with_job(before, job)),
            },
        }
    }
}

/// The jobs that a document declares under `jobs`.
pub open spec fn jobs_of_document(document: JsonValue) -> Result<Seq<JobModel>, Seq<char>> {
    match document.member("jobs"@) {
        None => Err("Jobs value not found."@),
        Some(jobs) => match jobs.items() {
            None => Err("Jobs value is not an array."@),
            Some(items) => jobs_of_json(items),
        },
    }
}

/// The jobs that the text of a jobs document declares.
pub open spec fn jobs_of_text(text: Seq<char>) -> Result<Seq<JobModel>, Seq<char>> {
    match json_document(without_bom(text)) {
        None => Err("Error parsing config"@),
        Some(document) => jobs_of_document(document),
    }
}

/// The handler that a route object declares under its `type`: a `static`
/// route has a `content_path` and a `content_type`, a `command` route a
/// `command_name` and `args`, a `job` route a `name` and `args`.
pub open spec fn handler_of_json(value: JsonValue, kind: Seq<char>) -> Result<Handler, Seq<char>> {
    if kind == "static"@ {
        match (value.member("content_path"@), value.member("content_type"@)) {
            (Some(path), Some(content_type)) => Ok(
                Handler::Static { content_path: path.text(), content_type: content_type.text() },
            ),
            (None, _) => Err("Missing content path"@),
            (_, None) => Err("Missing content type"@),
        }
    } else if kind == "command"@ {
        match (value.member("command_name"@), value.member("args"@)) {
            (Some(name), Some(args)) => Ok(
                Handler::Command {
                    command_name: name.text(),
                    args: args.texts(),
                    formatter: ResponseFormatter::JsonLines,
                },
            ),
            (None, _) => Err("Missing command name"@),
            (_, None) => Err("Missing args"@),
        }
    } else if kind == "job"@ {
        match (value.member("name"@), value.member("args"@)) {
            (Some(name), Some(args)) => Ok(Handler::Job { name: name.text(), args: args.texts() }),
            (None, _) => Err("Missing command name"@),
            (_, None) => Err("Missing args"@),
        }
    } else {
        Err("Unknown route type"@)
    }
}

/// The route that a JSON value declares. It has to be an object with a
/// `regex` that compiles and a `type`, and with what the type asks for.
pub open spec fn route_of_json(value: JsonValue) -> Result<RouteModel, Seq<char>> {
    if !(value is Object) {
        Err("Json value is not a object."@)
    } else {
        match (value.member("regex"@), value.member("type"@)) {
            (Some(regex), Some(kind)) => match handler_of_json(value, kind.text()) {
                Err(e) => Err(e),
                Ok(handler) => if regex_valid(regex.text()) {
                    Ok(RouteModel { pattern: regex.text(), handler })
                } else {
                    Err("Invalid route regex"@)
                },
            },
            (None, _) => Err("Missing route regex"@),
            (_, None) => Err("Missing route type"@),
        }
    }
}

/// The routes that the items declare, in their order, or what is wrong with
/// the first item that declares none.
pub open spec fn routes_of_items(items: Seq<JsonValue>) -> Result<Seq<RouteModel>, Seq<char>>
    decreases items.len(),
{
    if items.len() == 0 {
        Ok(Seq::empty())
    } else {
        match routes_of_items(items.drop_last()) {
            Err(e) => Err(e),
            Ok(before) => match route_of_json(items.last()) {
                Err(e) => Err(e),
                Ok(route) => Ok(before.push(route)),
            },
        }
    }
}

/// The routes that a JSON value declares, which has to be an array.
pub open spec fn routes_of_json(value: JsonValue) -> Result<Seq<RouteModel>, Seq<char>> {
    match value.items() {
        None => Err("Routes value is not an array"@),
        Some(items) => routes_of_items(items),
    }
}

/// The configuration that a document declares: its `name`, its `address`,
/// and its `routes`.
pub open spec fn configuration_of_document(document: JsonValue) -> Result<
    ConfigurationModel,
    Seq<char>,
> {
    match routes_of_json(document.at("routes"@)) {
        Err(e) => Err(e),
        Ok(routes) => Ok(
            ConfigurationModel {
                name: document.at("name"@).text(),
                address: document.at("address"@).text(),
                routes,
            },
        ),
    }
}

/// The configuration that the text of a configuration document declares.
pub open spec fn configuration_of_text(text: Seq<char>) -> Result<ConfigurationModel, Seq<char>> {
    match json_document(without_bom(text)) {
        None => Err("Error parsing config"@),
        Some(document) => configuration_of_document(document),
    }
}

/// The text without the byte order marks at its beginning.
pub fn strip_bom(text: &str) -> (stripped: String)
    ensures
        stripped@ == without_bom(text@),
{
    let chars = to_chars(text);
    let mut start: usize = 0;
    proof {
        assert(chars@.skip(0) =~= chars@);
    }
    while start < chars.len() && chars[start] == '\u{feff}'
        invariant
            start <= chars.len(),
            without_bom(chars@) == without_bom(chars@.skip(start as int)),
        decreases chars.len() - start,
    {
        proof {
            assert(chars@.skip(start as int).skip(1) =~= chars@.skip(start + 1));
        }
        start = start + 1;
    }
    proof {
        assert(chars@.skip(start as int) =~= chars@.subrange(start as int, chars@.len() as int));
    }
    to_string(&chars, start, chars.len())
}

/// The text of a JSON value that is a string, and the empty text for any
/// other value.
pub fn get_string(value: &Json) -> (text: String)
    ensures
        text@ == value@.text(),
{
    value.text()
}

/// The member called `key`, read with `get_string`; the empty text where the
/// value has no such member.
pub fn get_string_at(value: &Json, key: &str) -> (text: String)
    ensures
        text@ == value@.at(key@).text(),
{
    match value.get(key) {
        Some(member) => member.text(),
        None => String::new(),
    }
}

/// Whether `text` reads as `literal`.
pub fn is_text(text: &String, literal: &str) -> (same: bool)
    ensures
        same == (text@ == literal@),
{
    *text == String::from_str(literal)
}

impl ActionType {
    /// An action that runs `name` with `args`.
    pub fn create_command(name: String, args: Vec<String>) -> (action: ActionType)
        ensures
            action@ == (ActionModel::Command { command_name: name@, args: strings(args@) }),
    {
        ActionType::Command(CommandActionType { command_name: name, args })
    }

    /// An action that waits for `wait_time` milliseconds.
    pub fn create_test(wait_time: i64) -> (action: ActionType)
        ensures
            action@ == (ActionModel::Test { wait_time: wait_time as int }),
    {
        ActionType::Test(TestActionType { wait_time })
    }
}

/// The action that a JSON value declares.
pub fn create_action(action_obj: &Json) -> (action: Result<ActionType, &'static str>)
    ensures
        match action {
            Ok(a) => action_of_json(action_obj@) == Ok::<ActionModel, Seq<char>>(a@),
            Err(e) => action_of_json(action_obj@) == Err::<ActionModel, Seq<char>>(e@),
        },
{
    if !action_obj.is_object() {
        return Err("Action value is not and object");
    }
    match action_obj.get("type") {
        None => Err("Missing type value"),
        Some(type_value) => {
            let kind = get_string(type_value);
            if is_text(&kind, "command") {
                match (action_obj.get("command_name"), action_obj.get("args")) {
                    (Some(name), Some(args)) => Ok(
                        ActionType::create_command(get_string(name), args.texts()),
                    ),
                    (None, _) => Err("Missing command name"),
                    (_, None) => Err("Missing args"),
                }
            } else if is_text(&kind, "test") {
                match action_obj.get("wait_time") {
                    None => Err("Missing wait time value."),
                    Some(wtv) => match wtv.as_i64() {
                        None => Err("Test wait time is not i64."),
                        Some(v) => Ok(ActionType::create_test(v)),
                    },
                }
            } else {
                Err("Unknown job type.")
            }
        },
    }
}

/// The models of a list of JSON values.
pub open spec fn json_models(items: Seq<Json>) -> Seq<JsonValue> {
    items.map_values(|item: Json| item@)
}

/// The actions that the items of an `actions` array declare.
pub fn create_actions(items: &Vec<Json>) -> (actions: Result<Vec<ActionType>, &'static str>)
    ensures
        match actions {
            Ok(a) => actions_of_json(json_models(items@)) == Ok::<Seq<ActionModel>, Seq<char>>(
                action_models(a@),
            ),
            Err(e) => actions_of_json(json_models(items@)) == Err::<Seq<ActionModel>, Seq<char>>(
                e@,
            ),
        },
{
    let ghost models = json_models(items@);
    let mut actions: Vec<ActionType> = Vec::new();
    let mut i: usize = 0;
    proof {
        assert(models.take(0) =~= Seq::<JsonValue>::empty());
        assert(action_models(actions@) =~= Seq::<ActionModel>::empty());
    }
    while i < items.len()
        invariant
            i <= items.len(),
            models == json_models(items@),
            actions_of_json(models.take(i as int)) == Ok::<Seq<ActionModel>, Seq<char>>(
                action_models(actions@),
            ),
        decreases items.len() - i,
    {
        proof {
            assert(models.take(i + 1).drop_last() =~= models.take(i as int));
            assert(models.take(i + 1).last() == items@[i as int]@);
        }
        match create_action(&items[i]) {
            Ok(action) => {
                let ghost before = actions@;
                actions.push(action);
                proof {
                    assert(action_models(actions@) =~= action_models(before).push(action@));
                }
            },
            Err(e) => {
                proof {
                    assert(actions_of_json(models.take(i + 1)) == Err::<
                        Seq<ActionModel>,
                        Seq<char>,
                    >(e@));
                    lemma_actions_error(models, i + 1, e@);
                }
                return Err(e);
            },
        }
        i = i + 1;
    }
    proof {
        assert(models.take(items@.len() as int) =~= models);
    }
    Ok(actions)
}

/// The job that a JSON value declares.
pub fn create_job_config(job_obj: &Json) -> (job: Result<JobConfiguration, &'static str>)
    ensures
        match job {
            Ok(j) => job_of_json(job_obj@) == Ok::<JobModel, Seq<char>>(j@),
            Err(e) => job_of_json(job_obj@) == Err::<JobModel, Seq<char>>(e@),
        },
{
    if !job_obj.is_object() {
        return Err("Job value is not and object");
    }
    match (job_obj.get("name"), job_obj.get("actions")) {
        (Some(name_value), Some(action_value)) => match action_value.as_array() {
            Some(av) => {
                proof {
                    assert(json_models(av@) =~= action_value@.items()->Some_0);
                }
                let name = get_string(name_value);
                match create_actions(av) {
                    Ok(actions) => Ok(JobConfiguration { name, actions }),
                    Err(e) => Err(e),
                }
            },
            None => Err("Actions value is not an array."),
        },
        (None, _) => Err("Missing name value"),
        (_, None) => Err("Missing type value"),
    }
}

/// An error among the first `n` actions is the error of all of them.
pub proof fn lemma_actions_error(items: Seq<JsonValue>, n: int, e: Seq<char>)
    requires
        0 <= n <= items.len(),
        actions_of_json(items.take(n)) == Err::<Seq<ActionModel>, Seq<char>>(e),
    ensures
        actions_of_json(items) == Err::<Seq<ActionModel>, Seq<char>>(e),
    decreases items.len() - n,
{
    if n == items.len() {
        assert(items.take(n) =~= items);
    } else {
        assert(items.take(n + 1).drop_last() =~= items.take(n));
        lemma_actions_error(items, n + 1, e);
    }
}

/// An error among the first `n` jobs is the error of all of them.
pub proof fn lemma_jobs_error(items: Seq<JsonValue>, n: int, e: Seq<char>)
    requires
        0 <= n <= items.len(),
        jobs_of_json(items.take(n)) == Err::<Seq<JobModel>, Seq<char>>(e),
    ensures
        jobs_of_json(items) == Err::<Seq<JobModel>, Seq<char>>(e),
    decreases items.len() - n,
{
    if n == items.len() {
        assert(items.take(n) =~= items);
    } else {
        assert(items.take(n + 1).drop_last() =~= items.take(n));
        lemma_jobs_error(items, n + 1, e);
    }
}

/// An error among the first `n` routes is the error of all of them.
pub proof fn lemma_routes_error(items: Seq<JsonValue>, n: int, e: Seq<char>)
    requires
        0 <= n <= items.len(),
        routes_of_items(items.take(n)) == Err::<Seq<RouteModel>, Seq<char>>(e),
    ensures
        routes_of_items(items) == Err::<Seq<RouteModel>, Seq<char>>(e),
    decreases items.len() - n,
{
    if n == items.len() {
        assert(items.take(n) =~= items);
    } else {
        assert(items.take(n + 1).drop_last() =~= items.take(n));
        lemma_routes_error(items, n + 1, e);
    }
}

impl JobsConfiguration {
    #[verifier::type_invariant]
    spec fn well_formed(&self) -> bool {
        distinct_jobs(self@)
    }

    /// A table without jobs.
    pub fn new() -> (jobs: JobsConfiguration)
        ensures
            jobs@ == Seq::<JobModel>::empty(),
    {
        let jobs = JobsConfiguration { jobs: Vec::new() };
        assert(jobs@ =~= Seq::<JobModel>::empty());
        jobs
    }

    /// The number of jobs.
    pub fn len(&self) -> (n: usize)
        ensures
            n == self@.len(),
            distinct_jobs(self@),
    {
        proof {
            use_type_invariant(self);
        }
        self.jobs.len()
    }

    /// Puts `job` into the table, in the place of a job of the same name
    /// where there is one.
    pub fn insert(&mut self, job: JobConfiguration)
        ensures
            final(self)@ == with_job(old(self)@, job@),
            distinct_jobs(final(self)@),
    {
        proof {
            use_type_invariant(&*self);
            lemma_with_job_distinct(self@, job@);
        }
        let mut taken = JobsConfiguration { jobs: Vec::new() };
        core::mem::swap(self, &mut taken);
        let mut jobs = taken.jobs;
        let ghost before = old(self)@;
        let mut i: usize = 0;
        while i < jobs.len()
            invariant
                i <= jobs.len(),
                jobs == old(self).jobs,
                before == old(self)@,
                distinct_jobs(before),
                forall|k: int| 0 <= k < i ==> (#[trigger] before[k]).name != job.name@,
            decreases jobs.len() - i,
        {
            if jobs[i].name == job.name {
                proof {
                    assert(before[i as int].name == job.name@);
                    let found = job_position(before, job.name@);
                    if found < i {
                        assert(before[found].name != before[i as int].name);
                    } else if found > i {
                        assert(before[i as int].name != before[found].name);
                    }
                }
                jobs.set(i, job);
                let ghost after = JobsConfiguration { jobs };
                assert(after@ =~= with_job(before, job@));
                *self = JobsConfiguration { jobs };
                return ;
            }
            i = i + 1;
        }
        jobs.push(job);
        let ghost after = JobsConfiguration { jobs };
        assert(after@ =~= with_job(before, job@));
        *self = JobsConfiguration { jobs };
    }

    /// The job called `name`.
    pub fn get_job(&self, name: &str) -> (job: Option<&JobConfiguration>)
        ensures
            match job {
                Some(j) => job_named(self@, name@) == Some(j@),
                None => job_named(self@, name@) is None,
            },
    {
        proof {
            use_type_invariant(self);
        }
        let wanted = String::from_str(name);
        let mut i: usize = 0;
        while i < self.jobs.len()
            invariant
                i <= self.jobs.len(),
                wanted@ == name@,
                distinct_jobs(self@),
                forall|k: int| 0 <= k < i ==> (#[trigger] self@[k]).name != name@,
            decreases self.jobs.len() - i,
        {
            if self.jobs[i].name == wanted {
                proof {
                    assert(self@[i as int] == self.jobs@[i as int]@);
                    let found = job_position(self@, name@);
                    if found < i {
                        assert(self@[found].name != self@[i as int].name);
                    } else if found > i {
                        assert(self@[i as int].name != self@[found].name);
                    }
                }
                return Some(&self.jobs[i]);
            }
            proof {
                assert(self@[i as int] == self.jobs@[i as int]@);
            }
            i = i + 1;
        }
        None
    }

    /// The jobs that the items of a `jobs` array declare.
    pub fn from_items(items: &Vec<Json>) -> (jobs: Result<JobsConfiguration, &'static str>)
        ensures
            match jobs {
                Ok(j) => jobs_of_json(json_models(items@)) == Ok::<Seq<JobModel>, Seq<char>>(j@),
                Err(e) => jobs_of_json(json_models(items@)) == Err::<Seq<JobModel>, Seq<char>>(
                    e@,
                ),
            },
    {
        let ghost models = json_models(items@);
        let mut jobs = JobsConfiguration::new();
        let mut i: usize = 0;
        proof {
            assert(models.take(0) =~= Seq::<JsonValue>::empty());
        }
        while i < items.len()
            invariant
                i <= items.len(),
                models == json_models(items@),
                jobs_of_json(models.take(i as int)) == Ok::<Seq<JobModel>, Seq<char>>(jobs@),
            decreases items.len() - i,
        {
            proof {
                assert(models.take(i + 1).drop_last() =~= models.take(i as int));
                assert(models.take(i + 1).last() == items@[i as int]@);
            }
            match create_job_config(&items[i]) {
                Ok(job) => {
                    jobs.insert(job);
                },
                Err(e) => {
                    proof {
                        assert(jobs_of_json(models.take(i + 1)) == Err::<
                            Seq<JobModel>,
                            Seq<char>,
                        >(e@));
                        lemma_jobs_error(models, i + 1, e@);
                    }
                    return Err(e);
                },
            }
            i = i + 1;
        }
        proof {
            assert(models.take(items@.len() as int) =~= models);
        }
        Ok(jobs)
    }

    /// The jobs that a document declares under `jobs`.
    pub fn from_document(document: &Json) -> (jobs: Result<JobsConfiguration, &'static str>)
        ensures
            match jobs {
                Ok(j) => jobs_of_document(document@) == Ok::<Seq<JobModel>, Seq<char>>(j@),
                Err(e) => jobs_of_document(document@) == Err::<Seq<JobModel>, Seq<char>>(e@),
            },
    {
        match document.get("jobs") {
            None => Err("Jobs value not found."),
            Some(jobs_arr) => match jobs_arr.as_array() {
                Some(jobs) => {
                    proof {
                        assert(json_models(jobs@) =~= jobs_arr@.items()->Some_0);
                    }
                    JobsConfiguration::from_items(jobs)
                },
                None => Err("Jobs value is not an array."),
            },
        }
    }

    /// The jobs that the text of a jobs document declares. Byte order marks
    /// at the beginning of the text are passed over.
    pub fn load(text: &str) -> (jobs: Result<JobsConfiguration, &'static str>)
        ensures
            match jobs {
                Ok(j) => jobs_of_text(text@) == Ok::<Seq<JobModel>, Seq<char>>(j@),
                Err(e) => jobs_of_text(text@) == Err::<Seq<JobModel>, Seq<char>>(e@),
            },
    {
        load_jobs_config(text)
    }
}

/// The jobs that the text of a jobs document declares.
pub fn load_jobs_config(text: &str) -> (jobs: Result<JobsConfiguration, &'static str>)
    ensures
        match jobs {
            Ok(j) => jobs_of_text(text@) == Ok::<Seq<JobModel>, Seq<char>>(j@),
            Err(e) => jobs_of_text(text@) == Err::<Seq<JobModel>, Seq<char>>(e@),
        },
{
    let config_json = strip_bom(text);
    match Json::parse(config_json.as_str()) {
        Some(json) => JobsConfiguration::from_document(&json),
        None => Err("Error parsing config"),
    }
}

/// The handler that a route object declares under the type `kind`.
pub fn create_handler(route_obj: &Json, kind: &String) -> (handler: Result<
    RouteHandler,
    &'static str,
>)
    ensures
        match handler {
            Ok(h) => handler_of_json(route_obj@, kind@) == Ok::<Handler, Seq<char>>(h@),
            Err(e) => handler_of_json(route_obj@, kind@) == Err::<Handler, Seq<char>>(e@),
        },
{
    if is_text(kind, "static") {
        match (route_obj.get("content_path"), route_obj.get("content_type")) {
            (Some(content_path), Some(content_type)) => Ok(
                RouteHandler::create_static(get_string(content_path), get_string(content_type)),
            ),
            (None, _) => Err("Missing content path"),
            (_, None) => Err("Missing content type"),
        }
    } else if is_text(kind, "command") {
        match (route_obj.get("command_name"), route_obj.get("args")) {
            (Some(name), Some(args)) => Ok(
                RouteHandler::create_command(
                    get_string(name),
                    args.texts(),
                    ResponseFormatter::JsonLines,
                ),
            ),
            (None, _) => Err("Missing command name"),
            (_, None) => Err("Missing args"),
        }
    } else if is_text(kind, "job") {
        match (route_obj.get("name"), route_obj.get("args")) {
            (Some(name), Some(args)) => Ok(
                RouteHandler::create_job(get_string(name), args.texts()),
            ),
            (None, _) => Err("Missing command name"),
            (_, None) => Err("Missing args"),
        }
    } else {
        Err("Unknown route type")
    }
}

/// The route that a JSON value declares.
pub fn create_route_from_value(route_obj: &Json) -> (route: Result<Route, &'static str>)
    ensures
        match route {
            Ok(r) => route_of_json(route_obj@) == Ok::<RouteModel, Seq<char>>(r@),
            Err(e) => route_of_json(route_obj@) == Err::<RouteModel, Seq<char>>(e@),
        },
{
    if !route_obj.is_object() {
        return Err("Json value is not a object.");
    }
    match (route_obj.get("regex"), route_obj.get("type")) {
        (Some(regex), Some(route_type)) => {
            let kind = get_string(route_type);
            match create_handler(route_obj, &kind) {
                Ok(handler) => Route::new(get_string(regex), handler),
                Err(e) => Err(e),
            }
        },
        (None, _) => Err("Missing route regex"),
        (_, None) => Err("Missing route type"),
    }
}

/// The routes that the items of a `routes` array declare.
pub fn create_routes(items: &Vec<Json>) -> (routes: Result<RouteMap, &'static str>)
    ensures
        match routes {
            Ok(r) => routes_of_items(json_models(items@)) == Ok::<Seq<RouteModel>, Seq<char>>(r@),
            Err(e) => routes_of_items(json_models(items@)) == Err::<Seq<RouteModel>, Seq<char>>(
                e@,
            ),
        },
{
    let ghost models = json_models(items@);
    let mut routes: Vec<Route> = Vec::new();
    let mut i: usize = 0;
    proof {
        assert(models.take(0) =~= Seq::<JsonValue>::empty());
        assert(routes@.map_values(|route: Route| route@) =~= Seq::<RouteModel>::empty());
    }
    while i < items.len()
        invariant
            i <= items.len(),
            models == json_models(items@),
            routes_of_items(models.take(i as int)) == Ok::<Seq<RouteModel>, Seq<char>>(
                routes@.map_values(|route: Route| route@),
            ),
        decreases items.len() - i,
    {
        proof {
            assert(models.take(i + 1).drop_last() =~= models.take(i as int));
            assert(models.take(i + 1).last() == items@[i as int]@);
        }
        match create_route_from_value(&items[i]) {
            Ok(route) => {
                let ghost before = routes@;
                routes.push(route);
                proof {
                    assert(routes@.map_values(|route: Route| route@) =~= before.map_values(
                        |route: Route| route@,
                    ).push(route@));
                }
            },
            Err(e) => {
                proof {
                    assert(routes_of_items(models.take(i + 1)) == Err::<
                        Seq<RouteModel>,
                        Seq<char>,
                    >(e@));
                    lemma_routes_error(models, i + 1, e@);
                }
                return Err(e);
            },
        }
        i = i + 1;
    }
    proof {
        assert(models.take(items@.len() as int) =~= models);
    }
    Ok(RouteMap::new(routes))
}

/// The routes that a JSON value declares.
pub fn create_route_map(routes_array: &Json) -> (routes: Result<RouteMap, &'static str>)
    ensures
        match routes {
            Ok(r) => routes_of_json(routes_array@) == Ok::<Seq<RouteModel>, Seq<char>>(r@),
            Err(e) => routes_of_json(routes_array@) == Err::<Seq<RouteModel>, Seq<char>>(e@),
        },
{
    match routes_array.as_array() {
        None => Err("Routes value is not an array"),
        Some(ra) => {
            proof {
                assert(json_models(ra@) =~= routes_array@.items()->Some_0);
            }
            create_routes(ra)
        },
    }
}

/// The configuration that the text of a configuration document declares.
pub fn load_config(text: &str) -> (configuration: Result<Configuration, &'static str>)
    ensures
        match configuration {
            Ok(c) => configuration_of_text(text@) == Ok::<ConfigurationModel, Seq<char>>(c@),
            Err(e) => configuration_of_text(text@) == Err::<ConfigurationModel, Seq<char>>(e@),
        },
{
    let config_json = strip_bom(text);
    match Json::parse(config_json.as_str()) {
        Some(json) => {
            let name = get_string_at(&json, "name");
            let address = get_string_at(&json, "address");
            let routes = match json.get("routes") {
                Some(routes_obj) => create_route_map(routes_obj),
                None => create_route_map(&Json::Null),
            };
            match routes {
                Ok(routes) => Ok(Configuration { name, address, routes }),
                Err(e) => Err(e),
            }
        },
        None => Err("Error parsing config"),
    }
}

impl Configuration {
    /// The configuration that the text of a configuration document
    /// declares. Byte order marks at the beginning of the text are passed
    /// over.
    pub fn load(text: &str) -> (configuration: Result<Configuration, &'static str>)
        ensures
            match configuration {
                Ok(c) => configuration_of_text(text@) == Ok::<ConfigurationModel, Seq<char>>(c@),
                Err(e) => configuration_of_text(text@) == Err::<ConfigurationModel, Seq<char>>(
                    e@,
                ),
            },
    {
        load_config(text)
    }
}

} // verus!
