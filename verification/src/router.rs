//! Which of the two engines a request goes to, and what is answered where that
//! engine fails.

use vstd::prelude::*;

use crate::evidence::TargetArch;
use crate::json;
use crate::json::{Fields, Json, JsonView};
use crate::processes;
use crate::snapshot::{ProcessInfo, ProcessInfoView};
use crate::text;

verus! {

/// The engine that a request goes to.
#[derive(Debug, Clone, Copy, PartialEq, Eq, Structural)]
pub enum Route {
    X86,
    X64,
}

impl Default for Route {
    fn default() -> (route: Self)
        ensures
            route == Route::X64,
    {
        Self::X64
    }
}

/// Finds out what kind of process is meant.
pub trait TargetResolver {
    fn arch_for_pid(&self, pid: u32) -> Option<TargetArch>;

    fn arch_for_process_query(&self, query: &str) -> Option<TargetArch>;
}

/// What has to be known of a request before it can be routed: nothing, or the kind
/// of a process.
#[derive(Debug, PartialEq, Eq)]
pub enum RouteQuestion {
    Settled,
    Pid(u32),
    Query(String),
}

#[verifier::ext_equal]
pub enum RouteQuestionView {
    Settled,
    Pid(u32),
    Query(Seq<char>),
}

impl DeepView for RouteQuestion {
    type V = RouteQuestionView;

    open spec fn deep_view(&self) -> RouteQuestionView {
        match *self {
            RouteQuestion::Settled => RouteQuestionView::Settled,
            RouteQuestion::Pid(pid) => RouteQuestionView::Pid(pid),
            RouteQuestion::Query(query) => RouteQuestionView::Query(query@),
        }
    }
}

/// The arguments of a tool call.
pub open spec fn call_arguments(request: JsonView) -> JsonView {
    match request.field("params"@).get("arguments"@) {
        Some(arguments) => arguments,
        None => request.field("params"@).field("_meta"@).field("arguments"@),
    }
}

/// The text in a field, where it is more than white space.
pub open spec fn named_process(arguments: JsonView, key: Seq<char>) -> Option<Seq<char>> {
    match arguments.get_text(key) {
        Some(query) => if text::trimmed(query).len() > 0 {
            Some(query)
        } else {
            None
        },
        None => None,
    }
}

/// The process that some arguments name: under the first name that is given.
pub open spec fn named_target(arguments: JsonView) -> RouteQuestionView {
    match named_process(arguments, "process"@) {
        Some(query) => RouteQuestionView::Query(query),
        None => match named_process(arguments, "name"@) {
            Some(query) => RouteQuestionView::Query(query),
            None => match named_process(arguments, "process_name"@) {
                Some(query) => RouteQuestionView::Query(query),
                None => match named_process(arguments, "query"@) {
                    Some(query) => RouteQuestionView::Query(query),
                    None => RouteQuestionView::Settled,
                },
            },
        },
    }
}

/// What has to be known of a request: only a tool call names a process, and an
/// identifier goes before a name.
pub open spec fn question_of(request: JsonView) -> RouteQuestionView {
    if request.get_text("method"@) != Some("tools/call"@) {
        RouteQuestionView::Settled
    } else {
        match processes::pid_of(call_arguments(request).get_unsigned("pid"@)) {
            Some(pid) => RouteQuestionView::Pid(pid),
            None => named_target(call_arguments(request)),
        }
    }
}

fn process_text(arguments: &Json, key: &str) -> (found: Option<String>)
    ensures
        found.deep_view() == named_process(arguments.deep_view(), key@),
{
    match arguments.get_str(key) {
        Some(query) => {
            let chars = text::chars_of(query);
            if text::trim(&chars).len() > 0 {
                Some(query.to_string())
            } else {
                None
            }
        },
        None => None,
    }
}

/// What has to be known of a request before it can be routed.
pub fn route_question(request: &Json) -> (question: RouteQuestion)
    ensures
        question.deep_view() == question_of(request.deep_view()),
{
    match request.get_str("method") {
        Some(method) => {
            if !text::same_text(method, "tools/call") {
                return RouteQuestion::Settled;
            }
        },
        None => {
            return RouteQuestion::Settled;
        },
    }
    let params = request.field("params");
    let arguments = match params.get("arguments") {
        Some(arguments) => arguments,
        None => params.field("_meta").field("arguments"),
    };
    if let Some(n) = arguments.get_u64("pid") {
        if n <= u32::MAX as u64 {
            return RouteQuestion::Pid(n as u32);
        }
    }
    if let Some(query) = process_text(arguments, "process") {
        return RouteQuestion::Query(query);
    }
    if let Some(query) = process_text(arguments, "name") {
        return RouteQuestion::Query(query);
    }
    if let Some(query) = process_text(arguments, "process_name") {
        return RouteQuestion::Query(query);
    }
    if let Some(query) = process_text(arguments, "query") {
        return RouteQuestion::Query(query);
    }
    RouteQuestion::Settled
}

/// The engine for a kind of process: that for 32 bits only where the process is
/// known to be one.
pub open spec fn route_of(arch: Option<TargetArch>) -> Route {
    if arch == Some(TargetArch::X86) {
        Route::X86
    } else {
        Route::X64
    }
}

pub fn route_for_arch(arch: Option<TargetArch>) -> (route: Route)
    ensures
        route == route_of(arch),
{
    match arch {
        Some(TargetArch::X86) => Route::X86,
        Some(TargetArch::X86_64) | None => Route::X64,
    }
}

/// The engine for a request. What the resolver says of the process decides, and
/// where no process is named it is not asked.
pub fn route_for_request<R: TargetResolver>(request: &Json, resolver: &R) -> (route: Route)
    ensures
        match question_of(request.deep_view()) {
            RouteQuestionView::Settled => route == Route::X64,
            RouteQuestionView::Pid(pid) => exists|arch: Option<TargetArch>| #[trigger]
                call_ensures(R::arch_for_pid, (resolver, pid), arch) && route == route_of(arch),
            RouteQuestionView::Query(query) => exists|text: &str, arch: Option<TargetArch>|
                text@ == query && #[trigger] call_ensures(
                    R::arch_for_process_query,
                    (resolver, text),
                    arch,
                ) && route == route_of(arch),
        },
{
    match route_question(request) {
        RouteQuestion::Settled => Route::X64,
        RouteQuestion::Pid(pid) => {
            let arch = resolver.arch_for_pid(pid);
            route_for_arch(arch)
        },
        RouteQuestion::Query(query) => {
            let arch = resolver.arch_for_process_query(&query);
            route_for_arch(arch)
        },
    }
}

/// A request that is no tool call, or that names no process, asks for nothing.
pub proof fn law_untargeted_is_settled(request: JsonView)
    requires
        request.get_text("method"@) != Some("tools/call"@) || (processes::pid_of(
            call_arguments(request).get_unsigned("pid"@),
        ) is None && named_process(call_arguments(request), "process"@) is None && named_process(
            call_arguments(request),
            "name"@,
        ) is None && named_process(call_arguments(request), "process_name"@) is None
            && named_process(call_arguments(request), "query"@) is None),
    ensures
        question_of(request) == RouteQuestionView::Settled,
{
}

/// The process that a text means: the first whose name holds it, whatever the case;
/// white space means none.
pub open spec fn queried_pid(list: Seq<ProcessInfoView>, query: Seq<char>) -> Option<u32> {
    let needle = text::trimmed(query);
    if needle.len() == 0 {
        None
    } else {
        processes::first_pid(list, processes::is_like(needle))
    }
}

pub fn process_for_query(list: &Vec<ProcessInfo>, query: &str) -> (pid: Option<u32>)
    ensures
        pid == queried_pid(list.deep_view(), query@),
{
    let chars = text::chars_of(query);
    let needle = text::trim(&chars);
    if needle.len() == 0 {
        return None;
    }
    processes::process_like(list, &text::text_of(&needle))
}

/// What the files of an engine are called.
#[derive(Debug, Clone, Copy, PartialEq, Eq)]
pub struct BackendNames {
    /// The variable of the environment that names the engine.
    pub env_key: &'static str,
    /// The file next to the router.
    pub sibling: &'static str,
    /// The part of a build tree that the engine lies in.
    pub triple: &'static str,
}

/// What the files of an engine are called.
pub fn backend_names(route: Route) -> (names: BackendNames)
    ensures
        match route {
            Route::X86 => names.env_key@ == "ARGUS_ROUTER_X86"@ && names.sibling@
                == "argus-rs-x86.exe"@ && names.triple@ == "i686-pc-windows-msvc"@,
            Route::X64 => names.env_key@ == "ARGUS_ROUTER_X64"@ && names.sibling@
                == "argus-rs-x64.exe"@ && names.triple@ == "x86_64-pc-windows-msvc"@,
        },
{
    match route {
        Route::X86 => BackendNames {
            env_key: "ARGUS_ROUTER_X86",
            sibling: "argus-rs-x86.exe",
            triple: "i686-pc-windows-msvc",
        },
        Route::X64 => BackendNames {
            env_key: "ARGUS_ROUTER_X64",
            sibling: "argus-rs-x64.exe",
            triple: "x86_64-pc-windows-msvc",
        },
    }
}

/// Where an engine may lie.
pub struct BackendPlaces<P> {
    /// The path that the environment gives.
    pub override_path: Option<P>,
    /// The path next to the router, and whether a file is there.
    pub sibling: P,
    pub sibling_is_file: bool,
    /// The path in a build tree, where there is one, and whether a file is there.
    pub development: Option<P>,
    pub development_is_file: bool,
}

/// Where an engine lies: the environment goes before a file next to the router, and
/// that before a file in a build tree; where there is no file, the engine is
/// expected next to the router.
pub open spec fn chosen_place<P>(places: BackendPlaces<P>) -> P {
    match places.override_path {
        Some(path) => path,
        None => if !places.sibling_is_file && places.development_is_file
            && places.development is Some {
            places.development->0
        } else {
            places.sibling
        },
    }
}

pub fn resolve_backend<P>(places: BackendPlaces<P>) -> (path: P)
    ensures
        path == chosen_place(places),
{
    if let Some(path) = places.override_path {
        return path;
    }
    if !places.sibling_is_file && places.development_is_file {
        if let Some(path) = places.development {
            return path;
        }
    }
    places.sibling
}

/// Where the engines lie.
#[derive(Debug, PartialEq, Eq)]
pub struct RouterPaths<P> {
    x86: P,
    x64: P,
}

impl<P> RouterPaths<P> {
    /// Where the engine of a route lies.
    pub closed spec fn place(self, route: Route) -> P {
        match route {
            Route::X86 => self.x86,
            Route::X64 => self.x64,
        }
    }

    /// The engines around a router.
    pub fn from_router_exe(x86: BackendPlaces<P>, x64: BackendPlaces<P>) -> (paths: Self)
        ensures
            paths.place(Route::X86) == chosen_place(x86),
            paths.place(Route::X64) == chosen_place(x64),
    {
        RouterPaths { x86: resolve_backend(x86), x64: resolve_backend(x64) }
    }

    /// Where the engine of a route lies.
    pub fn exe_for_route(&self, route: Route) -> (path: &P)
        ensures
            *path == self.place(route),
    {
        match route {
            Route::X86 => &self.x86,
            Route::X64 => &self.x64,
        }
    }
}

/// Whether a request wants an answer.
pub open spec fn wants_answer(request: Option<JsonView>) -> bool {
    match request {
        Some(request) => request.get("id"@) is Some,
        None => false,
    }
}

pub fn request_has_id(request: Option<&Json>) -> (has: bool)
    ensures
        has == wants_answer(request.deep_view()),
{
    match request {
        Some(request) => request.get("id").is_some(),
        None => false,
    }
}

/// The identifier of a request, or null.
pub open spec fn id_of(request: Option<JsonView>) -> JsonView {
    match request {
        Some(request) => request.field("id"@),
        None => JsonView::Null,
    }
}

pub fn request_id(request: Option<&Json>) -> (id: Json)
    ensures
        id.deep_view() == id_of(request.deep_view()),
{
    match request {
        Some(request) => request.field("id").copy(),
        None => Json::Null,
    }
}

/// An error of the router.
pub open spec fn router_error(id: JsonView, message: Seq<char>) -> JsonView {
    JsonView::Object(
        json::record()
            .push(
                (
                    "error"@,
                    JsonView::Object(
                        json::record()
                            .push(("code"@, JsonView::Negative((-32000) as i64)))
                            .push(("message"@, JsonView::Text(message))),
                    ),
                ),
            )
            .push(("id"@, id))
            .push(("jsonrpc"@, JsonView::Text("2.0"@))),
    )
}

pub fn error_response(id: Json, message: &str) -> (response: Json)
    ensures
        response.deep_view() == router_error(id.deep_view(), message@),
{
    let error = Fields::new()
        .with("code", Json::Negative(-32000))
        .with("message", Json::text(message))
        .object();
    Fields::new().with("error", error).with("id", id).with("jsonrpc", Json::text("2.0")).object()
}

/// What the router does when an engine has run.
#[derive(Debug, PartialEq, Eq)]
pub enum ForwardAction {
    /// Nothing is answered.
    Silent,
    /// An error is answered.
    Answer(Json),
    /// What the engine wrote is passed on, with a line break where it lacks one.
    Relay { add_newline: bool },
}

/// Whether output ends with a line break.
pub open spec fn ends_line(output: Seq<u8>) -> bool {
    output.len() > 0 && output.last() == 10
}

/// What the router does when an engine has run: its output is passed on; an engine
/// that fails without output is an error, where an answer is wanted.
pub fn forward_action(request: Option<&Json>, output: &[u8], success: bool, backend: &str) -> (
    action: ForwardAction)
    ensures
        if output@.len() > 0 {
            action == (ForwardAction::Relay { add_newline: !ends_line(output@) })
        } else if !success && wants_answer(request.deep_view()) {
            action matches ForwardAction::Answer(response) && response.deep_view()
                == router_error(
                id_of(request.deep_view()),
                "argus backend exited without response: "@ + backend@,
            )
        } else {
            action == ForwardAction::Silent
        },
{
    if output.len() > 0 {
        return ForwardAction::Relay { add_newline: output[output.len() - 1] != 10 };
    }
    if !success && request_has_id(request) {
        let mut message = "argus backend exited without response: ".to_string();
        message.append(backend);
        return ForwardAction::Answer(error_response(request_id(request), &message));
    }
    ForwardAction::Silent
}

/// What to say where an engine cannot be run.
pub open spec fn cannot_run(backend: Seq<char>, error: Seq<char>) -> Seq<char> {
    "failed to run argus backend "@ + backend + ": "@ + error
}

/// What is answered where an engine cannot be run, or what is noted where no answer
/// is wanted.
pub fn failure_action(request: Option<&Json>, backend: &str, error: &str) -> (action: Result<
    Json,
    String,
>)
    ensures
        if wants_answer(request.deep_view()) {
            action matches Ok(response) && response.deep_view() == router_error(
                id_of(request.deep_view()),
                cannot_run(backend@, error@),
            )
        } else {
            action matches Err(note) && note@ == cannot_run(backend@, error@)
        },
{
    let mut message = "failed to run argus backend ".to_string();
    message.append(backend);
    message.append(": ");
    message.append(error);
    if request_has_id(request) {
        Ok(error_response(request_id(request), &message))
    } else {
        Err(message)
    }
}

/// An identifier of a process is asked about before a name, and of the names the first that
/// holds more than white space, in the order `process`, `name`, `process_name` and `query`.
pub proof fn law_question(request: JsonView, named: JsonView)
    requires
        request.get_text("method"@) == Some("tools/call"@),
        named == call_arguments(request),
    ensures
        match processes::pid_of(named.get_unsigned("pid"@)) {
            Some(pid) => question_of(request) == RouteQuestionView::Pid(pid),
            None => {
                let order = seq!["process"@, "name"@, "process_name"@, "query"@];
                &&& forall|k: int|
                    0 <= k < 4 && (#[trigger] named_process(named, order[k])) is Some && (forall|
                        j: int,
                    |
                        0 <= j < k ==> (#[trigger] named_process(named, order[j])) is None)
                        ==> question_of(request) == RouteQuestionView::Query(
                        named_process(named, order[k])->0,
                    )
                &&& (forall|k: int|
                    0 <= k < 4 ==> (#[trigger] named_process(named, order[k])) is None)
                    ==> question_of(request) == RouteQuestionView::Settled
            },
        },
{
    let order = seq!["process"@, "name"@, "process_name"@, "query"@];
    assert(order[0] == "process"@ && order[1] == "name"@ && order[2] == "process_name"@ && order[3]
        == "query"@);
    if processes::pid_of(named.get_unsigned("pid"@)) is None {
        assert forall|k: int|
            0 <= k < 4 && (#[trigger] named_process(named, order[k])) is Some && (forall|j: int|
                0 <= j < k ==> (#[trigger] named_process(named, order[j])) is None)
            implies question_of(request) == RouteQuestionView::Query(
            named_process(named, order[k])->0,
        ) by {
            assert(k > 0 ==> named_process(named, order[0]) is None);
            assert(k > 1 ==> named_process(named, order[1]) is None);
            assert(k > 2 ==> named_process(named, order[2]) is None);
            assert(k == 0 || k == 1 || k == 2 || k == 3);
        }
        if forall|k: int| 0 <= k < 4 ==> (#[trigger] named_process(named, order[k])) is None {
            assert(named_process(named, order[0]) is None);
            assert(named_process(named, order[1]) is None);
            assert(named_process(named, order[2]) is None);
            assert(named_process(named, order[3]) is None);
        }
    }
}

/// A name of a process is the text in its field as it is given, where it holds more than
/// white space.
pub proof fn law_named_process(named: JsonView, key: Seq<char>)
    ensures
        match named.get_text(key) {
            Some(query) => if forall|i: int|
                0 <= i < query.len() ==> text::is_space(#[trigger] query[i]) {
                named_process(named, key) is None
            } else {
                named_process(named, key) == Some(query)
            },
            None => named_process(named, key) is None,
        },
{
    if let Some(query) = named.get_text(key) {
        lemma_blank(query);
    }
}

proof fn lemma_blank(s: Seq<char>)
    ensures
        text::trimmed(s).len() == 0 <==> forall|i: int|
            0 <= i < s.len() ==> text::is_space(#[trigger] s[i]),
    decreases s.len(),
{
    if s.len() > 0 {
        if text::is_space(s[0]) {
            let rest = s.drop_first();
            lemma_blank(rest);
            assert forall|i: int| 0 <= i < rest.len() implies #[trigger] rest[i] == s[i + 1] by {}
            if text::trimmed(s).len() == 0 {
                assert forall|i: int| 0 <= i < s.len() implies text::is_space(#[trigger] s[i]) by {
                    if i > 0 {
                        assert(rest[i - 1] == s[i]);
                    }
                }
            }
            if forall|i: int| 0 <= i < s.len() ==> text::is_space(#[trigger] s[i]) {
                assert forall|i: int| 0 <= i < rest.len() implies text::is_space(
                    #[trigger] rest[i],
                ) by {
                    assert(rest[i] == s[i + 1]);
                }
            }
        } else if text::is_space(s.last()) {
            let rest = s.drop_last();
            lemma_blank(rest);
            assert(rest.len() > 0);
            assert(rest[0] == s[0]);
        }
    }
}

/// Only a process that is known to have addresses of 32 bits goes to the engine for these.
pub proof fn law_route(arch: Option<TargetArch>)
    ensures
        route_of(arch) == Route::X86 <==> arch matches Some(TargetArch::X86),
{
}

/// Where an engine lies: where the environment says, or next to the router, unless there is
/// a file in a build tree only.
pub proof fn law_chosen_place<P>(places: BackendPlaces<P>)
    ensures
        places.override_path matches Some(path) ==> chosen_place(places) == path,
        places.override_path is None && places.sibling_is_file ==> chosen_place(places)
            == places.sibling,
        places.override_path is None && !places.development_is_file ==> chosen_place(places)
            == places.sibling,
        places.override_path is None && !places.sibling_is_file && places.development_is_file ==> (
        places.development matches Some(path) ==> chosen_place(places) == path),
        places.override_path is None && places.development is None ==> chosen_place(places)
            == places.sibling,
{
}

/// A request wants an answer if it has an identifier, which may be null, and the answer bears
/// it.
pub proof fn law_answer_wanted(request: JsonView, id: JsonView)
    ensures
        !wants_answer(None),
        id_of(None) == JsonView::Null,
        request.get("id"@) is None ==> !wants_answer(Some(request)) && id_of(Some(request))
            == JsonView::Null,
        request.get("id"@) == Some(id) ==> wants_answer(Some(request)) && id_of(Some(request))
            == id,
{
}

/// What an error of the router tells: the identifier, the code and the message.
pub proof fn law_router_error(id: JsonView, message: Seq<char>)
    ensures
        ({
            let told = router_error(id, message);
            &&& json::holds(told, "id"@, id)
            &&& json::holds(told, "jsonrpc"@, JsonView::Text("2.0"@))
            &&& told.get("error"@) matches Some(fault) && json::holds(
                fault,
                "code"@,
                JsonView::Negative((-32000) as i64),
            ) && json::holds(fault, "message"@, JsonView::Text(message))
        }),
{
    let told = router_error(id, message);
    let fields = told->Object_0;
    assert(fields[0].0 == "error"@);
    assert(fields[1].0 == "id"@);
    assert(fields[2].0 == "jsonrpc"@);
    json::law_get(told, "error"@);
    assert(fields[0].1->Object_0[0].0 == "code"@);
    assert(fields[0].1->Object_0[1].0 == "message"@);
}

/// Output is passed on as it is if it ends with a line feed.
pub proof fn law_ends_line(output: Seq<u8>)
    ensures
        ends_line(output) <==> seq![0x0au8].is_suffix_of(output),
{
    let end = seq![0x0au8];
    if ends_line(output) {
        assert(output.subrange(output.len() - end.len(), output.len() as int) =~= end);
    }
    if end.is_suffix_of(output) {
        assert(output.subrange(output.len() - 1, output.len() as int)[0] == output.last());
        assert(end[0] == 0x0a);
    }
}

} // verus!
