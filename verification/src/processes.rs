//! Which process, and which imports and exports of it, a caller means.

use vstd::prelude::*;

use crate::arguments;
use crate::json::{Json, JsonView};
use crate::pe::{RuntimeImport, RuntimeImportView};
use crate::requests;
use crate::seqs;
use crate::snapshot::{ProcessInfo, ProcessInfoView};
use crate::text;

verus! {

/// Whether a text holds another, whatever the case of ASCII letters.
pub open spec fn holds(s: Seq<char>, needle: Seq<char>) -> bool {
    text::contains_text(text::lowered(s), text::lowered(needle))
}

/// Whether a text holds another, whatever the case of ASCII letters.
pub fn contains_ignoring_case(s: &str, needle: &str) -> (found: bool)
    ensures
        found == holds(s@, needle@),
{
    text::contains(&text::lowered_chars(s), &text::lowered_chars(needle))
}

/// What a search for a process asks: any of these marks one.
#[derive(Debug, PartialEq, Eq)]
pub struct ProcessesFindRequest {
    pub name_contains: String,
    pub exact_name: Option<String>,
    pub pid: Option<u32>,
    pub limit: usize,
}

#[verifier::ext_equal]
pub struct ProcessesFindRequestView {
    pub name_contains: Seq<char>,
    pub exact_name: Option<Seq<char>>,
    pub pid: Option<u32>,
    pub limit: usize,
}

impl DeepView for ProcessesFindRequest {
    type V = ProcessesFindRequestView;

    open spec fn deep_view(&self) -> ProcessesFindRequestView {
        ProcessesFindRequestView {
            name_contains: self.name_contains@,
            exact_name: self.exact_name.deep_view(),
            pid: self.pid,
            limit: self.limit,
        }
    }
}

impl ProcessesFindRequestView {
    /// Whether a process is looked for.
    pub open spec fn marks(self, process: ProcessInfoView) -> bool {
        ||| self.pid == Some(process.pid)
        ||| (self.exact_name matches Some(name) && text::lowered(process.name) == text::lowered(
            name,
        ))
        ||| self.name_contains.len() > 0 && holds(process.name, self.name_contains)
    }
}

/// A process identifier where a number is one.
pub open spec fn pid_of(number: Option<u64>) -> Option<u32> {
    match number {
        Some(n) => if n <= u32::MAX {
            Some(n as u32)
        } else {
            None
        },
        None => None,
    }
}

/// What is asked; a search that asks for nothing is refused.
pub open spec fn processes_find_asked(given: JsonView) -> Result<
    ProcessesFindRequestView,
    Seq<char>,
> {
    let name_contains = match given.get_text("name_contains"@) {
        Some(name) => name,
        None => ""@,
    };
    let exact_name = given.get_text("exact_name"@);
    let pid = pid_of(given.get_unsigned("pid"@));
    if name_contains.len() == 0 && exact_name is None && pid is None {
        Err("processes_find requires name_contains, exact_name, or pid"@)
    } else {
        Ok(
            ProcessesFindRequestView {
                name_contains,
                exact_name,
                pid,
                limit: arguments::usize_or(given, "limit"@, 50),
            },
        )
    }
}

pub fn processes_find_request(given: &Json) -> (result: Result<ProcessesFindRequest, String>)
    ensures
        requests::asked(result) == processes_find_asked(given.deep_view()),
{
    let name_contains = match given.get_str("name_contains") {
        Some(name) => name,
        None => "",
    };
    let exact_name = match given.get_str("exact_name") {
        Some(name) => Some(name.to_string()),
        None => None,
    };
    let pid: Option<u32> = match given.get_u64("pid") {
        Some(n) => {
            if n <= u32::MAX as u64 {
                Some(n as u32)
            } else {
                None
            }
        },
        None => None,
    };
    let limit: usize = arguments::optional_usize(given, "limit", 50);
    if text::chars_of(name_contains).len() == 0 && exact_name.is_none() && pid.is_none() {
        return Err("processes_find requires name_contains, exact_name, or pid".to_string());
    }
    Ok(ProcessesFindRequest { name_contains: name_contains.to_string(), exact_name, pid, limit })
}

/// The processes that are looked for.
pub open spec fn marked(request: ProcessesFindRequestView) -> spec_fn(ProcessInfoView) -> Seq<
    ProcessInfoView,
> {
    |process: ProcessInfoView|
        if request.marks(process) {
            seq![process]
        } else {
            Seq::empty()
        }
}

/// A limit below which a search does not stop: it stops behind the first find.
pub open spec fn at_least_one(limit: usize) -> int {
    if limit == 0 {
        1
    } else {
        limit as int
    }
}

/// The processes that a search finds.
pub open spec fn found_processes(
    processes: Seq<ProcessInfoView>,
    request: ProcessesFindRequestView,
) -> Seq<ProcessInfoView> {
    seqs::capped(processes.flat_map(marked(request)), at_least_one(request.limit))
}

fn is_marked(request: &ProcessesFindRequest, process: &ProcessInfo) -> (is: bool)
    ensures
        is == request.deep_view().marks(process.deep_view()),
{
    if let Some(pid) = request.pid {
        if pid == process.pid {
            return true;
        }
    }
    if let Some(name) = &request.exact_name {
        if text::same_ignoring_case(&process.name, name) {
            return true;
        }
    }
    text::chars_of(&request.name_contains).len() > 0 && contains_ignoring_case(
        &process.name,
        &request.name_contains,
    )
}

/// The processes that a search finds.
pub fn find_processes(processes: &Vec<ProcessInfo>, request: &ProcessesFindRequest) -> (found: Vec<
    ProcessInfo,
>)
    ensures
        found.deep_view() == found_processes(processes.deep_view(), request.deep_view()),
{
    let ghost all = processes.deep_view();
    let ghost f = marked(request.deep_view());
    let ghost cap = at_least_one(request.limit);
    let limit: usize = if request.limit == 0 {
        1
    } else {
        request.limit
    };
    let mut found: Vec<ProcessInfo> = Vec::new();
    let mut i: usize = 0;
    proof {
        seqs::lemma_flat_map_ends(all, f);
        assert(found.deep_view() =~= all.take(0).flat_map(f));
    }
    while i < processes.len() && found.len() < limit
        invariant
            i <= processes.len(),
            all == processes.deep_view(),
            all.len() == processes@.len(),
            f == marked(request.deep_view()),
            found.deep_view() == all.take(i as int).flat_map(f),
            found.deep_view().len() == found@.len(),
            found@.len() <= limit,
        decreases processes.len() - i,
    {
        let ghost before = found.deep_view();
        proof {
            seqs::lemma_flat_map_step(all, i as int, f);
            assert(all[i as int] == processes@[i as int].deep_view());
        }
        if is_marked(request, &processes[i]) {
            found.push(processes[i].clone());
            proof {
                assert(found.deep_view() =~= before + f(all[i as int]));
            }
        } else {
            proof {
                assert(before =~= before + f(all[i as int]));
            }
        }
        i += 1;
    }
    proof {
        seqs::lemma_flat_map_ends(all, f);
        assert(seqs::capped(found.deep_view(), cap) =~= found.deep_view());
        if i < processes.len() {
            seqs::lemma_flat_map_full(all, i as int, f, cap);
        } else {
            assert(all.take(i as int) =~= all);
        }
    }
    found
}

/// What an attachment names: a process identifier, or a name.
#[derive(Debug, PartialEq, Eq)]
pub struct MemAttachRequest {
    pub pid: Option<u32>,
    pub process: Option<String>,
}

#[verifier::ext_equal]
pub struct MemAttachRequestView {
    pub pid: Option<u32>,
    pub process: Option<Seq<char>>,
}

impl DeepView for MemAttachRequest {
    type V = MemAttachRequestView;

    open spec fn deep_view(&self) -> MemAttachRequestView {
        MemAttachRequestView { pid: self.pid, process: self.process.deep_view() }
    }
}

/// What is asked; without an identifier there must be a name.
pub open spec fn mem_attach_asked(given: JsonView) -> Result<MemAttachRequestView, Seq<char>> {
    let process = match arguments::optional_text(given, "process"@) {
        Some(name) => Some(name),
        None => arguments::optional_text(given, "name"@),
    };
    match given.get_unsigned("pid"@) {
        Some(n) => if n <= u32::MAX {
            Ok(MemAttachRequestView { pid: Some(n as u32), process })
        } else {
            Err("argument out of u32 range: pid"@)
        },
        None => if process is None {
            Err(
                "missing target: pass `pid`, or `process` with the target image name or a substring"@,
            )
        } else {
            Ok(MemAttachRequestView { pid: None, process })
        },
    }
}

pub fn mem_attach_request(given: &Json) -> (result: Result<MemAttachRequest, String>)
    ensures
        requests::asked(result) == mem_attach_asked(given.deep_view()),
{
    let name = match arguments::optional_str(given, "process") {
        Some(name) => Some(name),
        None => arguments::optional_str(given, "name"),
    };
    let process = match name {
        Some(name) => Some(name.to_string()),
        None => None,
    };
    match given.get_u64("pid") {
        Some(n) => {
            if n <= u32::MAX as u64 {
                Ok(MemAttachRequest { pid: Some(n as u32), process })
            } else {
                Err("argument out of u32 range: pid".to_string())
            }
        },
        None => {
            if process.is_none() {
                return Err(
                    "missing target: pass `pid`, or `process` with the target image name or a substring".to_string(),
                );
            }
            Ok(MemAttachRequest { pid: None, process })
        },
    }
}

/// Whether a process has a name, whatever its case.
pub open spec fn is_named(name: Seq<char>) -> spec_fn(ProcessInfoView) -> bool {
    |process: ProcessInfoView| text::lowered(process.name) == text::lowered(name)
}

/// Whether the name of a process holds a text, whatever its case.
pub open spec fn is_like(name: Seq<char>) -> spec_fn(ProcessInfoView) -> bool {
    |process: ProcessInfoView| holds(process.name, name)
}

/// The first process that is wanted.
pub open spec fn first_pid(
    processes: Seq<ProcessInfoView>,
    wanted: spec_fn(ProcessInfoView) -> bool,
) -> Option<u32> {
    match seqs::first_from(processes, 0, wanted) {
        Some(i) => Some(processes[i].pid),
        None => None,
    }
}

/// The first process with a name.
pub fn process_named(processes: &Vec<ProcessInfo>, name: &str) -> (pid: Option<u32>)
    ensures
        pid == first_pid(processes.deep_view(), is_named(name@)),
{
    let ghost all = processes.deep_view();
    let ghost wanted = is_named(name@);
    let mut i: usize = 0;
    while i < processes.len()
        invariant
            i <= processes.len(),
            all == processes.deep_view(),
            all.len() == processes@.len(),
            wanted == is_named(name@),
            seqs::first_from(all, 0, wanted) == seqs::first_from(all, i as int, wanted),
        decreases processes.len() - i,
    {
        proof {
            assert(all[i as int] == processes@[i as int].deep_view());
        }
        if text::same_ignoring_case(&processes[i].name, name) {
            return Some(processes[i].pid);
        }
        i += 1;
    }
    None
}

/// The first process whose name holds a text.
pub fn process_like(processes: &Vec<ProcessInfo>, name: &str) -> (pid: Option<u32>)
    ensures
        pid == first_pid(processes.deep_view(), is_like(name@)),
{
    let ghost all = processes.deep_view();
    let ghost wanted = is_like(name@);
    let mut i: usize = 0;
    while i < processes.len()
        invariant
            i <= processes.len(),
            all == processes.deep_view(),
            all.len() == processes@.len(),
            wanted == is_like(name@),
            seqs::first_from(all, 0, wanted) == seqs::first_from(all, i as int, wanted),
        decreases processes.len() - i,
    {
        proof {
            assert(all[i as int] == processes@[i as int].deep_view());
        }
        if contains_ignoring_case(&processes[i].name, name) {
            return Some(processes[i].pid);
        }
        i += 1;
    }
    None
}

/// A process with the name that is asked for is preferred to one that only holds
/// it; and a process that has the name also holds it.
pub proof fn law_named_is_like(processes: Seq<ProcessInfoView>, name: Seq<char>)
    ensures
        first_pid(processes, is_named(name)) is Some ==> first_pid(processes, is_like(name))
            is Some,
{
    seqs::lemma_first_from(processes, 0, is_named(name));
    seqs::lemma_first_from(processes, 0, is_like(name));
    if let Some(i) = seqs::first_from(processes, 0, is_named(name)) {
        let s = text::lowered(processes[i].name);
        assert(text::stands_at(s, text::lowered(name), 0)) by {
            assert(s.subrange(0, s.len() as int) =~= s);
        }
        assert(is_like(name)(processes[i]));
    }
}

/// What to say where no process is found.
pub fn process_not_found(name: &str) -> (message: String)
    ensures
        message@ == "process not found: "@ + name@,
{
    arguments::message("process not found: ", name)
}

/// Which of the exports a caller means: of which module, and with which name.
#[derive(Debug, PartialEq, Eq)]
pub struct ResolveApiTargetsRequest {
    pub pid: u32,
    pub module_name: Option<String>,
    pub name_contains: String,
    pub max_results: usize,
}

#[verifier::ext_equal]
pub struct ResolveApiTargetsRequestView {
    pub pid: u32,
    pub module_name: Option<Seq<char>>,
    pub name_contains: Seq<char>,
    pub max_results: usize,
}

impl DeepView for ResolveApiTargetsRequest {
    type V = ResolveApiTargetsRequestView;

    open spec fn deep_view(&self) -> ResolveApiTargetsRequestView {
        ResolveApiTargetsRequestView {
            pid: self.pid,
            module_name: self.module_name.deep_view(),
            name_contains: self.name_contains@,
            max_results: self.max_results,
        }
    }
}

/// The place of the first mark between a module and a name.
pub open spec fn mark_at(s: Seq<char>, from: int) -> Option<int> {
    seqs::first_from(s, from, |c: char| c == '!')
}

/// The module of a full name such as `ws2_32!send`.
pub open spec fn api_module(api: Option<Seq<char>>) -> Option<Seq<char>> {
    match api {
        Some(s) => match mark_at(s, 0) {
            Some(i) => Some(s.take(i)),
            None => None,
        },
        None => None,
    }
}

/// The name in a full name such as `ws2_32!send`; without a mark, the whole of it.
pub open spec fn api_name(api: Option<Seq<char>>) -> Option<Seq<char>> {
    match api {
        Some(s) => match mark_at(s, 0) {
            Some(i) => Some(s.skip(i + 1)),
            None => Some(s),
        },
        None => None,
    }
}

/// The first of two, where there is one.
pub open spec fn either<T>(first: Option<T>, second: Option<T>) -> Option<T> {
    match first {
        Some(value) => Some(value),
        None => second,
    }
}

/// What is asked; a module and a name that are given for themselves go before those
/// of a full name.
pub open spec fn resolve_api_targets_asked(given: JsonView) -> Result<
    ResolveApiTargetsRequestView,
    Seq<char>,
> {
    let api = arguments::optional_text(given, "api"@);
    let explicit = either(
        arguments::optional_text(given, "name"@),
        arguments::optional_text(given, "name_contains"@),
    );
    match arguments::u32_argument(given, "pid"@) {
        Err(message) => Err(message),
        Ok(pid) => match either(explicit, api_name(api)) {
            Some(name_contains) => Ok(
                ResolveApiTargetsRequestView {
                    pid,
                    module_name: either(
                        arguments::optional_text(given, "module_name"@),
                        api_module(api),
                    ),
                    name_contains,
                    max_results: arguments::usize_or(given, "max_results"@, 50),
                },
            ),
            None => Err("resolve_api_targets requires api, name, or name_contains"@),
        },
    }
}

/// The module and the name of a full name.
fn split_api(api: &str) -> (parts: (Option<String>, String))
    ensures
        parts.0.deep_view() == api_module(Some(api@)),
        Some(parts.1@) == api_name(Some(api@)),
{
    let chars = text::chars_of(api);
    let mut i: usize = 0;
    let ghost is_mark = |c: char| c == '!';
    while i < chars.len()
        invariant
            i <= chars.len(),
            chars@ == api@,
            is_mark == (|c: char| c == '!'),
            mark_at(api@, 0) == mark_at(api@, i as int),
        decreases chars.len() - i,
    {
        if chars[i] == '!' {
            let module = text::text_of(&chars[0..i]);
            let name = text::text_of(&chars[i + 1..chars.len()]);
            proof {
                assert(mark_at(api@, i as int) == Some(i as int));
                assert(chars@.subrange(0, i as int) =~= api@.take(i as int));
                assert(chars@.subrange(i + 1, chars@.len() as int) =~= api@.skip(i + 1));
            }
            return (Some(module), name);
        }
        i += 1;
    }
    (None, api.to_string())
}

pub fn resolve_api_targets_request(given: &Json) -> (result: Result<
    ResolveApiTargetsRequest,
    String,
>)
    ensures
        requests::asked(result) == resolve_api_targets_asked(given.deep_view()),
{
    let pid: u32 = arguments::required_u32(given, "pid")?;
    let max_results: usize = arguments::optional_usize(given, "max_results", 50);
    let parts = match arguments::optional_str(given, "api") {
        Some(api) => {
            let parts = split_api(api);
            (parts.0, Some(parts.1))
        },
        None => (None, None),
    };
    let explicit = match arguments::optional_str(given, "name") {
        Some(name) => Some(name),
        None => arguments::optional_str(given, "name_contains"),
    };
    let module_name = match arguments::optional_str(given, "module_name") {
        Some(name) => Some(name.to_string()),
        None => parts.0,
    };
    let name_contains = match explicit {
        Some(name) => name.to_string(),
        None => match parts.1 {
            Some(name) => name,
            None => {
                return Err(
                    "resolve_api_targets requires api, name, or name_contains".to_string(),
                );
            },
        },
    };
    Ok(ResolveApiTargetsRequest { pid, module_name, name_contains, max_results })
}

/// Whether an import has a name and a library that hold what is asked for.
pub open spec fn import_wanted(
    name_contains: Option<Seq<char>>,
    dll_contains: Option<Seq<char>>,
    import: RuntimeImportView,
) -> bool {
    &&& name_contains matches Some(needle) ==> holds(import.name, needle)
    &&& dll_contains matches Some(needle) ==> holds(import.dll, needle)
}

/// The imports that are wanted.
pub open spec fn wanted_imports(
    name_contains: Option<Seq<char>>,
    dll_contains: Option<Seq<char>>,
) -> spec_fn(RuntimeImportView) -> Seq<RuntimeImportView> {
    |import: RuntimeImportView|
        if import_wanted(name_contains, dll_contains, import) {
            seq![import]
        } else {
            Seq::empty()
        }
}

/// The imports that are wanted, up to a limit.
pub open spec fn filtered_imports(
    imports: Seq<RuntimeImportView>,
    name_contains: Option<Seq<char>>,
    dll_contains: Option<Seq<char>>,
    limit: usize,
) -> Seq<RuntimeImportView> {
    seqs::capped(
        imports.flat_map(wanted_imports(name_contains, dll_contains)),
        at_least_one(limit),
    )
}

/// How many imports are looked at for a number that is wanted: four times as many,
/// as far as a size reaches.
pub open spec fn import_reach(max_results: usize) -> usize {
    if max_results * 4 > usize::MAX {
        usize::MAX
    } else {
        (max_results * 4) as usize
    }
}

pub fn imports_to_read(max_results: usize) -> (count: usize)
    ensures
        count == import_reach(max_results),
{
    match max_results.checked_mul(4) {
        Some(count) => count,
        None => usize::MAX,
    }
}

fn holds_if_asked(s: &str, needle: &Option<String>) -> (held: bool)
    ensures
        held == (needle.deep_view() matches Some(wanted) ==> holds(s@, wanted)),
{
    match needle {
        Some(needle) => contains_ignoring_case(s, needle),
        None => true,
    }
}

/// The imports that are wanted, up to a limit.
pub fn filter_imports(
    imports: &Vec<RuntimeImport>,
    name_contains: &Option<String>,
    dll_contains: &Option<String>,
    limit: usize,
) -> (found: Vec<RuntimeImport>)
    ensures
        found.deep_view() == filtered_imports(
            imports.deep_view(),
            name_contains.deep_view(),
            dll_contains.deep_view(),
            limit,
        ),
{
    let ghost all = imports.deep_view();
    let ghost f = wanted_imports(name_contains.deep_view(), dll_contains.deep_view());
    let ghost cap = at_least_one(limit);
    let most: usize = if limit == 0 {
        1
    } else {
        limit
    };
    let mut found: Vec<RuntimeImport> = Vec::new();
    let mut i: usize = 0;
    proof {
        seqs::lemma_flat_map_ends(all, f);
        assert(found.deep_view() =~= all.take(0).flat_map(f));
    }
    while i < imports.len() && found.len() < most
        invariant
            i <= imports.len(),
            all == imports.deep_view(),
            all.len() == imports@.len(),
            f == wanted_imports(name_contains.deep_view(), dll_contains.deep_view()),
            found.deep_view() == all.take(i as int).flat_map(f),
            found.deep_view().len() == found@.len(),
            found@.len() <= most,
        decreases imports.len() - i,
    {
        let ghost before = found.deep_view();
        proof {
            seqs::lemma_flat_map_step(all, i as int, f);
            assert(all[i as int] == imports@[i as int].deep_view());
        }
        if holds_if_asked(&imports[i].name, name_contains) && holds_if_asked(
            &imports[i].dll,
            dll_contains,
        ) {
            found.push(imports[i].clone());
            proof {
                assert(found.deep_view() =~= before + f(all[i as int]));
            }
        } else {
            proof {
                assert(before =~= before + f(all[i as int]));
            }
        }
        i += 1;
    }
    proof {
        seqs::lemma_flat_map_ends(all, f);
        assert(seqs::capped(found.deep_view(), cap) =~= found.deep_view());
        if i < imports.len() {
            seqs::lemma_flat_map_full(all, i as int, f, cap);
        } else {
            assert(all.take(i as int) =~= all);
        }
    }
    found
}

/// A search finds the processes that have the identifier, have the name, or hold the text in
/// their names, in their order and up to the limit, though never fewer than one.
pub proof fn law_found_processes(
    processes: Seq<ProcessInfoView>,
    request: ProcessesFindRequestView,
)
    ensures
        ({
            let wanted = processes.filter(
                |process: ProcessInfoView|
                    request.pid == Some(process.pid) || (request.exact_name matches Some(name)
                        && text::lowered(name) == text::lowered(process.name)) || (
                    request.name_contains.len() > 0 && text::contains_text(
                        text::lowered(process.name),
                        text::lowered(request.name_contains),
                    )),
            );
            let found = found_processes(processes, request);
            &&& found.is_prefix_of(wanted)
            &&& found.len() == wanted.len() || found.len() == request.limit || (found.len() == 1
                && request.limit == 0)
            &&& found.len() <= request.limit || found.len() == 1
        }),
{
    let wants = |process: ProcessInfoView|
        request.pid == Some(process.pid) || (request.exact_name matches Some(name) && text::lowered(
            name,
        ) == text::lowered(process.name)) || (request.name_contains.len() > 0
            && text::contains_text(
            text::lowered(process.name),
            text::lowered(request.name_contains),
        ));
    let same = |process: ProcessInfoView| process;
    assert forall|process: ProcessInfoView| #[trigger]
        (marked(request))(process) == if wants(process) {
            seq![same(process)]
        } else {
            Seq::empty()
        } by {}
    seqs::lemma_flat_map_filters(processes, marked(request), wants, same);
    let wanted = processes.filter(wants);
    assert(wanted.map_values(same) =~= wanted);
}

/// The process with a name is the first one that is called so, and the process like a name
/// is the first one whose name holds it, whatever the case of the letters.
pub proof fn law_first_pid(processes: Seq<ProcessInfoView>, name: Seq<char>)
    ensures
        match first_pid(processes, is_named(name)) {
            Some(pid) => exists|i: int|
                0 <= i < processes.len() && (#[trigger] processes[i]).pid == pid && text::lowered(
                    processes[i].name,
                ) == text::lowered(name) && forall|j: int|
                    0 <= j < i ==> text::lowered((#[trigger] processes[j]).name) != text::lowered(
                        name,
                    ),
            None => forall|j: int|
                0 <= j < processes.len() ==> text::lowered((#[trigger] processes[j]).name)
                    != text::lowered(name),
        },
        match first_pid(processes, is_like(name)) {
            Some(pid) => exists|i: int|
                0 <= i < processes.len() && (#[trigger] processes[i]).pid == pid
                    && text::contains_text(
                    text::lowered(processes[i].name),
                    text::lowered(name),
                ) && forall|j: int|
                    0 <= j < i ==> !text::contains_text(
                        text::lowered((#[trigger] processes[j]).name),
                        text::lowered(name),
                    ),
            None => forall|j: int|
                0 <= j < processes.len() ==> !text::contains_text(
                    text::lowered((#[trigger] processes[j]).name),
                    text::lowered(name),
                ),
        },
{
    let named = is_named(name);
    let like = is_like(name);
    seqs::lemma_first_from(processes, 0, named);
    seqs::lemma_first_from(processes, 0, like);
    assert forall|j: int| 0 <= j < processes.len() implies named(#[trigger] processes[j]) == (
    text::lowered(processes[j].name) == text::lowered(name)) && like(processes[j])
        == text::contains_text(text::lowered(processes[j].name), text::lowered(name)) by {}
}

/// A full name is a module, a mark and a name, in which the first mark counts; a name
/// without a mark names no module.
pub proof fn law_api_parts(api: Seq<char>)
    ensures
        match api_module(Some(api)) {
            Some(module) => !module.contains('!') && (api_name(Some(api)) matches Some(name)
                && module + seq!['!'] + name == api),
            None => !api.contains('!') && api_name(Some(api)) == Some(api),
        },
        api_module(None) is None,
        api_name(None) is None,
{
    let is_mark = |c: char| c == '!';
    seqs::lemma_first_from(api, 0, is_mark);
    match mark_at(api, 0) {
        Some(i) => {
            let module = api.take(i);
            assert(is_mark(api[i]));
            assert(module + seq!['!'] + api.skip(i + 1) =~= api);
            if module.contains('!') {
                let k = module.index_of('!');
                assert(is_mark(api[k]));
            }
        },
        None => {
            if api.contains('!') {
                let k = api.index_of('!');
                assert(is_mark(api[k]));
            }
        },
    }
}

/// The imports that are wanted are those whose name and whose library hold what is asked of
/// each, in their order and up to the limit, though never fewer than one.
pub proof fn law_filtered_imports(
    imports: Seq<RuntimeImportView>,
    name_contains: Option<Seq<char>>,
    dll_contains: Option<Seq<char>>,
    limit: usize,
)
    ensures
        ({
            let wanted = imports.filter(
                |import: RuntimeImportView|
                    (name_contains matches Some(needle) ==> text::contains_text(
                        text::lowered(import.name),
                        text::lowered(needle),
                    )) && (dll_contains matches Some(needle) ==> text::contains_text(
                        text::lowered(import.dll),
                        text::lowered(needle),
                    )),
            );
            let found = filtered_imports(imports, name_contains, dll_contains, limit);
            &&& found.is_prefix_of(wanted)
            &&& found.len() == wanted.len() || found.len() == limit || (found.len() == 1 && limit
                == 0)
            &&& found.len() <= limit || found.len() == 1
        }),
{
    let wants = |import: RuntimeImportView|
        (name_contains matches Some(needle) ==> text::contains_text(
            text::lowered(import.name),
            text::lowered(needle),
        )) && (dll_contains matches Some(needle) ==> text::contains_text(
            text::lowered(import.dll),
            text::lowered(needle),
        ));
    let same = |import: RuntimeImportView| import;
    let f = wanted_imports(name_contains, dll_contains);
    assert forall|import: RuntimeImportView| #[trigger]
        f(import) == if wants(import) {
            seq![same(import)]
        } else {
            Seq::empty()
        } by {}
    seqs::lemma_flat_map_filters(imports, f, wants, same);
    let wanted = imports.filter(wants);
    assert(wanted.map_values(same) =~= wanted);
}

/// Exports are asked for by a name, of a module where one is told: what is given for itself
/// goes before what a full name says.
pub proof fn law_resolve_api_asked(given: JsonView)
    ensures
        ({
            let api = arguments::optional_text(given, "api"@);
            let name = arguments::optional_text(given, "name"@);
            let part = arguments::optional_text(given, "name_contains"@);
            let module = arguments::optional_text(given, "module_name"@);
            match resolve_api_targets_asked(given) {
                Ok(request) => {
                    &&& arguments::u32_argument(given, "pid"@) == Ok::<u32, Seq<char>>(request.pid)
                    &&& name is Some ==> Some(request.name_contains) == name
                    &&& name is None && part is Some ==> Some(request.name_contains) == part
                    &&& name is None && part is None ==> Some(request.name_contains) == api_name(
                        api,
                    )
                    &&& module is Some ==> request.module_name == module
                    &&& module is None ==> request.module_name == api_module(api)
                    &&& request.max_results == arguments::usize_or(given, "max_results"@, 50)
                },
                Err(_) => arguments::u32_argument(given, "pid"@) is Err || (name is None && part
                    is None && api is None),
            }
        }),
{
}

} // verus!
