//! The tools offered to the model in scan and fix sessions, and the routing
//! of a read-only tool call to the filesystem tool that serves it.
use vstd::prelude::*;

use crate::json::{json_pointer_str, json_string_at};
use crate::llm::types::{json_view, JsonValue, JsonView, ToolDef};
use crate::playbook::{PlaybookEntry, PlaybookGroup};
use crate::text::{contains_seq, str_eq};
use crate::tools::error::{tool_error_message_spec, ToolError};

verus! {

pub const LIST_DIRECTORY: &'static str = "list_directory";

pub const READ_FILE: &'static str = "read_file";

pub const SEARCH_TEXT: &'static str = "search_text";

pub const GET_DEPENDENCY_MANIFESTS: &'static str = "get_dependency_manifests";

pub const WRITE_FILE_STAGED: &'static str = "write_file_staged";

pub const SUBMIT_FINDINGS: &'static str = "submit_findings";

pub const SUBMIT_FIX_RESULT: &'static str = "submit_fix_result";

pub const LIST_DIRECTORY_DESCRIPTION: &'static str = "List files and directories under the target codebase (respects .gitignore, skips node_modules/.git/build output). Call with no path filter first to see the project layout.";

pub const READ_FILE_DESCRIPTION: &'static str = "Read the full text contents of one file, given its path relative to the target codebase root (as returned by list_directory).";

pub const SEARCH_TEXT_DESCRIPTION: &'static str = "Search the codebase for a regular expression pattern across all text files. Returns matching file paths, line numbers, and line content. Use this to find candidate locations before reading full files.";

pub const GET_DEPENDENCY_MANIFESTS_DESCRIPTION: &'static str = "Return the contents of every dependency manifest file found in the project (package.json, requirements.txt, Cargo.toml, go.mod, etc). Use this for dependency/supply-chain checks.";

pub const WRITE_FILE_STAGED_DESCRIPTION: &'static str = "Stage a full replacement of one file's contents as the fix. Does not write to disk immediately — the change is shown to the user as a diff and applied afterward. Always read the file first so you know its exact current contents.";

pub const SUBMIT_FINDINGS_DESCRIPTION: &'static str = "Report the final list of findings for this category group. Call this exactly once when you are done investigating — do not report findings as plain text.";

pub const SUBMIT_FIX_RESULT_DESCRIPTION: &'static str = "Call this exactly once when you have staged the fix (via write_file_staged) and are done.";

pub const PATH_DESCRIPTION: &'static str = "File path relative to the target root.";

// ---------------------------------------------------------------------------
// JSON schema building blocks.

pub open spec fn str_v(s: Seq<char>) -> JsonView {
    JsonView::Str(s)
}

/// `{"type": <t>}`
pub open spec fn typed_v(t: Seq<char>) -> JsonView {
    JsonView::Object(seq![("type"@, str_v(t))])
}

/// `{"type": <t>, "description": <d>}`
pub open spec fn described_v(t: Seq<char>, d: Seq<char>) -> JsonView {
    JsonView::Object(seq![("type"@, str_v(t)), ("description"@, str_v(d))])
}

/// `{"type": "object", "properties": {<props>}}`
pub open spec fn object_schema_v(props: Seq<(Seq<char>, JsonView)>) -> JsonView {
    JsonView::Object(seq![("type"@, str_v("object"@)), ("properties"@, JsonView::Object(props))])
}

/// `{"type": "object", "properties": {<props>}, "required": [<required>]}`
pub open spec fn object_schema_req_v(
    props: Seq<(Seq<char>, JsonView)>,
    required: Seq<Seq<char>>,
) -> JsonView {
    JsonView::Object(
        seq![
            ("type"@, str_v("object"@)),
            ("properties"@, JsonView::Object(props)),
            ("required"@, strings_v(required)),
        ],
    )
}

/// A JSON array of strings.
pub open spec fn strings_v(items: Seq<Seq<char>>) -> JsonView {
    JsonView::Array(items.map_values(|s: Seq<char>| JsonView::Str(s)))
}

fn jstr(s: &str) -> (r: JsonValue)
    ensures
        json_view(r) == str_v(s@),
{
    JsonValue::Str(String::from_str(s))
}

fn field(k: &str, v: JsonValue) -> (r: (String, JsonValue))
    ensures
        r.0@ == k@,
        r.1 == v,
{
    (String::from_str(k), v)
}

pub open spec fn fields_view(fields: Seq<(String, JsonValue)>) -> Seq<(Seq<char>, JsonView)> {
    fields.map_values(|p: (String, JsonValue)| (p.0@, json_view(p.1)))
}

fn object(fields: Vec<(String, JsonValue)>) -> (r: JsonValue)
    ensures
        json_view(r) == JsonView::Object(fields_view(fields@)),
{
    let ghost fv = fields@;
    let r = JsonValue::Object(fields);
    proof {
        match json_view(r) {
            JsonView::Object(b) => {
                assert(b =~= fields_view(fv));
            },
            _ => {
                assert(false);
            },
        }
    }
    r
}

fn typed(t: &str) -> (r: JsonValue)
    ensures
        json_view(r) == typed_v(t@),
{
    let f = field("type", jstr(t));
    let v = vec![f];
    proof {
        assert(fields_view(v@) =~= seq![("type"@, str_v(t@))]);
    }
    object(v)
}

/// The views of a sequence of JSON values.
pub open spec fn values_view(items: Seq<JsonValue>) -> Seq<JsonView> {
    items.map_values(|j: JsonValue| json_view(j))
}

fn array(items: Vec<JsonValue>) -> (r: JsonValue)
    ensures
        json_view(r) == JsonView::Array(values_view(items@)),
{
    let ghost iv = items@;
    let r = JsonValue::Array(items);
    proof {
        match json_view(r) {
            JsonView::Array(b) => {
                assert(b =~= values_view(iv));
            },
            _ => {
                assert(false);
            },
        }
    }
    r
}

fn described(t: &str, d: &str) -> (r: JsonValue)
    ensures
        json_view(r) == described_v(t@, d@),
{
    let v = vec![field("type", jstr(t)), field("description", jstr(d))];
    proof {
        assert(fields_view(v@) =~= seq![("type"@, str_v(t@)), ("description"@, str_v(d@))]);
    }
    object(v)
}

/// A JSON array of the given strings.
fn strings(items: &Vec<&str>) -> (r: JsonValue)
    ensures
        json_view(r) == strings_v(items@.map_values(|s: &str| s@)),
{
    let mut out: Vec<JsonValue> = Vec::new();
    let n = items.len();
    let mut i: usize = 0;
    while i < n
        invariant
            n == items@.len(),
            i <= n,
            out@.len() == i,
            forall|k: int| 0 <= k < i ==> #[trigger] json_view(out@[k]) == str_v(items@[k]@),
        decreases n - i,
    {
        out.push(jstr(items[i]));
        i = i + 1;
    }
    proof {
        assert(values_view(out@) =~= items@.map_values(|s: &str| s@).map_values(
            |s: Seq<char>| JsonView::Str(s),
        ));
    }
    array(out)
}

fn object_schema(props: Vec<(String, JsonValue)>) -> (r: JsonValue)
    ensures
        json_view(r) == object_schema_v(fields_view(props@)),
{
    let p = object(props);
    let v = vec![field("type", jstr("object")), field("properties", p)];
    proof {
        assert(fields_view(v@) =~= seq![("type"@, str_v("object"@)), ("properties"@, json_view(p))]);
    }
    object(v)
}

fn object_schema_req(props: Vec<(String, JsonValue)>, required: &Vec<&str>) -> (r: JsonValue)
    ensures
        json_view(r) == object_schema_req_v(
            fields_view(props@),
            required@.map_values(|s: &str| s@),
        ),
{
    let p = object(props);
    let q = strings(required);
    let v = vec![field("type", jstr("object")), field("properties", p), field("required", q)];
    proof {
        assert(fields_view(v@) =~= seq![
            ("type"@, str_v("object"@)),
            ("properties"@, json_view(p)),
            ("required"@, json_view(q)),
        ]);
    }
    object(v)
}

/// A tool definition as mathematical values.
pub struct ToolView {
    pub name: Seq<char>,
    pub description: Seq<char>,
    pub parameters: JsonView,
}

pub open spec fn tool_view(t: ToolDef) -> ToolView {
    ToolView {
        name: t.function.name@,
        description: t.function.description@,
        parameters: json_view(t.function.parameters),
    }
}

pub open spec fn tool_views(ts: Seq<ToolDef>) -> Seq<ToolView> {
    ts.map_values(|t: ToolDef| tool_view(t))
}

pub open spec fn list_directory_tool_v() -> ToolView {
    ToolView {
        name: LIST_DIRECTORY@,
        description: LIST_DIRECTORY_DESCRIPTION@,
        parameters: object_schema_v(seq![]),
    }
}

pub open spec fn read_file_tool_v() -> ToolView {
    ToolView {
        name: READ_FILE@,
        description: READ_FILE_DESCRIPTION@,
        parameters: object_schema_req_v(
            seq![("path"@, described_v("string"@, PATH_DESCRIPTION@))],
            seq!["path"@],
        ),
    }
}

pub open spec fn search_text_tool_v() -> ToolView {
    ToolView {
        name: SEARCH_TEXT@,
        description: SEARCH_TEXT_DESCRIPTION@,
        parameters: object_schema_req_v(
            seq![("pattern"@, described_v("string"@, "A regular expression (Rust regex syntax)."@))],
            seq!["pattern"@],
        ),
    }
}

pub open spec fn get_dependency_manifests_tool_v() -> ToolView {
    ToolView {
        name: GET_DEPENDENCY_MANIFESTS@,
        description: GET_DEPENDENCY_MANIFESTS_DESCRIPTION@,
        parameters: object_schema_v(seq![]),
    }
}

pub open spec fn write_file_staged_tool_v() -> ToolView {
    ToolView {
        name: WRITE_FILE_STAGED@,
        description: WRITE_FILE_STAGED_DESCRIPTION@,
        parameters: object_schema_req_v(
            seq![
                ("path"@, described_v("string"@, PATH_DESCRIPTION@)),
                (
                    "newContent"@,
                    described_v(
                        "string"@,
                        "The complete new contents of the file after the fix."@,
                    ),
                ),
            ],
            seq!["path"@, "newContent"@],
        ),
    }
}

pub open spec fn submit_fix_result_tool_v() -> ToolView {
    ToolView {
        name: SUBMIT_FIX_RESULT@,
        description: SUBMIT_FIX_RESULT_DESCRIPTION@,
        parameters: object_schema_req_v(
            seq![
                (
                    "summary"@,
                    described_v(
                        "string"@,
                        "One or two sentences describing what was changed and why."@,
                    ),
                ),
                (
                    "filesChanged"@,
                    JsonView::Object(
                        seq![("type"@, str_v("array"@)), ("items"@, typed_v("string"@))],
                    ),
                ),
                (
                    "verificationNotes"@,
                    described_v("string"@, "Why you believe this fully resolves the finding."@),
                ),
            ],
            seq!["summary"@, "filesChanged"@],
        ),
    }
}

/// The ids of a group's checklist entries, in order.
pub open spec fn entry_ids(entries: Seq<PlaybookEntry>) -> Seq<Seq<char>> {
    entries.map_values(|e: PlaybookEntry| e.id@)
}

/// The schema of one submitted piece of evidence.
pub open spec fn evidence_item_v() -> JsonView {
    object_schema_req_v(
        seq![
            ("filePath"@, typed_v("string"@)),
            ("lineStart"@, typed_v("integer"@)),
            ("lineEnd"@, typed_v("integer"@)),
            ("snippet"@, typed_v("string"@)),
        ],
        seq!["filePath"@],
    )
}

/// The schema of one submitted finding, whose `categoryId` must be one of
/// `ids`.
pub open spec fn finding_item_v(ids: Seq<Seq<char>>) -> JsonView {
    object_schema_req_v(
        seq![
            (
                "categoryId"@,
                JsonView::Object(seq![("type"@, str_v("string"@)), ("enum"@, strings_v(ids))]),
            ),
            ("title"@, described_v("string"@, "A short, specific title for this finding."@)),
            (
                "severity"@,
                JsonView::Object(
                    seq![
                        ("type"@, str_v("string"@)),
                        ("enum"@, strings_v(seq!["low"@, "medium"@, "high"@, "critical"@])),
                    ],
                ),
            ),
            (
                "description"@,
                described_v(
                    "string"@,
                    "Plain-English explanation of how this specifically hurts this app."@,
                ),
            ),
            (
                "evidence"@,
                JsonView::Object(seq![("type"@, str_v("array"@)), ("items"@, evidence_item_v())]),
            ),
            (
                "fixGuidance"@,
                described_v(
                    "string"@,
                    "Specific, actionable guidance for fixing this exact finding."@,
                ),
            ),
        ],
        seq!["categoryId"@, "title"@, "severity"@, "description"@, "fixGuidance"@],
    )
}

/// The `submit_findings` tool of a group: its `categoryId` is restricted to
/// the ids of the group's own checklist entries.
pub open spec fn submit_findings_tool_v(entries: Seq<PlaybookEntry>) -> ToolView {
    ToolView {
        name: SUBMIT_FINDINGS@,
        description: SUBMIT_FINDINGS_DESCRIPTION@,
        parameters: object_schema_req_v(
            seq![
                (
                    "findings"@,
                    JsonView::Object(
                        seq![("type"@, str_v("array"@)), ("items"@, finding_item_v(entry_ids(entries)))],
                    ),
                ),
            ],
            seq!["findings"@],
        ),
    }
}

fn list_directory_tool() -> (t: ToolDef)
    ensures
        tool_view(t) == list_directory_tool_v(),
{
    let props: Vec<(String, JsonValue)> = Vec::new();
    proof {
        assert(fields_view(props@) =~= seq![]);
    }
    ToolDef::new(LIST_DIRECTORY, LIST_DIRECTORY_DESCRIPTION, object_schema(props))
}

fn read_file_tool() -> (t: ToolDef)
    ensures
        tool_view(t) == read_file_tool_v(),
{
    let props = vec![field("path", described("string", PATH_DESCRIPTION))];
    let req = vec!["path"];
    proof {
        assert(fields_view(props@) =~= seq![("path"@, described_v("string"@, PATH_DESCRIPTION@))]);
        assert(req@.map_values(|s: &str| s@) =~= seq!["path"@]);
    }
    ToolDef::new(READ_FILE, READ_FILE_DESCRIPTION, object_schema_req(props, &req))
}

fn search_text_tool() -> (t: ToolDef)
    ensures
        tool_view(t) == search_text_tool_v(),
{
    let props = vec![
        field("pattern", described("string", "A regular expression (Rust regex syntax).")),
    ];
    let req = vec!["pattern"];
    proof {
        assert(fields_view(props@) =~= seq![
            ("pattern"@, described_v("string"@, "A regular expression (Rust regex syntax)."@)),
        ]);
        assert(req@.map_values(|s: &str| s@) =~= seq!["pattern"@]);
    }
    ToolDef::new(SEARCH_TEXT, SEARCH_TEXT_DESCRIPTION, object_schema_req(props, &req))
}

fn get_dependency_manifests_tool() -> (t: ToolDef)
    ensures
        tool_view(t) == get_dependency_manifests_tool_v(),
{
    let props: Vec<(String, JsonValue)> = Vec::new();
    proof {
        assert(fields_view(props@) =~= seq![]);
    }
    ToolDef::new(
        GET_DEPENDENCY_MANIFESTS,
        GET_DEPENDENCY_MANIFESTS_DESCRIPTION,
        object_schema(props),
    )
}

fn write_file_staged_tool() -> (t: ToolDef)
    ensures
        tool_view(t) == write_file_staged_tool_v(),
{
    let props = vec![
        field("path", described("string", PATH_DESCRIPTION)),
        field(
            "newContent",
            described("string", "The complete new contents of the file after the fix."),
        ),
    ];
    let req = vec!["path", "newContent"];
    proof {
        assert(fields_view(props@) =~= seq![
            ("path"@, described_v("string"@, PATH_DESCRIPTION@)),
            (
                "newContent"@,
                described_v("string"@, "The complete new contents of the file after the fix."@),
            ),
        ]);
        assert(req@.map_values(|s: &str| s@) =~= seq!["path"@, "newContent"@]);
    }
    ToolDef::new(WRITE_FILE_STAGED, WRITE_FILE_STAGED_DESCRIPTION, object_schema_req(props, &req))
}

fn array_of(t: &str) -> (r: JsonValue)
    ensures
        json_view(r) == JsonView::Object(seq![("type"@, str_v("array"@)), ("items"@, typed_v(t@))]),
{
    let i = typed(t);
    let v = vec![field("type", jstr("array")), field("items", i)];
    proof {
        assert(fields_view(v@) =~= seq![("type"@, str_v("array"@)), ("items"@, typed_v(t@))]);
    }
    object(v)
}

fn submit_fix_result_tool() -> (t: ToolDef)
    ensures
        tool_view(t) == submit_fix_result_tool_v(),
{
    let s = described("string", "One or two sentences describing what was changed and why.");
    let f = array_of("string");
    let n = described("string", "Why you believe this fully resolves the finding.");
    let props = vec![field("summary", s), field("filesChanged", f), field("verificationNotes", n)];
    let req = vec!["summary", "filesChanged"];
    proof {
        assert(fields_view(props@) =~= seq![
            ("summary"@, json_view(s)),
            ("filesChanged"@, json_view(f)),
            ("verificationNotes"@, json_view(n)),
        ]);
        assert(req@.map_values(|s: &str| s@) =~= seq!["summary"@, "filesChanged"@]);
    }
    ToolDef::new(SUBMIT_FIX_RESULT, SUBMIT_FIX_RESULT_DESCRIPTION, object_schema_req(props, &req))
}

fn category_ids(entries: &Vec<PlaybookEntry>) -> (r: JsonValue)
    ensures
        json_view(r) == strings_v(entry_ids(entries@)),
{
    let mut out: Vec<JsonValue> = Vec::new();
    let n = entries.len();
    let mut i: usize = 0;
    while i < n
        invariant
            n == entries@.len(),
            i <= n,
            out@.len() == i,
            forall|k: int| 0 <= k < i ==> #[trigger] json_view(out@[k]) == str_v(entries@[k].id@),
        decreases n - i,
    {
        out.push(JsonValue::Str(entries[i].id.clone()));
        i = i + 1;
    }
    proof {
        assert(values_view(out@) =~= entry_ids(entries@).map_values(
            |s: Seq<char>| JsonView::Str(s),
        ));
    }
    array(out)
}

fn evidence_item() -> (r: JsonValue)
    ensures
        json_view(r) == evidence_item_v(),
{
    let a = typed("string");
    let b = typed("integer");
    let c = typed("integer");
    let d = typed("string");
    let props = vec![field("filePath", a), field("lineStart", b), field("lineEnd", c), field("snippet", d)];
    let req = vec!["filePath"];
    proof {
        assert(fields_view(props@) =~= seq![
            ("filePath"@, typed_v("string"@)),
            ("lineStart"@, typed_v("integer"@)),
            ("lineEnd"@, typed_v("integer"@)),
            ("snippet"@, typed_v("string"@)),
        ]);
        assert(req@.map_values(|s: &str| s@) =~= seq!["filePath"@]);
    }
    object_schema_req(props, &req)
}

fn finding_item(entries: &Vec<PlaybookEntry>) -> (r: JsonValue)
    ensures
        json_view(r) == finding_item_v(entry_ids(entries@)),
{
    let ids = category_ids(entries);
    let cat_fields = vec![field("type", jstr("string")), field("enum", ids)];
    proof {
        assert(fields_view(cat_fields@) =~= seq![
            ("type"@, str_v("string"@)),
            ("enum"@, strings_v(entry_ids(entries@))),
        ]);
    }
    let cat = object(cat_fields);
    let title = described("string", "A short, specific title for this finding.");
    let levels = vec!["low", "medium", "high", "critical"];
    let level_values = strings(&levels);
    proof {
        assert(levels@.map_values(|s: &str| s@) =~= seq!["low"@, "medium"@, "high"@, "critical"@]);
    }
    let sev_fields = vec![field("type", jstr("string")), field("enum", level_values)];
    proof {
        assert(fields_view(sev_fields@) =~= seq![
            ("type"@, str_v("string"@)),
            ("enum"@, strings_v(seq!["low"@, "medium"@, "high"@, "critical"@])),
        ]);
    }
    let sev = object(sev_fields);
    let desc = described(
        "string",
        "Plain-English explanation of how this specifically hurts this app.",
    );
    let item = evidence_item();
    let ev_fields = vec![field("type", jstr("array")), field("items", item)];
    proof {
        assert(fields_view(ev_fields@) =~= seq![
            ("type"@, str_v("array"@)),
            ("items"@, evidence_item_v()),
        ]);
    }
    let ev = object(ev_fields);
    let fix = described("string", "Specific, actionable guidance for fixing this exact finding.");
    let props = vec![
        field("categoryId", cat),
        field("title", title),
        field("severity", sev),
        field("description", desc),
        field("evidence", ev),
        field("fixGuidance", fix),
    ];
    let req = vec!["categoryId", "title", "severity", "description", "fixGuidance"];
    proof {
        assert(fields_view(props@) =~= seq![
            ("categoryId"@, json_view(cat)),
            ("title"@, json_view(title)),
            ("severity"@, json_view(sev)),
            ("description"@, json_view(desc)),
            ("evidence"@, json_view(ev)),
            ("fixGuidance"@, json_view(fix)),
        ]);
        assert(req@.map_values(|s: &str| s@) =~= seq![
            "categoryId"@,
            "title"@,
            "severity"@,
            "description"@,
            "fixGuidance"@,
        ]);
    }
    object_schema_req(props, &req)
}

/// The tool that ends a scan session. Its schema asks the model to keep
/// `categoryId` to the checklist entries of `group`; the session itself
/// drops any submitted finding outside them (`finding_events`).
fn submit_findings_tool(group: &PlaybookGroup) -> (t: ToolDef)
    ensures
        tool_view(t) == submit_findings_tool_v(group.entries@),
{
    let item = finding_item(&group.entries);
    let list_fields = vec![field("type", jstr("array")), field("items", item)];
    proof {
        assert(fields_view(list_fields@) =~= seq![
            ("type"@, str_v("array"@)),
            ("items"@, finding_item_v(entry_ids(group.entries@))),
        ]);
    }
    let list = object(list_fields);
    let props = vec![field("findings", list)];
    let req = vec!["findings"];
    proof {
        assert(fields_view(props@) =~= seq![("findings"@, json_view(list))]);
        assert(req@.map_values(|s: &str| s@) =~= seq!["findings"@]);
    }
    ToolDef::new(SUBMIT_FINDINGS, SUBMIT_FINDINGS_DESCRIPTION, object_schema_req(props, &req))
}

/// The tools of a scan session.
pub open spec fn scan_tools_spec(group: PlaybookGroup) -> Seq<ToolView> {
    seq![
        list_directory_tool_v(),
        read_file_tool_v(),
        search_text_tool_v(),
        get_dependency_manifests_tool_v(),
        submit_findings_tool_v(group.entries@),
    ]
}

/// The tools of a fix session.
pub open spec fn fix_tools_spec() -> Seq<ToolView> {
    seq![
        list_directory_tool_v(),
        read_file_tool_v(),
        search_text_tool_v(),
        write_file_staged_tool_v(),
        submit_fix_result_tool_v(),
    ]
}

/// The tools offered in every scan session, whatever its mode: the four
/// read-only filesystem tools and `submit_findings`.
pub fn build_scan_tools(group: &PlaybookGroup) -> (r: Vec<ToolDef>)
    ensures
        tool_views(r@) == scan_tools_spec(*group),
{
    let r = vec![
        list_directory_tool(),
        read_file_tool(),
        search_text_tool(),
        get_dependency_manifests_tool(),
        submit_findings_tool(group),
    ];
    proof {
        assert(tool_views(r@) =~= scan_tools_spec(*group));
    }
    r
}

/// The tools offered in a fix session.
pub fn build_fix_tools() -> (r: Vec<ToolDef>)
    ensures
        tool_views(r@) == fix_tools_spec(),
{
    let r = vec![
        list_directory_tool(),
        read_file_tool(),
        search_text_tool(),
        write_file_staged_tool(),
        submit_fix_result_tool(),
    ];
    proof {
        assert(tool_views(r@) =~= fix_tools_spec());
    }
    r
}

/// Read-only tools list at most this many directory entries.
pub const MAX_LIST_ENTRIES: usize = 400;

/// Read-only tools report at most this many search matches.
pub const MAX_SEARCH_MATCHES: usize = 60;

/// The filesystem work a read-only tool call asks for.
#[derive(Debug, Clone, PartialEq, Eq)]
pub enum ToolRequest {
    /// List the target, at most `max_entries` entries.
    ListDirectory { max_entries: usize },
    ReadFile { path: String },
    /// Search the target, reporting at most `max_matches` matches.
    SearchText { pattern: String, max_matches: usize },
    GetDependencyManifests,
    /// Not a read-only tool; holds the text to answer the model with.
    Unknown { message: String },
}

/// The string argument at `pointer` of a call's JSON arguments, or the empty
/// string when there is none.
pub open spec fn string_arg(arguments: Seq<char>, pointer: Seq<char>) -> Seq<char> {
    match json_pointer_str(arguments, pointer) {
        Some(s) => s,
        None => Seq::empty(),
    }
}

pub open spec fn unknown_tool_message(name: Seq<char>) -> Seq<char> {
    "error: unknown tool '"@ + name + "'"@
}

/// The request a read-only tool call stands for.
pub open spec fn tool_request_matches(r: ToolRequest, name: Seq<char>, arguments: Seq<char>) -> bool {
    if name == LIST_DIRECTORY@ {
        r matches ToolRequest::ListDirectory { max_entries } && max_entries == MAX_LIST_ENTRIES
    } else if name == READ_FILE@ {
        r matches ToolRequest::ReadFile { path } && path@ == string_arg(arguments, "/path"@)
    } else if name == SEARCH_TEXT@ {
        r matches ToolRequest::SearchText { pattern, max_matches } && pattern@ == string_arg(
            arguments,
            "/pattern"@,
        ) && max_matches == MAX_SEARCH_MATCHES
    } else if name == GET_DEPENDENCY_MANIFESTS@ {
        r is GetDependencyManifests
    } else {
        r matches ToolRequest::Unknown { message } && message@ == unknown_tool_message(name)
    }
}

fn string_arg_exec(arguments: &str, pointer: &str) -> (r: String)
    ensures
        r@ == string_arg(arguments@, pointer@),
{
    match json_string_at(arguments, pointer) {
        Some(s) => s,
        None => String::new(),
    }
}

/// Routes a read-only tool call, by name, to the filesystem work it asks
/// for, with the limits of the read-only tools (`MAX_LIST_ENTRIES` entries,
/// `MAX_SEARCH_MATCHES` matches); the `path` and `pattern` arguments default
/// to the empty string.
pub fn plan_readonly_tool(name: &str, arguments: &str) -> (r: ToolRequest)
    ensures
        tool_request_matches(r, name@, arguments@),
{
    if str_eq(name, LIST_DIRECTORY) {
        ToolRequest::ListDirectory { max_entries: MAX_LIST_ENTRIES }
    } else if str_eq(name, READ_FILE) {
        ToolRequest::ReadFile { path: string_arg_exec(arguments, "/path") }
    } else if str_eq(name, SEARCH_TEXT) {
        ToolRequest::SearchText {
            pattern: string_arg_exec(arguments, "/pattern"),
            max_matches: MAX_SEARCH_MATCHES,
        }
    } else if str_eq(name, GET_DEPENDENCY_MANIFESTS) {
        ToolRequest::GetDependencyManifests
    } else {
        let mut m = String::from_str("error: unknown tool '");
        m.append(name);
        m.append("'");
        ToolRequest::Unknown { message: m }
    }
}

/// The text a tool result is reported to the model with: the tool's output,
/// or "error: " and the failure, so that the model sees it and can adapt.
pub open spec fn tool_result_text_spec(outcome: Result<String, ToolError>) -> Seq<char> {
    match outcome {
        Ok(text) => text@,
        Err(e) => "error: "@ + tool_error_message_spec(e),
    }
}

pub fn tool_result_text(outcome: Result<String, ToolError>) -> (r: String)
    ensures
        r@ == tool_result_text_spec(outcome),
{
    match outcome {
        Ok(text) => text,
        Err(e) => {
            let mut m = String::from_str("error: ");
            let d = e.message();
            m.append(d.as_str());
            m
        },
    }
}

/// A read-only tool call is served within the tools' limits (at most
/// `MAX_LIST_ENTRIES` listed entries, at most `MAX_SEARCH_MATCHES` search
/// matches), a `read_file` call reads its `path` argument, and whatever the
/// filesystem work gives back reaches the model as text: the output itself,
/// or "error: " and the failure.
pub proof fn lemma_readonly_calls_bounded_and_answered(
    name: Seq<char>,
    arguments: Seq<char>,
    r: ToolRequest,
    outcome: Result<String, ToolError>,
)
    requires
        tool_request_matches(r, name, arguments),
    ensures
        r matches ToolRequest::ListDirectory { max_entries } ==> max_entries == 400,
        r matches ToolRequest::SearchText { max_matches, .. } ==> max_matches == 60,
        name == READ_FILE@ ==> (r matches ToolRequest::ReadFile { path } && path@ == string_arg(
            arguments,
            "/path"@,
        )),
        outcome matches Ok(t) ==> tool_result_text_spec(outcome) == t@,
        outcome matches Err(e) ==> tool_result_text_spec(outcome) == "error: "@
            + tool_error_message_spec(e),
{
    reveal_strlit("list_directory");
    reveal_strlit("read_file");
    reveal_strlit("search_text");
    reveal_strlit("get_dependency_manifests");
    assert(LIST_DIRECTORY@.len() != READ_FILE@.len());
}

/// The names of the tools that only read the target or end the session.
pub open spec fn is_static_tool_name(name: Seq<char>) -> bool {
    ||| name == LIST_DIRECTORY@
    ||| name == READ_FILE@
    ||| name == SEARCH_TEXT@
    ||| name == GET_DEPENDENCY_MANIFESTS@
    ||| name == SUBMIT_FINDINGS@
}

/// Whatever the group (and whatever the mode, which the scan registry does
/// not depend on), a scan session is only ever offered read-only tools and
/// `submit_findings`: no dynamic or network tool.
pub proof fn lemma_scan_tools_are_static(group: PlaybookGroup)
    ensures
        forall|i: int|
            0 <= i < scan_tools_spec(group).len() ==> is_static_tool_name(
                #[trigger] scan_tools_spec(group)[i].name,
            ),
{
}

/// The name of no fix-session tool mentions "http" or "request".
pub proof fn lemma_fix_tools_not_networked()
    ensures
        forall|i: int|
            0 <= i < fix_tools_spec().len() ==> !contains_seq(#[trigger] fix_tools_spec()[i].name, "http"@)
                && !contains_seq(fix_tools_spec()[i].name, "request"@),
{
    reveal_strlit("http");
    reveal_strlit("request");
    reveal_strlit("list_directory");
    reveal_strlit("read_file");
    reveal_strlit("search_text");
    reveal_strlit("write_file_staged");
    reveal_strlit("submit_fix_result");
    assert forall|i: int| 0 <= i < fix_tools_spec().len() implies !contains_seq(
        #[trigger] fix_tools_spec()[i].name,
        "http"@,
    ) && !contains_seq(fix_tools_spec()[i].name, "request"@) by {
        let name = fix_tools_spec()[i].name;
        assert forall|j: int| !crate::text::occurs_at(name, "http"@, j) by {
            if crate::text::occurs_at(name, "http"@, j) {
                assert(name.subrange(j, j + 4)[0] == name[j]);
                assert(name.subrange(j, j + 4)[1] == name[j + 1]);
            }
        }
        assert forall|j: int| !crate::text::occurs_at(name, "request"@, j) by {
            if crate::text::occurs_at(name, "request"@, j) {
                assert(name.subrange(j, j + 7)[0] == name[j]);
                assert(name.subrange(j, j + 7)[1] == name[j + 1]);
                assert(name.subrange(j, j + 7)[2] == name[j + 2]);
            }
        }
    }
}

} // verus!
