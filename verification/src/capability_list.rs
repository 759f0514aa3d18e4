//! What each capability is: its arguments, effects, cost and limits.
use vstd::prelude::*;

verus! {

#[derive(Clone, Copy, Debug, PartialEq, Eq, Structural)]
pub enum Purity {
    Pure,
    ReadOnlyEffect,
    Effectful,
}

/// The description of a capability.
#[derive(Clone, Debug)]
pub struct CapabilitySpec {
    pub name: &'static str,
    pub version: &'static str,
    pub package: &'static str,
    pub summary: &'static str,
    pub inputs: Vec<&'static str>,
    pub output: &'static str,
    pub purity: Purity,
    pub deterministic: bool,
    pub effects: Vec<&'static str>,
    pub cost: &'static str,
    pub failure: &'static str,
    pub safety: &'static str,
}

/// A description with its texts as sequences.
pub struct Entry {
    pub name: Seq<char>,
    pub version: Seq<char>,
    pub package: Seq<char>,
    pub summary: Seq<char>,
    pub inputs: Seq<Seq<char>>,
    pub output: Seq<char>,
    pub purity: Purity,
    pub deterministic: bool,
    pub effects: Seq<Seq<char>>,
    pub cost: Seq<char>,
    pub failure: Seq<char>,
    pub safety: Seq<char>,
}

/// The characters of each text.
pub open spec fn strs(s: Seq<&'static str>) -> Seq<Seq<char>> {
    s.map_values(|t: &'static str| t@)
}

impl CapabilitySpec {
    pub open spec fn entry(self) -> Entry {
        Entry {
            name: self.name@,
            version: self.version@,
            package: self.package@,
            summary: self.summary@,
            inputs: strs(self.inputs@),
            output: self.output@,
            purity: self.purity,
            deterministic: self.deterministic,
            effects: strs(self.effects@),
            cost: self.cost@,
            failure: self.failure@,
            safety: self.safety@,
        }
    }
}

pub open spec fn entries(s: Seq<CapabilitySpec>) -> Seq<Entry> {
    s.map_values(|c: CapabilitySpec| c.entry())
}

pub open spec fn runtime_capabilities_entry() -> Entry {
    Entry {
        name: "runtime.capabilities"@,
        version: "1.0.0"@,
        package: "runtime"@,
        summary: "Return the names of capabilities available in this runtime."@,
        inputs: Seq::empty(),
        output: "array<string>"@,
        purity: Purity::Pure,
        deterministic: true,
        effects: Seq::empty(),
        cost: "O(number_of_capabilities)"@,
        failure: "never for a valid runtime"@,
        safety: "introspection only"@,
    }
}

fn runtime_capabilities() -> (s: CapabilitySpec)
    ensures
        s.entry() == runtime_capabilities_entry(),
{
    let s = CapabilitySpec {
        name: "runtime.capabilities",
        version: "1.0.0",
        package: "runtime",
        summary: "Return the names of capabilities available in this runtime.",
        inputs: Vec::new(),
        output: "array<string>",
        purity: Purity::Pure,
        deterministic: true,
        effects: Vec::new(),
        cost: "O(number_of_capabilities)",
        failure: "never for a valid runtime",
        safety: "introspection only",
    };
    assert(strs(s.inputs@) =~= runtime_capabilities_entry().inputs);
    assert(strs(s.effects@) =~= runtime_capabilities_entry().effects);
    s
}

pub open spec fn runtime_input_entry() -> Entry {
    Entry {
        name: "runtime.input"@,
        version: "1.0.0"@,
        package: "runtime"@,
        summary: "Return the full JSON input injected via --input flag."@,
        inputs: Seq::empty(),
        output: "any"@,
        purity: Purity::Pure,
        deterministic: true,
        effects: Seq::empty(),
        cost: "O(1)"@,
        failure: "returns null if no input was provided"@,
        safety: "read-only access to injected input"@,
    }
}

fn runtime_input() -> (s: CapabilitySpec)
    ensures
        s.entry() == runtime_input_entry(),
{
    let s = CapabilitySpec {
        name: "runtime.input",
        version: "1.0.0",
        package: "runtime",
        summary: "Return the full JSON input injected via --input flag.",
        inputs: Vec::new(),
        output: "any",
        purity: Purity::Pure,
        deterministic: true,
        effects: Vec::new(),
        cost: "O(1)",
        failure: "returns null if no input was provided",
        safety: "read-only access to injected input",
    };
    assert(strs(s.inputs@) =~= runtime_input_entry().inputs);
    assert(strs(s.effects@) =~= runtime_input_entry().effects);
    s
}

pub open spec fn runtime_input_get_entry() -> Entry {
    Entry {
        name: "runtime.inputGet"@,
        version: "1.0.0"@,
        package: "runtime"@,
        summary: "Access a nested field in the injected input by dot-path (e.g. 'request.body.items.2.symbol')."@,
        inputs: seq!["path:string"@],
        output: "any"@,
        purity: Purity::Pure,
        deterministic: true,
        effects: Seq::empty(),
        cost: "O(depth_of_path)"@,
        failure: "returns null if path does not exist"@,
        safety: "read-only access to injected input"@,
    }
}

fn runtime_input_get() -> (s: CapabilitySpec)
    ensures
        s.entry() == runtime_input_get_entry(),
{
    let s = CapabilitySpec {
        name: "runtime.inputGet",
        version: "1.0.0",
        package: "runtime",
        summary: "Access a nested field in the injected input by dot-path (e.g. 'request.body.items.2.symbol').",
        inputs: vec!["path:string"],
        output: "any",
        purity: Purity::Pure,
        deterministic: true,
        effects: Vec::new(),
        cost: "O(depth_of_path)",
        failure: "returns null if path does not exist",
        safety: "read-only access to injected input",
    };
    assert(strs(s.inputs@) =~= runtime_input_get_entry().inputs);
    assert(strs(s.effects@) =~= runtime_input_get_entry().effects);
    s
}

pub open spec fn runtime_publish_entry() -> Entry {
    Entry {
        name: "runtime.publish"@,
        version: "0.1.0"@,
        package: "runtime"@,
        summary: "Publish a named computed value into the current decision's journal entry for inspection."@,
        inputs: seq!["name:string"@, "value:number|string|bool"@],
        output: "null"@,
        purity: Purity::Effectful,
        deterministic: true,
        effects: seq!["publish"@],
        cost: "O(1)"@,
        failure: "non-string name, non-finite numeric value, or buffer not initialised"@,
        safety: "values stored in the per-decision journal only; not user-visible filesystem or network state"@,
    }
}

fn runtime_publish() -> (s: CapabilitySpec)
    ensures
        s.entry() == runtime_publish_entry(),
{
    let s = CapabilitySpec {
        name: "runtime.publish",
        version: "0.1.0",
        package: "runtime",
        summary: "Publish a named computed value into the current decision's journal entry for inspection.",
        inputs: vec!["name:string", "value:number|string|bool"],
        output: "null",
        purity: Purity::Effectful,
        deterministic: true,
        effects: vec!["publish"],
        cost: "O(1)",
        failure: "non-string name, non-finite numeric value, or buffer not initialised",
        safety: "values stored in the per-decision journal only; not user-visible filesystem or network state",
    };
    assert(strs(s.inputs@) =~= runtime_publish_entry().inputs);
    assert(strs(s.effects@) =~= runtime_publish_entry().effects);
    s
}

pub open spec fn file_exists_entry() -> Entry {
    Entry {
        name: "file.exists"@,
        version: "0.1.0"@,
        package: "io"@,
        summary: "Check whether a local path exists."@,
        inputs: seq!["path:string"@],
        output: "bool"@,
        purity: Purity::ReadOnlyEffect,
        deterministic: true,
        effects: seq!["file_read"@],
        cost: "O(1) metadata lookup"@,
        failure: "path argument is not a string"@,
        safety: "read-only local filesystem metadata; capsule policy must permit file_read"@,
    }
}

fn file_exists() -> (s: CapabilitySpec)
    ensures
        s.entry() == file_exists_entry(),
{
    let s = CapabilitySpec {
        name: "file.exists",
        version: "0.1.0",
        package: "io",
        summary: "Check whether a local path exists.",
        inputs: vec!["path:string"],
        output: "bool",
        purity: Purity::ReadOnlyEffect,
        deterministic: true,
        effects: vec!["file_read"],
        cost: "O(1) metadata lookup",
        failure: "path argument is not a string",
        safety: "read-only local filesystem metadata; capsule policy must permit file_read",
    };
    assert(strs(s.inputs@) =~= file_exists_entry().inputs);
    assert(strs(s.effects@) =~= file_exists_entry().effects);
    s
}

pub open spec fn file_read_text_entry() -> Entry {
    Entry {
        name: "file.readText"@,
        version: "0.1.0"@,
        package: "io"@,
        summary: "Read a UTF-8 text file from the local filesystem."@,
        inputs: seq!["path:string"@],
        output: "string"@,
        purity: Purity::ReadOnlyEffect,
        deterministic: true,
        effects: seq!["file_read"@],
        cost: "O(file_size), capped at 1 MiB"@,
        failure: "missing file, non-UTF-8 data, or file exceeds size cap"@,
        safety: "read-only local filesystem access; capsule policy must permit file_read"@,
    }
}

fn file_read_text() -> (s: CapabilitySpec)
    ensures
        s.entry() == file_read_text_entry(),
{
    let s = CapabilitySpec {
        name: "file.readText",
        version: "0.1.0",
        package: "io",
        summary: "Read a UTF-8 text file from the local filesystem.",
        inputs: vec!["path:string"],
        output: "string",
        purity: Purity::ReadOnlyEffect,
        deterministic: true,
        effects: vec!["file_read"],
        cost: "O(file_size), capped at 1 MiB",
        failure: "missing file, non-UTF-8 data, or file exceeds size cap",
        safety: "read-only local filesystem access; capsule policy must permit file_read",
    };
    assert(strs(s.inputs@) =~= file_read_text_entry().inputs);
    assert(strs(s.effects@) =~= file_read_text_entry().effects);
    s
}

pub open spec fn file_write_text_entry() -> Entry {
    Entry {
        name: "file.writeText"@,
        version: "0.1.0"@,
        package: "io"@,
        summary: "Write UTF-8 text to a local filesystem path."@,
        inputs: seq!["path:string"@, "contents:string"@],
        output: "bool"@,
        purity: Purity::Effectful,
        deterministic: false,
        effects: seq!["file_write"@],
        cost: "O(contents_size), capped at 1 MiB"@,
        failure: "write denied, parent missing, or contents exceed cap"@,
        safety: "effectful local filesystem write; capsule policy must permit file_write"@,
    }
}

fn file_write_text() -> (s: CapabilitySpec)
    ensures
        s.entry() == file_write_text_entry(),
{
    let s = CapabilitySpec {
        name: "file.writeText",
        version: "0.1.0",
        package: "io",
        summary: "Write UTF-8 text to a local filesystem path.",
        inputs: vec!["path:string", "contents:string"],
        output: "bool",
        purity: Purity::Effectful,
        deterministic: false,
        effects: vec!["file_write"],
        cost: "O(contents_size), capped at 1 MiB",
        failure: "write denied, parent missing, or contents exceed cap",
        safety: "effectful local filesystem write; capsule policy must permit file_write",
    };
    assert(strs(s.inputs@) =~= file_write_text_entry().inputs);
    assert(strs(s.effects@) =~= file_write_text_entry().effects);
    s
}

pub open spec fn http_get_entry() -> Entry {
    Entry {
        name: "http.get"@,
        version: "0.1.0"@,
        package: "net"@,
        summary: "Fetch a URL and return the response body as UTF-8 text."@,
        inputs: seq!["url:string"@],
        output: "string"@,
        purity: Purity::ReadOnlyEffect,
        deterministic: false,
        effects: seq!["network"@],
        cost: "network request, 10 second timeout, 1 MiB response cap"@,
        failure: "invalid URL, request failure, non-success HTTP status, or non-UTF-8 body"@,
        safety: "outbound network read; capsule policy must permit network"@,
    }
}

fn http_get() -> (s: CapabilitySpec)
    ensures
        s.entry() == http_get_entry(),
{
    let s = CapabilitySpec {
        name: "http.get",
        version: "0.1.0",
        package: "net",
        summary: "Fetch a URL and return the response body as UTF-8 text.",
        inputs: vec!["url:string"],
        output: "string",
        purity: Purity::ReadOnlyEffect,
        deterministic: false,
        effects: vec!["network"],
        cost: "network request, 10 second timeout, 1 MiB response cap",
        failure: "invalid URL, request failure, non-success HTTP status, or non-UTF-8 body",
        safety: "outbound network read; capsule policy must permit network",
    };
    assert(strs(s.inputs@) =~= http_get_entry().inputs);
    assert(strs(s.effects@) =~= http_get_entry().effects);
    s
}

pub open spec fn http_post_entry() -> Entry {
    Entry {
        name: "http.post"@,
        version: "0.1.0"@,
        package: "net"@,
        summary: "POST a UTF-8 body to a URL and return the response body as UTF-8 text."@,
        inputs: seq!["url:string"@, "body:string"@, "content_type:string"@],
        output: "string"@,
        purity: Purity::Effectful,
        deterministic: false,
        effects: seq!["network"@],
        cost: "network request, 10 second timeout, 1 MiB request/response cap"@,
        failure: "invalid URL, request failure, non-success HTTP status, or body exceeds cap"@,
        safety: "outbound network write; capsule policy must permit network"@,
    }
}

fn http_post() -> (s: CapabilitySpec)
    ensures
        s.entry() == http_post_entry(),
{
    let s = CapabilitySpec {
        name: "http.post",
        version: "0.1.0",
        package: "net",
        summary: "POST a UTF-8 body to a URL and return the response body as UTF-8 text.",
        inputs: vec!["url:string", "body:string", "content_type:string"],
        output: "string",
        purity: Purity::Effectful,
        deterministic: false,
        effects: vec!["network"],
        cost: "network request, 10 second timeout, 1 MiB request/response cap",
        failure: "invalid URL, request failure, non-success HTTP status, or body exceeds cap",
        safety: "outbound network write; capsule policy must permit network",
    };
    assert(strs(s.inputs@) =~= http_post_entry().inputs);
    assert(strs(s.effects@) =~= http_post_entry().effects);
    s
}

pub open spec fn json_get_entry() -> Entry {
    Entry {
        name: "json.get"@,
        version: "0.1.0"@,
        package: "data"@,
        summary: "Read a dotted path from a JSON string."@,
        inputs: seq!["json:string"@, "path:string"@],
        output: "any primitive, array, or compact JSON string for objects"@,
        purity: Purity::Pure,
        deterministic: true,
        effects: Seq::empty(),
        cost: "O(json_size + path_depth)"@,
        failure: "invalid JSON or missing path"@,
        safety: "pure parser kernel"@,
    }
}

fn json_get() -> (s: CapabilitySpec)
    ensures
        s.entry() == json_get_entry(),
{
    let s = CapabilitySpec {
        name: "json.get",
        version: "0.1.0",
        package: "data",
        summary: "Read a dotted path from a JSON string.",
        inputs: vec!["json:string", "path:string"],
        output: "any primitive, array, or compact JSON string for objects",
        purity: Purity::Pure,
        deterministic: true,
        effects: Vec::new(),
        cost: "O(json_size + path_depth)",
        failure: "invalid JSON or missing path",
        safety: "pure parser kernel",
    };
    assert(strs(s.inputs@) =~= json_get_entry().inputs);
    assert(strs(s.effects@) =~= json_get_entry().effects);
    s
}

pub open spec fn json_has_entry() -> Entry {
    Entry {
        name: "json.has"@,
        version: "0.1.0"@,
        package: "data"@,
        summary: "Return whether a dotted path exists in a JSON string."@,
        inputs: seq!["json:string"@, "path:string"@],
        output: "bool"@,
        purity: Purity::Pure,
        deterministic: true,
        effects: Seq::empty(),
        cost: "O(json_size + path_depth)"@,
        failure: "invalid JSON"@,
        safety: "pure parser kernel"@,
    }
}

fn json_has() -> (s: CapabilitySpec)
    ensures
        s.entry() == json_has_entry(),
{
    let s = CapabilitySpec {
        name: "json.has",
        version: "0.1.0",
        package: "data",
        summary: "Return whether a dotted path exists in a JSON string.",
        inputs: vec!["json:string", "path:string"],
        output: "bool",
        purity: Purity::Pure,
        deterministic: true,
        effects: Vec::new(),
        cost: "O(json_size + path_depth)",
        failure: "invalid JSON",
        safety: "pure parser kernel",
    };
    assert(strs(s.inputs@) =~= json_has_entry().inputs);
    assert(strs(s.effects@) =~= json_has_entry().effects);
    s
}

pub open spec fn json_len_entry() -> Entry {
    Entry {
        name: "json.len"@,
        version: "0.1.0"@,
        package: "data"@,
        summary: "Return the length of an array, object, or string at a JSON path."@,
        inputs: seq!["json:string"@, "path:string"@],
        output: "int"@,
        purity: Purity::Pure,
        deterministic: true,
        effects: Seq::empty(),
        cost: "O(json_size + path_depth)"@,
        failure: "invalid JSON, missing path, or value has no length"@,
        safety: "pure parser kernel"@,
    }
}

fn json_len() -> (s: CapabilitySpec)
    ensures
        s.entry() == json_len_entry(),
{
    let s = CapabilitySpec {
        name: "json.len",
        version: "0.1.0",
        package: "data",
        summary: "Return the length of an array, object, or string at a JSON path.",
        inputs: vec!["json:string", "path:string"],
        output: "int",
        purity: Purity::Pure,
        deterministic: true,
        effects: Vec::new(),
        cost: "O(json_size + path_depth)",
        failure: "invalid JSON, missing path, or value has no length",
        safety: "pure parser kernel",
    };
    assert(strs(s.inputs@) =~= json_len_entry().inputs);
    assert(strs(s.effects@) =~= json_len_entry().effects);
    s
}

pub open spec fn sql_sqlite_query_entry() -> Entry {
    Entry {
        name: "sql.sqliteQuery"@,
        version: "0.1.0"@,
        package: "data"@,
        summary: "Run a read-only SQLite SELECT/WITH/PRAGMA query and return rows."@,
        inputs: seq!["database_path:string"@, "sql:string"@],
        output: "array<array<any>>, capped at 1000 rows"@,
        purity: Purity::ReadOnlyEffect,
        deterministic: true,
        effects: seq!["file_read"@],
        cost: "SQLite query cost, capped at 1000 returned rows"@,
        failure: "database missing, SQL invalid, or query is not read-only"@,
        safety: "read-only SQLite connection; rejects mutating SQL; capsule policy must permit file_read"@,
    }
}

fn sql_sqlite_query() -> (s: CapabilitySpec)
    ensures
        s.entry() == sql_sqlite_query_entry(),
{
    let s = CapabilitySpec {
        name: "sql.sqliteQuery",
        version: "0.1.0",
        package: "data",
        summary: "Run a read-only SQLite SELECT/WITH/PRAGMA query and return rows.",
        inputs: vec!["database_path:string", "sql:string"],
        output: "array<array<any>>, capped at 1000 rows",
        purity: Purity::ReadOnlyEffect,
        deterministic: true,
        effects: vec!["file_read"],
        cost: "SQLite query cost, capped at 1000 returned rows",
        failure: "database missing, SQL invalid, or query is not read-only",
        safety: "read-only SQLite connection; rejects mutating SQL; capsule policy must permit file_read",
    };
    assert(strs(s.inputs@) =~= sql_sqlite_query_entry().inputs);
    assert(strs(s.effects@) =~= sql_sqlite_query_entry().effects);
    s
}

pub open spec fn stats_mean_entry() -> Entry {
    Entry {
        name: "stats.mean"@,
        version: "0.1.0"@,
        package: "math"@,
        summary: "Arithmetic mean of a numeric array."@,
        inputs: seq!["values:array<number>"@],
        output: "number"@,
        purity: Purity::Pure,
        deterministic: true,
        effects: Seq::empty(),
        cost: "O(n)"@,
        failure: "empty or non-numeric array"@,
        safety: "pure numeric kernel"@,
    }
}

fn stats_mean() -> (s: CapabilitySpec)
    ensures
        s.entry() == stats_mean_entry(),
{
    let s = CapabilitySpec {
        name: "stats.mean",
        version: "0.1.0",
        package: "math",
        summary: "Arithmetic mean of a numeric array.",
        inputs: vec!["values:array<number>"],
        output: "number",
        purity: Purity::Pure,
        deterministic: true,
        effects: Vec::new(),
        cost: "O(n)",
        failure: "empty or non-numeric array",
        safety: "pure numeric kernel",
    };
    assert(strs(s.inputs@) =~= stats_mean_entry().inputs);
    assert(strs(s.effects@) =~= stats_mean_entry().effects);
    s
}

pub open spec fn stats_std_dev_entry() -> Entry {
    Entry {
        name: "stats.stdDev"@,
        version: "0.1.0"@,
        package: "math"@,
        summary: "Population standard deviation of a numeric array."@,
        inputs: seq!["values:array<number>"@],
        output: "number"@,
        purity: Purity::Pure,
        deterministic: true,
        effects: Seq::empty(),
        cost: "O(n)"@,
        failure: "empty or non-numeric array"@,
        safety: "pure numeric kernel"@,
    }
}

fn stats_std_dev() -> (s: CapabilitySpec)
    ensures
        s.entry() == stats_std_dev_entry(),
{
    let s = CapabilitySpec {
        name: "stats.stdDev",
        version: "0.1.0",
        package: "math",
        summary: "Population standard deviation of a numeric array.",
        inputs: vec!["values:array<number>"],
        output: "number",
        purity: Purity::Pure,
        deterministic: true,
        effects: Vec::new(),
        cost: "O(n)",
        failure: "empty or non-numeric array",
        safety: "pure numeric kernel",
    };
    assert(strs(s.inputs@) =~= stats_std_dev_entry().inputs);
    assert(strs(s.effects@) =~= stats_std_dev_entry().effects);
    s
}

pub open spec fn stats_min_entry() -> Entry {
    Entry {
        name: "stats.min"@,
        version: "0.1.0"@,
        package: "math"@,
        summary: "Minimum value in a numeric array."@,
        inputs: seq!["values:array<number>"@],
        output: "number"@,
        purity: Purity::Pure,
        deterministic: true,
        effects: Seq::empty(),
        cost: "O(n)"@,
        failure: "empty or non-numeric array"@,
        safety: "pure numeric kernel"@,
    }
}

fn stats_min() -> (s: CapabilitySpec)
    ensures
        s.entry() == stats_min_entry(),
{
    let s = CapabilitySpec {
        name: "stats.min",
        version: "0.1.0",
        package: "math",
        summary: "Minimum value in a numeric array.",
        inputs: vec!["values:array<number>"],
        output: "number",
        purity: Purity::Pure,
        deterministic: true,
        effects: Vec::new(),
        cost: "O(n)",
        failure: "empty or non-numeric array",
        safety: "pure numeric kernel",
    };
    assert(strs(s.inputs@) =~= stats_min_entry().inputs);
    assert(strs(s.effects@) =~= stats_min_entry().effects);
    s
}

pub open spec fn stats_max_entry() -> Entry {
    Entry {
        name: "stats.max"@,
        version: "0.1.0"@,
        package: "math"@,
        summary: "Maximum value in a numeric array."@,
        inputs: seq!["values:array<number>"@],
        output: "number"@,
        purity: Purity::Pure,
        deterministic: true,
        effects: Seq::empty(),
        cost: "O(n)"@,
        failure: "empty or non-numeric array"@,
        safety: "pure numeric kernel"@,
    }
}

fn stats_max() -> (s: CapabilitySpec)
    ensures
        s.entry() == stats_max_entry(),
{
    let s = CapabilitySpec {
        name: "stats.max",
        version: "0.1.0",
        package: "math",
        summary: "Maximum value in a numeric array.",
        inputs: vec!["values:array<number>"],
        output: "number",
        purity: Purity::Pure,
        deterministic: true,
        effects: Vec::new(),
        cost: "O(n)",
        failure: "empty or non-numeric array",
        safety: "pure numeric kernel",
    };
    assert(strs(s.inputs@) =~= stats_max_entry().inputs);
    assert(strs(s.effects@) =~= stats_max_entry().effects);
    s
}

pub open spec fn stats_percentile_entry() -> Entry {
    Entry {
        name: "stats.percentile"@,
        version: "0.1.0"@,
        package: "math"@,
        summary: "Interpolated percentile of a numeric array."@,
        inputs: seq!["values:array<number>"@, "p:number[0..100]"@],
        output: "number"@,
        purity: Purity::Pure,
        deterministic: true,
        effects: Seq::empty(),
        cost: "O(n log n)"@,
        failure: "empty array, invalid percentile, or non-numeric input"@,
        safety: "pure numeric kernel"@,
    }
}

fn stats_percentile() -> (s: CapabilitySpec)
    ensures
        s.entry() == stats_percentile_entry(),
{
    let s = CapabilitySpec {
        name: "stats.percentile",
        version: "0.1.0",
        package: "math",
        summary: "Interpolated percentile of a numeric array.",
        inputs: vec!["values:array<number>", "p:number[0..100]"],
        output: "number",
        purity: Purity::Pure,
        deterministic: true,
        effects: Vec::new(),
        cost: "O(n log n)",
        failure: "empty array, invalid percentile, or non-numeric input",
        safety: "pure numeric kernel",
    };
    assert(strs(s.inputs@) =~= stats_percentile_entry().inputs);
    assert(strs(s.effects@) =~= stats_percentile_entry().effects);
    s
}

pub open spec fn series_ewma_forecast_entry() -> Entry {
    Entry {
        name: "series.ewmaForecast"@,
        version: "0.1.0"@,
        package: "math"@,
        summary: "One-step exponential weighted moving average forecast."@,
        inputs: seq!["values:array<number>"@, "alpha:number[0..1]"@],
        output: "number"@,
        purity: Purity::Pure,
        deterministic: true,
        effects: Seq::empty(),
        cost: "O(n)"@,
        failure: "empty array, invalid alpha, or non-numeric input"@,
        safety: "pure time-series kernel"@,
    }
}

fn series_ewma_forecast() -> (s: CapabilitySpec)
    ensures
        s.entry() == series_ewma_forecast_entry(),
{
    let s = CapabilitySpec {
        name: "series.ewmaForecast",
        version: "0.1.0",
        package: "math",
        summary: "One-step exponential weighted moving average forecast.",
        inputs: vec!["values:array<number>", "alpha:number[0..1]"],
        output: "number",
        purity: Purity::Pure,
        deterministic: true,
        effects: Vec::new(),
        cost: "O(n)",
        failure: "empty array, invalid alpha, or non-numeric input",
        safety: "pure time-series kernel",
    };
    assert(strs(s.inputs@) =~= series_ewma_forecast_entry().inputs);
    assert(strs(s.effects@) =~= series_ewma_forecast_entry().effects);
    s
}

pub open spec fn ops_auto_scale_recommend_entry() -> Entry {
    Entry {
        name: "ops.autoScaleRecommend"@,
        version: "0.1.0"@,
        package: "ops"@,
        summary: "Recommend instance count from predicted load and per-instance target capacity."@,
        inputs: seq!["predicted_load:number"@, "target_per_instance:number"@, "min_instances:int"@, "max_instances:int"@],
        output: "int"@,
        purity: Purity::Pure,
        deterministic: true,
        effects: Seq::empty(),
        cost: "O(1)"@,
        failure: "invalid numeric input, non-positive capacity, or min > max"@,
        safety: "pure decision helper; caller owns actual infrastructure changes"@,
    }
}

fn ops_auto_scale_recommend() -> (s: CapabilitySpec)
    ensures
        s.entry() == ops_auto_scale_recommend_entry(),
{
    let s = CapabilitySpec {
        name: "ops.autoScaleRecommend",
        version: "0.1.0",
        package: "ops",
        summary: "Recommend instance count from predicted load and per-instance target capacity.",
        inputs: vec!["predicted_load:number", "target_per_instance:number", "min_instances:int", "max_instances:int"],
        output: "int",
        purity: Purity::Pure,
        deterministic: true,
        effects: Vec::new(),
        cost: "O(1)",
        failure: "invalid numeric input, non-positive capacity, or min > max",
        safety: "pure decision helper; caller owns actual infrastructure changes",
    };
    assert(strs(s.inputs@) =~= ops_auto_scale_recommend_entry().inputs);
    assert(strs(s.effects@) =~= ops_auto_scale_recommend_entry().effects);
    s
}

pub open spec fn nav_norm3_entry() -> Entry {
    Entry {
        name: "nav.norm3"@,
        version: "1.0.0"@,
        package: "nav"@,
        summary: "Euclidean norm of a 3D vector."@,
        inputs: seq!["x:number"@, "y:number"@, "z:number"@],
        output: "number"@,
        purity: Purity::Pure,
        deterministic: true,
        effects: Seq::empty(),
        cost: "O(1)"@,
        failure: "non-finite or non-numeric input"@,
        safety: "pure numeric kernel"@,
    }
}

fn nav_norm3() -> (s: CapabilitySpec)
    ensures
        s.entry() == nav_norm3_entry(),
{
    let s = CapabilitySpec {
        name: "nav.norm3",
        version: "1.0.0",
        package: "nav",
        summary: "Euclidean norm of a 3D vector.",
        inputs: vec!["x:number", "y:number", "z:number"],
        output: "number",
        purity: Purity::Pure,
        deterministic: true,
        effects: Vec::new(),
        cost: "O(1)",
        failure: "non-finite or non-numeric input",
        safety: "pure numeric kernel",
    };
    assert(strs(s.inputs@) =~= nav_norm3_entry().inputs);
    assert(strs(s.effects@) =~= nav_norm3_entry().effects);
    s
}

pub open spec fn nav_distance3_entry() -> Entry {
    Entry {
        name: "nav.distance3"@,
        version: "1.0.0"@,
        package: "nav"@,
        summary: "Euclidean distance between two 3D positions."@,
        inputs: seq!["x:number"@, "y:number"@, "z:number"@, "rx:number"@, "ry:number"@, "rz:number"@],
        output: "number"@,
        purity: Purity::Pure,
        deterministic: true,
        effects: Seq::empty(),
        cost: "O(1)"@,
        failure: "non-finite or non-numeric input"@,
        safety: "pure numeric kernel"@,
    }
}

fn nav_distance3() -> (s: CapabilitySpec)
    ensures
        s.entry() == nav_distance3_entry(),
{
    let s = CapabilitySpec {
        name: "nav.distance3",
        version: "1.0.0",
        package: "nav",
        summary: "Euclidean distance between two 3D positions.",
        inputs: vec!["x:number", "y:number", "z:number", "rx:number", "ry:number", "rz:number"],
        output: "number",
        purity: Purity::Pure,
        deterministic: true,
        effects: Vec::new(),
        cost: "O(1)",
        failure: "non-finite or non-numeric input",
        safety: "pure numeric kernel",
    };
    assert(strs(s.inputs@) =~= nav_distance3_entry().inputs);
    assert(strs(s.effects@) =~= nav_distance3_entry().effects);
    s
}

pub open spec fn nav_dot3_entry() -> Entry {
    Entry {
        name: "nav.dot3"@,
        version: "1.0.0"@,
        package: "nav"@,
        summary: "Dot product of two 3D vectors."@,
        inputs: seq!["ax:number"@, "ay:number"@, "az:number"@, "bx:number"@, "by:number"@, "bz:number"@],
        output: "number"@,
        purity: Purity::Pure,
        deterministic: true,
        effects: Seq::empty(),
        cost: "O(1)"@,
        failure: "non-finite or non-numeric input"@,
        safety: "pure numeric kernel"@,
    }
}

fn nav_dot3() -> (s: CapabilitySpec)
    ensures
        s.entry() == nav_dot3_entry(),
{
    let s = CapabilitySpec {
        name: "nav.dot3",
        version: "1.0.0",
        package: "nav",
        summary: "Dot product of two 3D vectors.",
        inputs: vec!["ax:number", "ay:number", "az:number", "bx:number", "by:number", "bz:number"],
        output: "number",
        purity: Purity::Pure,
        deterministic: true,
        effects: Vec::new(),
        cost: "O(1)",
        failure: "non-finite or non-numeric input",
        safety: "pure numeric kernel",
    };
    assert(strs(s.inputs@) =~= nav_dot3_entry().inputs);
    assert(strs(s.effects@) =~= nav_dot3_entry().effects);
    s
}

pub open spec fn nav_radial_velocity_entry() -> Entry {
    Entry {
        name: "nav.radialVelocity"@,
        version: "1.0.0"@,
        package: "nav"@,
        summary: "Radial velocity component of a state vector."@,
        inputs: seq!["x:number"@, "y:number"@, "z:number"@, "vx:number"@, "vy:number"@, "vz:number"@],
        output: "number"@,
        purity: Purity::Pure,
        deterministic: true,
        effects: Seq::empty(),
        cost: "O(1)"@,
        failure: "zero position vector or invalid numeric input"@,
        safety: "pure numeric kernel"@,
    }
}

fn nav_radial_velocity() -> (s: CapabilitySpec)
    ensures
        s.entry() == nav_radial_velocity_entry(),
{
    let s = CapabilitySpec {
        name: "nav.radialVelocity",
        version: "1.0.0",
        package: "nav",
        summary: "Radial velocity component of a state vector.",
        inputs: vec!["x:number", "y:number", "z:number", "vx:number", "vy:number", "vz:number"],
        output: "number",
        purity: Purity::Pure,
        deterministic: true,
        effects: Vec::new(),
        cost: "O(1)",
        failure: "zero position vector or invalid numeric input",
        safety: "pure numeric kernel",
    };
    assert(strs(s.inputs@) =~= nav_radial_velocity_entry().inputs);
    assert(strs(s.effects@) =~= nav_radial_velocity_entry().effects);
    s
}

pub open spec fn nav_ephemeris_state_entry() -> Entry {
    Entry {
        name: "nav.ephemerisState"@,
        version: "1.0.0"@,
        package: "nav"@,
        summary: "Read a local ephemeris table and interpolate a 6D state vector."@,
        inputs: seq!["path:string"@, "body:string"@, "et:number"@],
        output: "array<number>[6]"@,
        purity: Purity::ReadOnlyEffect,
        deterministic: true,
        effects: seq!["file_read"@],
        cost: "O(rows_in_ephemeris_file)"@,
        failure: "file missing, body mismatch, invalid rows, or time outside coverage"@,
        safety: "read-only local file access; capsule policy must permit file_read"@,
    }
}

fn nav_ephemeris_state() -> (s: CapabilitySpec)
    ensures
        s.entry() == nav_ephemeris_state_entry(),
{
    let s = CapabilitySpec {
        name: "nav.ephemerisState",
        version: "1.0.0",
        package: "nav",
        summary: "Read a local ephemeris table and interpolate a 6D state vector.",
        inputs: vec!["path:string", "body:string", "et:number"],
        output: "array<number>[6]",
        purity: Purity::ReadOnlyEffect,
        deterministic: true,
        effects: vec!["file_read"],
        cost: "O(rows_in_ephemeris_file)",
        failure: "file missing, body mismatch, invalid rows, or time outside coverage",
        safety: "read-only local file access; capsule policy must permit file_read",
    };
    assert(strs(s.inputs@) =~= nav_ephemeris_state_entry().inputs);
    assert(strs(s.effects@) =~= nav_ephemeris_state_entry().effects);
    s
}

pub open spec fn nav_horizons_vectors_entry() -> Entry {
    Entry {
        name: "nav.horizonsVectors"@,
        version: "1.0.0"@,
        package: "nav"@,
        summary: "Fetch geometric heliocentric state vectors from NASA/JPL Horizons."@,
        inputs: seq!["body:string"@, "start:string"@, "stop:string"@, "step_days:number"@],
        output: "flat array [jd,x,y,z,vx,vy,vz,...] in AU and AU/day"@,
        purity: Purity::ReadOnlyEffect,
        deterministic: false,
        effects: seq!["network"@],
        cost: "NASA/JPL Horizons HTTPS request, 10 second timeout, 1 MiB response cap"@,
        failure: "network error, Horizons error payload, unsupported body/date/step, or parse failure"@,
        safety: "outbound request to NASA/JPL Horizons; capsule policy must permit network and host allowlist"@,
    }
}

fn nav_horizons_vectors() -> (s: CapabilitySpec)
    ensures
        s.entry() == nav_horizons_vectors_entry(),
{
    let s = CapabilitySpec {
        name: "nav.horizonsVectors",
        version: "1.0.0",
        package: "nav",
        summary: "Fetch geometric heliocentric state vectors from NASA/JPL Horizons.",
        inputs: vec!["body:string", "start:string", "stop:string", "step_days:number"],
        output: "flat array [jd,x,y,z,vx,vy,vz,...] in AU and AU/day",
        purity: Purity::ReadOnlyEffect,
        deterministic: false,
        effects: vec!["network"],
        cost: "NASA/JPL Horizons HTTPS request, 10 second timeout, 1 MiB response cap",
        failure: "network error, Horizons error payload, unsupported body/date/step, or parse failure",
        safety: "outbound request to NASA/JPL Horizons; capsule policy must permit network and host allowlist",
    };
    assert(strs(s.inputs@) =~= nav_horizons_vectors_entry().inputs);
    assert(strs(s.effects@) =~= nav_horizons_vectors_entry().effects);
    s
}

pub open spec fn astro_lambert_solve_entry() -> Entry {
    Entry {
        name: "astro.lambertSolve"@,
        version: "0.1.0"@,
        package: "astro"@,
        summary: "Solve the 3D Lambert transfer problem and return departure/arrival velocity vectors."@,
        inputs: seq!["r1x:number"@, "r1y:number"@, "r1z:number"@, "r2x:number"@, "r2y:number"@, "r2z:number"@, "tof_days:number"@, "mu:number"@],
        output: "array<number>[7] = [v1x,v1y,v1z,v2x,v2y,v2z,status]"@,
        purity: Purity::Pure,
        deterministic: true,
        effects: Seq::empty(),
        cost: "iterative numeric solve, bounded by Rust kernel"@,
        failure: "status=0 on invalid geometry, impossible transfer, or non-convergence"@,
        safety: "pure numeric kernel; no panics; returns status"@,
    }
}

fn astro_lambert_solve() -> (s: CapabilitySpec)
    ensures
        s.entry() == astro_lambert_solve_entry(),
{
    let s = CapabilitySpec {
        name: "astro.lambertSolve",
        version: "0.1.0",
        package: "astro",
        summary: "Solve the 3D Lambert transfer problem and return departure/arrival velocity vectors.",
        inputs: vec!["r1x:number", "r1y:number", "r1z:number", "r2x:number", "r2y:number", "r2z:number", "tof_days:number", "mu:number"],
        output: "array<number>[7] = [v1x,v1y,v1z,v2x,v2y,v2z,status]",
        purity: Purity::Pure,
        deterministic: true,
        effects: Vec::new(),
        cost: "iterative numeric solve, bounded by Rust kernel",
        failure: "status=0 on invalid geometry, impossible transfer, or non-convergence",
        safety: "pure numeric kernel; no panics; returns status",
    };
    assert(strs(s.inputs@) =~= astro_lambert_solve_entry().inputs);
    assert(strs(s.effects@) =~= astro_lambert_solve_entry().effects);
    s
}

/// Every capability, in the order of the catalogue.
pub open spec fn listing() -> Seq<Entry> {
    seq![
        runtime_capabilities_entry(),
        runtime_input_entry(),
        runtime_input_get_entry(),
        runtime_publish_entry(),
        file_exists_entry(),
        file_read_text_entry(),
        file_write_text_entry(),
        http_get_entry(),
        http_post_entry(),
        json_get_entry(),
        json_has_entry(),
        json_len_entry(),
        sql_sqlite_query_entry(),
        stats_mean_entry(),
        stats_std_dev_entry(),
        stats_min_entry(),
        stats_max_entry(),
        stats_percentile_entry(),
        series_ewma_forecast_entry(),
        ops_auto_scale_recommend_entry(),
        nav_norm3_entry(),
        nav_distance3_entry(),
        nav_dot3_entry(),
        nav_radial_velocity_entry(),
        nav_ephemeris_state_entry(),
        nav_horizons_vectors_entry(),
        astro_lambert_solve_entry(),
    ]
}

/// The descriptions of every capability.
pub fn registry() -> (r: Vec<CapabilitySpec>)
    ensures
        entries(r@) == listing(),
{
    let mut r: Vec<CapabilitySpec> = Vec::new();
    r.push(runtime_capabilities());
    r.push(runtime_input());
    r.push(runtime_input_get());
    r.push(runtime_publish());
    r.push(file_exists());
    r.push(file_read_text());
    r.push(file_write_text());
    r.push(http_get());
    r.push(http_post());
    r.push(json_get());
    r.push(json_has());
    r.push(json_len());
    r.push(sql_sqlite_query());
    r.push(stats_mean());
    r.push(stats_std_dev());
    r.push(stats_min());
    r.push(stats_max());
    r.push(stats_percentile());
    r.push(series_ewma_forecast());
    r.push(ops_auto_scale_recommend());
    r.push(nav_norm3());
    r.push(nav_distance3());
    r.push(nav_dot3());
    r.push(nav_radial_velocity());
    r.push(nav_ephemeris_state());
    r.push(nav_horizons_vectors());
    r.push(astro_lambert_solve());
    assert(entries(r@) =~= listing());
    r
}

} // verus!
