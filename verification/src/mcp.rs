//! What the line-oriented JSON-RPC server decides: what is done with a
//! line, which method a request names, and which tool a call names.

use vstd::prelude::*;
use crate::knowledge::formatting::{percent_of, result_block, shortened};
use crate::knowledge::types::KnowledgeSearchResult;
use crate::text::{
    decimal, joined, push_decimal, push_text, same_text, string_of, trim, trimmed, views,
};

verus! {

/// The code of the error for a line that is no JSON-RPC request.
pub const PARSE_ERROR: i32 = -32700;

/// The code of the error for a method or tool that is not known.
pub const METHOD_NOT_FOUND: i32 = -32601;

/// The version of the protocol that the server speaks.
pub const PROTOCOL_VERSION: &'static str = "2024-11-05";

/// How many characters of a chunk the answer to a knowledge search shows.
pub const PREVIEW_CHARS: usize = 300;

/// What is done with one line of input.
#[derive(Debug)]
pub enum LineAction {
    /// The input has ended: the server stops.
    Stop,
    /// The line is empty: nothing is done.
    Skip,
    /// The line, trimmed, is read as a request.
    Handle(String),
}

/// What a request asks for.
#[derive(Clone, Copy, Debug, PartialEq, Eq, Structural)]
pub enum Route {
    /// The client introduces itself.
    Initialize,
    /// The tools are listed.
    ListTools,
    /// A tool is called.
    CallTool,
    /// The method is not known and the request wants an answer.
    MethodNotFound,
    /// The method is not known and the request is a notification.
    Ignore,
}

/// The tools of the server.
#[derive(Clone, Copy, Debug, PartialEq, Eq, Structural)]
pub enum Tool {
    Memorize,
    Remember,
    Forget,
    Update,
    Get,
    Recent,
    ByType,
    ForFiles,
    ByTags,
    CurrentCommit,
    Stats,
    Cleanup,
    ClearAll,
    Relate,
    Relationships,
    Related,
    AutoLink,
    MemoryGraph,
    KnowledgeSearch,
}

/// What a request for the method `method` asks for; a request without an
/// identifier is a notification.
pub open spec fn route_of(method: Seq<char>, has_id: bool) -> Route {
    if method == "initialize"@ {
        Route::Initialize
    } else if method == "tools/list"@ {
        Route::ListTools
    } else if method == "tools/call"@ {
        Route::CallTool
    } else if has_id {
        Route::MethodNotFound
    } else {
        Route::Ignore
    }
}

/// The tool of a name.
pub open spec fn tool_of(name: Seq<char>) -> Option<Tool> {
    if name == "memorize"@ {
        Some(Tool::Memorize)
    } else if name == "remember"@ {
        Some(Tool::Remember)
    } else if name == "forget"@ {
        Some(Tool::Forget)
    } else if name == "update"@ {
        Some(Tool::Update)
    } else if name == "get"@ {
        Some(Tool::Get)
    } else if name == "recent"@ {
        Some(Tool::Recent)
    } else if name == "by_type"@ {
        Some(Tool::ByType)
    } else if name == "for_files"@ {
        Some(Tool::ForFiles)
    } else if name == "by_tags"@ {
        Some(Tool::ByTags)
    } else if name == "current_commit"@ {
        Some(Tool::CurrentCommit)
    } else if name == "stats"@ {
        Some(Tool::Stats)
    } else if name == "cleanup"@ {
        Some(Tool::Cleanup)
    } else if name == "clear_all"@ {
        Some(Tool::ClearAll)
    } else if name == "relate"@ {
        Some(Tool::Relate)
    } else if name == "relationships"@ {
        Some(Tool::Relationships)
    } else if name == "related"@ {
        Some(Tool::Related)
    } else if name == "auto_link"@ {
        Some(Tool::AutoLink)
    } else if name == "memory_graph"@ {
        Some(Tool::MemoryGraph)
    } else if name == "knowledge_search"@ {
        Some(Tool::KnowledgeSearch)
    } else {
        None
    }
}

/// What is said of a method that is not known.
pub open spec fn method_message(method: Seq<char>) -> Seq<char> {
    "Method not found: "@ + method
}

/// What is said of a tool that is not known.
pub open spec fn tool_message(name: Seq<char>) -> Seq<char> {
    "Unknown tool: "@ + name
}

/// What is said of a line that is no request.
pub open spec fn parse_message(reason: Seq<char>) -> Seq<char> {
    "Parse error: "@ + reason
}

/// What is done with a line of which `bytes_read` bytes were read.
pub fn line_action(bytes_read: usize, line: &str) -> (r: LineAction)
    ensures
        match r {
            LineAction::Stop => bytes_read == 0,
            LineAction::Skip => bytes_read > 0 && trimmed(line@).len() == 0,
            LineAction::Handle(text) => bytes_read > 0 && trimmed(line@).len() > 0 && text@
                == trimmed(line@),
        },
{
    if bytes_read == 0 {
        return LineAction::Stop;
    }
    let text = trim(line);
    if text.as_str().unicode_len() == 0 {
        LineAction::Skip
    } else {
        LineAction::Handle(text)
    }
}

/// Whether a request is answered: one with an identifier is; one without
/// is a notification, which is acted upon but never answered.
pub fn answers(has_id: bool) -> (r: bool)
    ensures
        r == has_id,
{
    has_id
}

/// What a request for the method `method` asks for.
pub fn route(method: &str, has_id: bool) -> (r: Route)
    ensures
        r == route_of(method@, has_id),
{
    if same_text(method, "initialize") {
        Route::Initialize
    } else if same_text(method, "tools/list") {
        Route::ListTools
    } else if same_text(method, "tools/call") {
        Route::CallTool
    } else if has_id {
        Route::MethodNotFound
    } else {
        Route::Ignore
    }
}

/// The tool of a name; an unknown name is refused.
pub fn tool(name: &str) -> (r: Result<Tool, String>)
    ensures
        match r {
            Ok(t) => tool_of(name@) == Some(t),
            Err(e) => tool_of(name@) is None && e@ == tool_message(name@),
        },
{
    if same_text(name, "memorize") {
        Ok(Tool::Memorize)
    } else if same_text(name, "remember") {
        Ok(Tool::Remember)
    } else if same_text(name, "forget") {
        Ok(Tool::Forget)
    } else if same_text(name, "update") {
        Ok(Tool::Update)
    } else if same_text(name, "get") {
        Ok(Tool::Get)
    } else if same_text(name, "recent") {
        Ok(Tool::Recent)
    } else if same_text(name, "by_type") {
        Ok(Tool::ByType)
    } else if same_text(name, "for_files") {
        Ok(Tool::ForFiles)
    } else if same_text(name, "by_tags") {
        Ok(Tool::ByTags)
    } else if same_text(name, "current_commit") {
        Ok(Tool::CurrentCommit)
    } else if same_text(name, "stats") {
        Ok(Tool::Stats)
    } else if same_text(name, "cleanup") {
        Ok(Tool::Cleanup)
    } else if same_text(name, "clear_all") {
        Ok(Tool::ClearAll)
    } else if same_text(name, "relate") {
        Ok(Tool::Relate)
    } else if same_text(name, "relationships") {
        Ok(Tool::Relationships)
    } else if same_text(name, "related") {
        Ok(Tool::Related)
    } else if same_text(name, "auto_link") {
        Ok(Tool::AutoLink)
    } else if same_text(name, "memory_graph") {
        Ok(Tool::MemoryGraph)
    } else if same_text(name, "knowledge_search") {
        Ok(Tool::KnowledgeSearch)
    } else {
        let mut text: Vec<char> = Vec::new();
        push_text(&mut text, "Unknown tool: ");
        push_text(&mut text, name);
        Err(string_of(&text))
    }
}

/// What is said of a method that is not known.
pub fn method_not_found(method: &str) -> (r: String)
    ensures
        r@ == method_message(method@),
{
    let mut text: Vec<char> = Vec::new();
    push_text(&mut text, "Method not found: ");
    push_text(&mut text, method);
    string_of(&text)
}

/// What is said of a line that is no request.
pub fn parse_error(reason: &str) -> (r: String)
    ensures
        r@ == parse_message(reason@),
{
    let mut text: Vec<char> = Vec::new();
    push_text(&mut text, "Parse error: ");
    push_text(&mut text, reason);
    string_of(&text)
}

/// A line of fifty `=`.
pub open spec fn rule_line() -> Seq<char> {
    Seq::new(50, |i: int| '=')
}

/// What the answer to a knowledge search shows of one result.
pub open spec fn result_text(
    title: Seq<char>,
    url: Seq<char>,
    section_path: Seq<Seq<char>>,
    content: Seq<char>,
    percent: int,
) -> Seq<char> {
    let head = rule_line() + seq!['\n'] + title + seq!['\n'] + url + seq!['\n'];
    let section = if section_path.len() > 0 {
        joined(section_path, " > "@) + seq!['\n']
    } else {
        Seq::empty()
    };
    head + section + shortened(content, PREVIEW_CHARS as int, PREVIEW_CHARS as int) + "\nRelevance: "@
        + decimal(percent as nat) + "%\n\n"@
}

/// What the answer to a knowledge search shows of the first `n` results.
pub open spec fn results_text(results: Seq<KnowledgeSearchResult>, n: int) -> Seq<char>
    decreases n,
{
    if n <= 0 {
        Seq::empty()
    } else {
        results_text(results, n - 1) + result_text(
            results[n - 1].chunk.source_title@,
            results[n - 1].chunk.source_url@,
            views(results[n - 1].chunk.section_path@),
            results[n - 1].chunk.content@,
            percent_of(results[n - 1].relevance_score),
        )
    }
}

/// The answer to a knowledge search: `No results found` for none; else
/// the first `max_results` results, each with its title, its address, its
/// section path, the start of its content, and its relevance in percent.
pub fn knowledge_search_output(results: &Vec<KnowledgeSearchResult>, max_results: usize) -> (r:
    String)
    ensures
        results@.len() == 0 ==> r@ == "No results found"@,
        results@.len() > 0 ==> r@ == results_text(
            results@,
            if max_results < results@.len() {
                max_results as int
            } else {
                results@.len() as int
            },
        ),
{
    if results.len() == 0 {
        return "No results found".to_owned();
    }
    let shown: usize = if max_results < results.len() {
        max_results
    } else {
        results.len()
    };
    let mut out: Vec<char> = Vec::new();
    let mut i: usize = 0;
    while i < shown
        invariant
            i <= shown <= results.len(),
            out@ == results_text(results@, i as int),
        decreases shown - i,
    {
        let ghost before = out@;
        let block = result_block(&results[i], PREVIEW_CHARS);
        let mut k: usize = 0;
        while k < 50
            invariant
                k <= 50,
                out@ == before + Seq::new(k as nat, |j: int| '='),
            decreases 50 - k,
        {
            out.push('=');
            k += 1;
            assert(out@ =~= before + Seq::new(k as nat, |j: int| '='));
        }
        out.push('\n');
        push_text(&mut out, block.title.as_str());
        out.push('\n');
        push_text(&mut out, block.url.as_str());
        out.push('\n');
        match &block.section {
            Some(s) => {
                push_text(&mut out, s.as_str());
                out.push('\n');
            },
            None => {},
        }
        push_text(&mut out, block.preview.as_str());
        push_text(&mut out, "\nRelevance: ");
        push_decimal(&mut out, block.percent as u64);
        push_text(&mut out, "%\n\n");
        assert(out@ =~= results_text(results@, i + 1));
        i += 1;
    }
    string_of(&out)
}

} // verus!
