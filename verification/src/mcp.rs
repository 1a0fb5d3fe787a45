//! Routing of the requests of the stdio MCP server.

use vstd::prelude::*;
use vstd::string::StringExecFns;
use crate::text::chars_of;
use crate::text::equals_str;

verus! {

/// What an MCP request asks for.
#[derive(Debug, Clone, Copy, PartialEq, Eq, Structural)]
pub enum McpMethod {
    Initialize,
    ListTools,
    CallTool,
    /// A notification, which gets no answer.
    Notification,
    Unknown,
}

/// `s` starts with `p`.
pub open spec fn starts_with(s: Seq<char>, p: Seq<char>) -> bool {
    p.len() <= s.len() && s.take(p.len() as int) == p
}

/// The method an MCP request names.
pub open spec fn method_of(m: Seq<char>) -> McpMethod {
    if m == "initialize"@ {
        McpMethod::Initialize
    } else if m == "tools/list"@ {
        McpMethod::ListTools
    } else if m == "tools/call"@ {
        McpMethod::CallTool
    } else if starts_with(m, "notifications/"@) {
        McpMethod::Notification
    } else {
        McpMethod::Unknown
    }
}

fn has_prefix(s: &str, p: &str) -> (b: bool)
    ensures
        b == starts_with(s@, p@),
{
    let a = chars_of(s);
    let q = chars_of(p);
    if q.len() > a.len() {
        return false;
    }
    let mut i: usize = 0;
    while i < q.len()
        invariant
            q.len() <= a.len(),
            i <= q.len(),
            a@ == s@,
            q@ == p@,
            forall|k: int| 0 <= k < i ==> a@[k] == q@[k],
        decreases q.len() - i,
    {
        if a[i] != q[i] {
            return false;
        }
        i = i + 1;
    }
    assert(a@.take(q.len() as int) =~= q@);
    true
}

/// The method an MCP request names (see [`method_of`]).
pub fn mcp_method(method: &str) -> (m: McpMethod)
    ensures
        m == method_of(method@),
{
    if equals_str(method, "initialize") {
        McpMethod::Initialize
    } else if equals_str(method, "tools/list") {
        McpMethod::ListTools
    } else if equals_str(method, "tools/call") {
        McpMethod::CallTool
    } else if has_prefix(method, "notifications/") {
        McpMethod::Notification
    } else {
        McpMethod::Unknown
    }
}

/// The tools this server offers: listing the models and speaking, and the
/// voice presets (saving, listing, deleting one, and what an engine honours
/// of one).
#[derive(Debug, Clone, Copy, PartialEq, Eq, Structural)]
pub enum Tool {
    ListVoices,
    SynthesizeSpeech,
    SaveVoicePreset,
    ListVoicePresets,
    DeleteVoicePreset,
    VoicePresetSupport,
}

/// The tool a `tools/call` request names, if it is one of ours.
pub open spec fn tool_of(name: Seq<char>) -> Option<Tool> {
    if name == "list_voices"@ {
        Some(Tool::ListVoices)
    } else if name == "synthesize_speech"@ {
        Some(Tool::SynthesizeSpeech)
    } else if name == "save_voice_preset"@ {
        Some(Tool::SaveVoicePreset)
    } else if name == "list_voice_presets"@ {
        Some(Tool::ListVoicePresets)
    } else if name == "delete_voice_preset"@ {
        Some(Tool::DeleteVoicePreset)
    } else if name == "voice_preset_support"@ {
        Some(Tool::VoicePresetSupport)
    } else {
        None
    }
}

/// The tool a `tools/call` request names (see [`tool_of`]).
pub fn tool_named(name: &str) -> (t: Option<Tool>)
    ensures
        t == tool_of(name@),
{
    if equals_str(name, "list_voices") {
        Some(Tool::ListVoices)
    } else if equals_str(name, "synthesize_speech") {
        Some(Tool::SynthesizeSpeech)
    } else if equals_str(name, "save_voice_preset") {
        Some(Tool::SaveVoicePreset)
    } else if equals_str(name, "list_voice_presets") {
        Some(Tool::ListVoicePresets)
    } else if equals_str(name, "delete_voice_preset") {
        Some(Tool::DeleteVoicePreset)
    } else if equals_str(name, "voice_preset_support") {
        Some(Tool::VoicePresetSupport)
    } else {
        None
    }
}

/// The error answered to an unknown method.
pub fn unknown_method(method: &str) -> (msg: String)
    ensures
        msg@ == "méthode MCP inconnue : "@ + method@,
{
    let mut m = String::from_str("méthode MCP inconnue : ");
    m.append(method);
    m
}

/// The error answered to an unknown tool.
pub fn unknown_tool(name: &str) -> (msg: String)
    ensures
        msg@ == "Outil TTS inconnu : "@ + name@,
{
    let mut m = String::from_str("Outil TTS inconnu : ");
    m.append(name);
    m
}

} // verus!
