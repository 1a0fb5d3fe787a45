use locaryn_plugin_voice_tts::mcp::{mcp_method, tool_named, unknown_method, unknown_tool, McpMethod, Tool};

#[test]
fn requests_are_routed_by_method() {
    assert_eq!(mcp_method("initialize"), McpMethod::Initialize);
    assert_eq!(mcp_method("tools/list"), McpMethod::ListTools);
    assert_eq!(mcp_method("tools/call"), McpMethod::CallTool);
    assert_eq!(mcp_method("notifications/initialized"), McpMethod::Notification);
    assert_eq!(mcp_method("notifications"), McpMethod::Unknown);
    assert_eq!(mcp_method(""), McpMethod::Unknown);
    assert_eq!(unknown_method("x"), "méthode MCP inconnue : x");
}

#[test]
fn tools_are_found_by_name() {
    assert_eq!(tool_named("list_voices"), Some(Tool::ListVoices));
    assert_eq!(tool_named("synthesize_speech"), Some(Tool::SynthesizeSpeech));
    assert_eq!(tool_named("clone_voice"), None);
    assert_eq!(tool_named("save_voice_preset"), Some(Tool::SaveVoicePreset));
    assert_eq!(tool_named("list_voice_presets"), Some(Tool::ListVoicePresets));
    assert_eq!(tool_named("delete_voice_preset"), Some(Tool::DeleteVoicePreset));
    assert_eq!(tool_named("voice_preset_support"), Some(Tool::VoicePresetSupport));
    assert_eq!(tool_named("voice_preset"), None);
    assert_eq!(unknown_tool("clone_voice"), "Outil TTS inconnu : clone_voice");
}
