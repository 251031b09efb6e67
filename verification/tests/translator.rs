use claude_router::string_map::StringMap;
use claude_router::translator::{ToolArguments, ToolTranslator};

fn object(members: &[(&str, &str)]) -> ToolArguments {
    let mut m = StringMap::new();
    for (k, v) in members {
        m.insert(k.to_string(), v.to_string());
    }
    ToolArguments::Object(m)
}

#[test]
fn test_tool_translation() {
    let translator = ToolTranslator::new();

    // From the provider names to the API names
    let (name, args) =
        translator.translate_to_anthropic("terminal", &object(&[("cmd", "\"cargo build\"")]));
    assert_eq!(name, "bash");
    assert_eq!(args, object(&[("command", "\"cargo build\"")]));

    // And back
    let (name, args) =
        translator.translate_to_provider("bash", &object(&[("command", "\"cargo build\"")]));
    assert_eq!(name, "terminal");
    assert_eq!(args, object(&[("cmd", "\"cargo build\"")]));
}

#[test]
fn test_file_operation_translation() {
    let translator = ToolTranslator::new();

    // Test file operation translation
    let (name, args) = translator.translate_to_anthropic(
        "file_operation",
        &object(&[("operation", "\"read\""), ("file_path", "\"/path/to/file\"")]),
    );
    assert_eq!(name, "file_editor");
    assert_eq!(args, object(&[("action", "\"read\""), ("path", "\"/path/to/file\"")]));
}

#[test]
fn test_dynamic_mapping() {
    let mut translator = ToolTranslator::new();
    translator.add_tool_mapping("custom_tool", "new_tool");
    translator.add_argument_mapping("custom_tool", "input", "data");

    let (name, args) =
        translator.translate_to_anthropic("custom_tool", &object(&[("input", "\"test data\"")]));
    assert_eq!(name, "new_tool");
    assert_eq!(args, object(&[("data", "\"test data\"")]));
}

#[test]
fn unknown_tools_and_plain_values_pass_through() {
    let translator = ToolTranslator::new();
    let (name, args) = translator.translate_to_anthropic("grep", &object(&[("cmd", "1")]));
    assert_eq!(name, "grep");
    assert_eq!(args, object(&[("cmd", "1")]));
    let (name, args) =
        translator.translate_to_provider("terminal", &ToolArguments::Other("[1,2]".to_string()));
    assert_eq!(name, "terminal");
    assert_eq!(args, ToolArguments::Other("[1,2]".to_string()));
    let (_, args) =
        translator.translate_to_anthropic("terminal", &ToolArguments::Other("\"ls\"".to_string()));
    assert_eq!(args, ToolArguments::Other("\"ls\"".to_string()));
}

#[test]
fn unmapped_members_keep_their_keys_and_names_round_trip() {
    let translator = ToolTranslator::new();
    let (name, args) = translator.translate_to_anthropic(
        "terminal",
        &object(&[("cwd", "\"/tmp\""), ("cmd", "\"ls\"")]),
    );
    assert_eq!(name, "bash");
    assert_eq!(args, object(&[("cwd", "\"/tmp\""), ("command", "\"ls\"")]));
    for provider in ["terminal", "file_operation", "python", "http_request"] {
        let (anthropic, _) = translator.translate_to_anthropic(provider, &object(&[]));
        let (back, _) = translator.translate_to_provider(&anthropic, &object(&[]));
        assert_eq!(back, provider);
    }
}

#[test]
fn colliding_members_keep_the_later_value() {
    let translator = ToolTranslator::new();
    let (_, args) = translator.translate_to_anthropic(
        "terminal",
        &object(&[("command", "\"first\""), ("cmd", "\"second\"")]),
    );
    assert_eq!(args, object(&[("command", "\"second\"")]));
}

#[test]
fn argument_mappings_accumulate_per_tool() {
    let mut translator = ToolTranslator::new();
    translator.add_argument_mapping("terminal", "dir", "cwd");
    let (_, args) = translator.translate_to_anthropic(
        "terminal",
        &object(&[("cmd", "\"ls\""), ("dir", "\"/\"")]),
    );
    assert_eq!(args, object(&[("command", "\"ls\""), ("cwd", "\"/\"")]));
}

#[test]
fn file_arguments_round_trip_through_both_tables() {
    let translator = ToolTranslator::new();
    let original = object(&[("operation", "\"write\""), ("file_path", "\"/x\""), ("mode", "1")]);
    let (name, there) = translator.translate_to_anthropic("file_operation", &original);
    let (back_name, back) = translator.translate_to_provider(&name, &there);
    assert_eq!(back_name, "file_operation");
    assert_eq!(back, original);
}
