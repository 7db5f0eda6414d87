use vibe_coder::plugins::sample_plugins::{format_code_lines, CodeFormatterPlugin, UppercasePlugin};
use vibe_coder::plugins::{Plugin, PluginCapability, PluginError, PluginMetadata, PluginRegistry};

struct FailingPlugin;

impl Plugin for FailingPlugin {
    fn metadata(&self) -> PluginMetadata {
        PluginMetadata {
            name: "Failing".to_string(),
            version: "1.0.0".to_string(),
            description: "Always fails".to_string(),
            author: "Test".to_string(),
        }
    }

    fn capabilities(&self) -> Vec<PluginCapability> {
        vec![PluginCapability::CustomCommand]
    }

    fn initialize(&mut self) -> Result<(), PluginError> {
        Ok(())
    }

    fn pre_process(&self, _input: &str) -> Result<String, PluginError> {
        Err(PluginError::ProcessingError("boom".to_string()))
    }

    fn post_process(&self, response: &str) -> Result<String, PluginError> {
        Ok(response.to_string())
    }
}

struct BrokenPlugin;

impl Plugin for BrokenPlugin {
    fn metadata(&self) -> PluginMetadata {
        PluginMetadata {
            name: "Broken".to_string(),
            version: "1.0.0".to_string(),
            description: "Cannot start".to_string(),
            author: "Test".to_string(),
        }
    }

    fn capabilities(&self) -> Vec<PluginCapability> {
        Vec::new()
    }

    fn initialize(&mut self) -> Result<(), PluginError> {
        Err(PluginError::InitializationError("no".to_string()))
    }

    fn pre_process(&self, input: &str) -> Result<String, PluginError> {
        Ok(input.to_string())
    }

    fn post_process(&self, response: &str) -> Result<String, PluginError> {
        Ok(response.to_string())
    }
}

#[test]
fn uppercase_plugin_converts_after_initialisation() {
    let mut plugin = UppercasePlugin::new();
    assert!(matches!(plugin.pre_process("hello"), Err(PluginError::ProcessingError(m)) if m == "Plugin not initialized"));
    plugin.initialize().unwrap();
    assert_eq!(plugin.pre_process("hello world").unwrap(), "HELLO WORLD");
    assert_eq!(plugin.post_process("keep me").unwrap(), "keep me");
    assert_eq!(plugin.metadata().name, "Uppercase Converter");
    assert!(matches!(plugin.capabilities()[0], PluginCapability::PreProcessor));
}

#[test]
fn code_formatter_marks_opening_fences() {
    let mut plugin = CodeFormatterPlugin::new();
    assert!(plugin.post_process("x").is_err());
    plugin.initialize().unwrap();
    let result = plugin.post_process("Some text\n```rust\ncode\n```\nMore text").unwrap();
    assert_eq!(
        result,
        "Some text\n```rust\n// Formatted by Code Formatter Plugin\ncode\n```\nMore text\n"
    );
    assert_eq!(plugin.metadata().name, "Code Formatter");
    assert_eq!(plugin.capabilities().len(), 2);
}

#[test]
fn format_code_lines_alternates_fences() {
    let lines = vec!["```a".to_string(), "x".to_string(), "```".to_string(), "```b".to_string()];
    assert_eq!(
        format_code_lines(&lines),
        "```a\n// Formatted by Code Formatter Plugin\nx\n```\n```b\n// Formatted by Code Formatter Plugin\n"
    );
    assert_eq!(format_code_lines(&Vec::new()), "");
}

#[test]
fn registry_runs_plugins_in_order() {
    let mut registry = PluginRegistry::new();
    assert_eq!(registry.list_plugins().len(), 0);
    assert_eq!(registry.pre_process_all("test input").unwrap(), "test input");
    assert_eq!(registry.post_process_all("test response").unwrap(), "test response");

    registry.register(Box::new(UppercasePlugin::new())).unwrap();
    registry.register(Box::new(CodeFormatterPlugin::new())).unwrap();
    let names: Vec<String> = registry.list_plugins().into_iter().map(|m| m.name).collect();
    assert_eq!(names, vec!["Uppercase Converter".to_string(), "Code Formatter".to_string()]);

    assert_eq!(registry.pre_process_all("write code").unwrap(), "WRITE CODE");
    let post = registry.post_process_all("```rust\nfn main() {}\n```").unwrap();
    assert!(post.contains("Formatted by Code Formatter"));
    assert!(registry.get("Uppercase Converter").is_some());
    assert!(registry.get("Nonexistent Plugin").is_none());
}

#[test]
fn registering_a_name_again_replaces_in_place() {
    let mut registry = PluginRegistry::new();
    registry.register(Box::new(UppercasePlugin::new())).unwrap();
    registry.register(Box::new(CodeFormatterPlugin::new())).unwrap();
    registry.register(Box::new(UppercasePlugin::new())).unwrap();
    assert_eq!(registry.list_plugins().len(), 2);
    assert_eq!(registry.list_plugins()[0].name, "Uppercase Converter");
}

#[test]
fn failing_plugin_stops_the_chain() {
    let mut registry = PluginRegistry::new();
    registry.register(Box::new(UppercasePlugin::new())).unwrap();
    registry.register(Box::new(FailingPlugin)).unwrap();
    let r = registry.pre_process_all("test");
    assert!(matches!(r, Err(PluginError::ProcessingError(m)) if m == "boom"));
}

#[test]
fn failed_initialisation_is_not_registered() {
    let mut registry = PluginRegistry::new();
    let r = registry.register(Box::new(BrokenPlugin));
    assert!(matches!(r, Err(PluginError::InitializationError(_))));
    assert_eq!(registry.list_plugins().len(), 0);
    assert!(registry.get("Broken").is_none());
}

#[test]
fn plugin_error_messages() {
    assert_eq!(PluginError::InitializationError("a".to_string()).message(), "Plugin initialization failed: a");
    assert_eq!(PluginError::ProcessingError("b".to_string()).message(), "Plugin processing error: b");
    assert_eq!(PluginError::NotFound("c".to_string()).message(), "Plugin not found: c");
}

#[test]
fn code_formatter_splits_crlf_lines() {
    let mut plugin = CodeFormatterPlugin::new();
    plugin.initialize().unwrap();
    let result = plugin.post_process("```a\r\nx\r\n```\rtail").unwrap();
    assert_eq!(result, "```a\n// Formatted by Code Formatter Plugin\nx\n```\rtail\n");
}
