use tabby::config::{extract_value, ApiConfig};

#[test]
fn extract_value_reads_quoted_value() {
    let content = "# Tabby 🐱 配置文件\nclaude_api_key = \"sk-123\"\n";
    assert_eq!(extract_value(content, "claude_api_key"), Some("sk-123".to_string()));
}

#[test]
fn extract_value_missing_key_is_none() {
    assert_eq!(extract_value("openai_api_key = \"x\"\n", "claude_api_key"), None);
    assert_eq!(extract_value("", "claude_api_key"), None);
}

#[test]
fn extract_value_empty_value_is_none() {
    assert_eq!(extract_value("claude_api_key = \"\"\nclaude_api_key = \"b\"", "claude_api_key"), None);
    assert_eq!(extract_value("claude_api_key =   ", "claude_api_key"), None);
}

#[test]
fn extract_value_skips_lines_without_equals() {
    let content = "claude_api_key\nclaude_api_key=abc";
    assert_eq!(extract_value(content, "claude_api_key"), Some("abc".to_string()));
}

#[test]
fn extract_value_first_assignment_wins() {
    let content = "claude_api_key = \"one\"\nclaude_api_key = \"two\"\n";
    assert_eq!(extract_value(content, "claude_api_key"), Some("one".to_string()));
}

#[test]
fn extract_value_handles_crlf_and_inner_text() {
    let content = "claude_base_url = \"https://a.example/x=y\"\r\nother = 1\r\n";
    assert_eq!(
        extract_value(content, "claude_base_url"),
        Some("https://a.example/x=y".to_string())
    );
}

#[test]
fn extract_value_trims_spaces_then_all_quotes() {
    assert_eq!(extract_value("k=  \"\"a b\"\"  ", "k"), Some("a b".to_string()));
    assert_eq!(extract_value("k = \" a \"", "k"), Some(" a ".to_string()));
}

#[test]
fn extract_value_matches_by_prefix() {
    // a line whose key only starts with the asked key still matches
    assert_eq!(extract_value("custom_api_key_extra = \"v\"", "custom_api_key"), Some("v".to_string()));
    // a leading space means the line does not start with the key
    assert_eq!(extract_value(" custom_api_key = \"v\"", "custom_api_key"), None);
}

#[test]
fn extract_value_keeps_lone_carriage_return() {
    // a final carriage return without a line feed stays in the line, and is then trimmed as white space
    assert_eq!(extract_value("k = v\r", "k"), Some("v".to_string()));
}

#[test]
fn parse_reads_every_field() {
    let content = "claude_api_key = \"a\"\nclaude_base_url = \"b\"\nopenai_api_key = \"c\"\ncustom_api_key = \"d\"\ncustom_base_url = \"e\"\n";
    let c = ApiConfig::parse(content);
    assert_eq!(c.claude_api_key, Some("a".to_string()));
    assert_eq!(c.claude_base_url, Some("b".to_string()));
    assert_eq!(c.openai_api_key, Some("c".to_string()));
    assert_eq!(c.custom_api_key, Some("d".to_string()));
    assert_eq!(c.custom_base_url, Some("e".to_string()));
}

#[test]
fn parse_of_fresh_file_sets_nothing() {
    let c = ApiConfig::parse("# Tabby 🐱 配置文件\n");
    assert!(c.claude_api_key.is_none());
    assert!(c.claude_base_url.is_none());
    assert!(c.openai_api_key.is_none());
    assert!(c.custom_api_key.is_none());
    assert!(c.custom_base_url.is_none());
    let e = ApiConfig::empty();
    assert!(e.claude_api_key.is_none() && e.custom_base_url.is_none());
}

#[test]
fn written_line_is_read_back() {
    for (key, value) in [("claude_api_key", "sk-你的密钥"), ("claude_base_url", "https://你的代理地址"), ("k", "a \"b\" c")] {
        let content = format!("{} = \"{}\"", key, value);
        assert_eq!(extract_value(&content, key), Some(value.to_string()));
    }
}
