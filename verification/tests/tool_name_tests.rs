use swink_agent::tool_name::{compose_provider_safe_tool_name, MAX_TOOL_NAME_LEN};

fn safe(name: &str) -> bool {
    let mut chars = name.chars();
    matches!(chars.next(), Some(c) if c.is_ascii_alphabetic())
        && name.chars().all(|c| c.is_ascii_alphanumeric() || c == '_')
        && name.chars().count() <= MAX_TOOL_NAME_LEN
}

#[test]
fn safe_names_pass_through_unchanged() {
    assert_eq!(compose_provider_safe_tool_name(None, "read_file"), "read_file");
    assert_eq!(compose_provider_safe_tool_name(None, "Tool2"), "Tool2");
}

#[test]
fn composing_a_composed_name_changes_nothing() {
    let long = "x".repeat(100);
    for (prefix, name) in [(Some("my.plugin"), "do-thing"), (None, "9lives"), (Some("p"), long.as_str()), (None, "")] {
        let once = compose_provider_safe_tool_name(prefix, name);
        assert!(safe(&once), "{once}");
        assert_eq!(compose_provider_safe_tool_name(None, &once), once);
    }
}

#[test]
fn unsafe_characters_and_leading_digits_are_repaired() {
    assert_eq!(compose_provider_safe_tool_name(Some("my.plugin"), "do-thing"), "my_plugin_do_thing");
    assert_eq!(compose_provider_safe_tool_name(None, "9lives"), "t_9lives");
    assert_eq!(compose_provider_safe_tool_name(None, ""), "t__");
    let long = compose_provider_safe_tool_name(Some("p"), &"x".repeat(100));
    assert_eq!(long.chars().count(), MAX_TOOL_NAME_LEN);
    assert!(long.starts_with("p_xxx"));
    assert_eq!(long.as_bytes()[MAX_TOOL_NAME_LEN - 9], b'_');
}
