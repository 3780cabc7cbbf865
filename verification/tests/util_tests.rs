//! Tests for prompt name validation.

use dotprompt::util::validate_prompt_name;

#[test]
fn test_validate_prompt_name() {
    let vectors = vec![
        ("Empty string", "", true),
        ("Whitespace only", "   ", true),
        ("Null byte", "valid-name\0.prompt", true),
        ("Escaped null byte", r"valid-name\0.prompt", true),
        ("Double dot", "..", true),
        ("Start double dot", "../etc/passwd", true),
        ("Embedded double dot", "subdir/../escape", true),
        ("Windows slash", r"..\windows\system32", true),
        ("Mixed slash", r"..\../etc/passwd", true),
        ("Absolute path", "/absolute/path.attack", true),
        ("Windows absolute C:", "C:/Windows/System32", true),
        ("Windows absolute backslash", r"C:\Windows", true),
        ("UNC path", r"\\server\share", true),
        ("URL encoded ..", "%2e%2e/etc/passwd", true),
        ("URL encoded dot", "foo/%2e%2e/bar", true),
        ("Double URL encoded", "%252e%252e/etc/passwd", true),
        ("Double URL nested", "%25252e%25252e", true),
        // NFC does not normalize the fullwidth dot to an ASCII dot
        ("Fullwidth dot homograph", "\u{ff0e}\u{ff0e}/etc/passwd", false),
        ("Current dir ./", "./config", true),
        ("Current dir .\\", r".\config", true),
        ("Simple name", "simple", false),
        ("Hyphenated", "my-prompt", false),
        ("Underscored", "my_prompt", false),
        ("Dots in middle", "a..b", false),
        ("Version dots", "version..2", false),
        ("Subdirectory", "subdir/nested", false),
        ("Deep nesting", "subdir/deeply/nested/prompt", false),
        ("Multiple dots", "a.b.c", false),
        ("Triple dot start", "...test", false),
        ("Triple dot end", "test...", false),
    ];

    for (desc, prompt, should_err) in vectors {
        let result = validate_prompt_name(prompt);
        if should_err {
            assert!(result.is_err(), "{desc}: expected error for prompt '{prompt}'");
        } else {
            assert!(
                result.is_ok(),
                "{desc}: expected success for prompt '{prompt}', got {:?}",
                result.err()
            );
        }
    }
}
