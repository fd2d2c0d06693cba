use boj_gen::cli::Language;
use boj_gen::template::{get_cargo_toml, get_filename, get_source_code};

#[test]
fn get_filename_returns_expected_name_for_each_language() {
    let cases = [
        (Language::Rust, "main.rs"),
        (Language::Python, "main.py"),
        (Language::Cpp, "main.cpp"),
        (Language::Java, "Main.java"),
        (Language::JavaScript, "main.js"),
    ];

    for (language, expected) in cases {
        assert_eq!(get_filename(language), expected);
    }
}

#[test]
fn templates_include_input_txt_priority_and_stdin_fallback_pattern() {
    let cases = [
        (
            Language::Rust,
            "input.txt",
            "io::stdin().read_to_string(&mut buf).unwrap()",
        ),
        (
            Language::Python,
            "input.txt",
            "sys.stdin = open('input.txt', 'r')",
        ),
        (Language::Cpp, "input.txt", "cin.rdbuf(file.rdbuf());"),
        (
            Language::Java,
            "input.txt",
            "System.setIn(new FileInputStream(file));",
        ),
        (
            Language::JavaScript,
            "input.txt",
            "readFileSync(0, 'utf-8')",
        ),
    ];

    for (language, input_pattern, fallback_pattern) in cases {
        let source = get_source_code(language);

        assert!(
            source.contains(input_pattern),
            "language={language:?} should reference input.txt"
        );
        assert!(
            source.contains(fallback_pattern),
            "language={language:?} should preserve stdin fallback behavior"
        );
    }
}

#[test]
fn rust_template_contains_expected_main_flow() {
    let source = get_source_code(Language::Rust);

    assert!(source.contains("let mut tokens = read!();"));
    assert!(source.contains("macro_rules! read"));
    assert!(source.contains("macro_rules! next"));
}

#[test]
fn get_cargo_toml_uses_problem_specific_name_and_edition_2021() {
    let cargo_toml = get_cargo_toml(11066);

    assert!(cargo_toml.contains(r#"name = "boj-11066""#));
    assert!(cargo_toml.contains(r#"edition = "2021""#));
    assert!(cargo_toml.contains("[dependencies]"));
}

#[test]
fn get_cargo_toml_is_exact() {
    assert_eq!(
        get_cargo_toml(0),
        "[package]\nname = \"boj-0\"\nversion = \"0.1.0\"\nedition = \"2021\"\n\n[dependencies]\n"
    );
    assert!(get_cargo_toml(4294967295).contains("name = \"boj-4294967295\""));
}
