use boj_gen::cli::{
    interactive_select_with_io, io_error, menu_step, parse_language_arg,
    parse_language_menu_input, resolve_language, write_language_menu, Language, MenuStep,
    MAX_RETRIES,
};

#[test]
fn resolve_language_accepts_supported_names_and_aliases() {
    let cases = [
        ("rust", Language::Rust),
        ("rs", Language::Rust),
        ("python", Language::Python),
        ("py", Language::Python),
        ("cpp", Language::Cpp),
        ("c++", Language::Cpp),
        ("java", Language::Java),
        ("javascript", Language::JavaScript),
        ("js", Language::JavaScript),
        ("RuSt", Language::Rust),
    ];

    for (input, expected) in cases {
        let actual = resolve_language(Some(input.to_string())).unwrap().unwrap();
        assert_eq!(actual, expected, "input={input}");
    }
}

#[test]
fn resolve_language_rejects_unknown_language() {
    let err = resolve_language(Some("go".to_string())).unwrap().unwrap_err();

    assert_eq!(err.to_string(), "지원하지 않는 언어입니다: go");
}

#[test]
fn interactive_select_accepts_menu_number() {
    let input = "2\n";
    let mut output = String::new();

    let actual = interactive_select_with_io(input, &mut output).unwrap();

    assert_eq!(actual, Language::Python);
}

#[test]
fn interactive_select_accepts_language_alias() {
    let input = "JS\n";
    let mut output = String::new();

    let actual = interactive_select_with_io(input, &mut output).unwrap();

    assert_eq!(actual, Language::JavaScript);
}

#[test]
fn interactive_select_retries_three_times_then_fails() {
    let input = "go\nruby\nswift\n";
    let mut output = String::new();

    let err = interactive_select_with_io(input, &mut output).unwrap_err();
    let rendered = output;

    assert_eq!(
        err.to_string(),
        "지원하지 않는 언어 입력이 3회 누적되어 종료합니다"
    );
    assert_eq!(rendered.matches("언어를 선택하세요 (1-5): ").count(), 3);
    assert_eq!(
        rendered
            .matches("지원하지 않는 언어입니다. 다시 입력해주세요.")
            .count(),
        2
    );
}

#[test]
fn resolve_language_without_value_defers_to_menu() {
    assert!(resolve_language(None).is_none());
}

#[test]
fn resolve_language_trims_surrounding_white_space() {
    let actual = resolve_language(Some("  Python\t\n".to_string())).unwrap().unwrap();
    assert_eq!(actual, Language::Python);
    let err = resolve_language(Some(" go ".to_string())).unwrap().unwrap_err();
    assert_eq!(err.to_string(), "지원하지 않는 언어입니다:  go ");
}

#[test]
fn as_str_round_trips_through_resolve_language() {
    let all = [
        Language::Rust,
        Language::Python,
        Language::Cpp,
        Language::Java,
        Language::JavaScript,
    ];
    let names = ["rust", "python", "cpp", "java", "javascript"];
    for (language, name) in all.into_iter().zip(names) {
        assert_eq!(language.as_str(), name);
        assert_eq!(resolve_language(Some(language.as_str().to_string())).unwrap().unwrap(), language);
    }
}

#[test]
fn parse_language_arg_refuses_menu_numbers() {
    assert_eq!(parse_language_arg("1"), None);
    assert_eq!(parse_language_arg("C++"), Some(Language::Cpp));
    assert_eq!(parse_language_arg(""), None);
}

#[test]
fn menu_numbers_select_listed_languages() {
    assert_eq!(parse_language_menu_input("1\n"), Some(Language::Rust));
    assert_eq!(parse_language_menu_input(" 3 "), Some(Language::Cpp));
    assert_eq!(parse_language_menu_input("4"), Some(Language::Java));
    assert_eq!(parse_language_menu_input("5\r\n"), Some(Language::JavaScript));
    assert_eq!(parse_language_menu_input("6"), None);
    assert_eq!(parse_language_menu_input("Py"), Some(Language::Python));
}

#[test]
fn language_menu_lists_every_language() {
    let mut output = String::new();
    write_language_menu(&mut output);
    assert_eq!(
        output,
        "지원 언어 목록:\n  1. Rust\n  2. Python\n  3. C++\n  4. Java\n  5. JavaScript\n"
    );
}

#[test]
fn interactive_select_transcript_is_exact() {
    let mut output = String::from("> ");
    let actual = interactive_select_with_io("ruby\n  c++  \nextra\n", &mut output).unwrap();
    assert_eq!(actual, Language::Cpp);
    assert_eq!(
        output,
        "> 지원 언어 목록:\n  1. Rust\n  2. Python\n  3. C++\n  4. Java\n  5. JavaScript\n\
         언어를 선택하세요 (1-5): 지원하지 않는 언어입니다. 다시 입력해주세요.\n\
         언어를 선택하세요 (1-5): "
    );
}

#[test]
fn interactive_select_fails_when_input_ends() {
    let mut output = String::new();
    let err = interactive_select_with_io("go\n", &mut output).unwrap_err();
    assert_eq!(err.to_string(), "입력을 읽지 못했습니다");
    assert_eq!(output.matches("언어를 선택하세요 (1-5): ").count(), 2);

    let mut output = String::new();
    let err = interactive_select_with_io("", &mut output).unwrap_err();
    assert_eq!(err.to_string(), "입력을 읽지 못했습니다");
}

#[test]
fn interactive_select_reads_last_line_without_line_feed() {
    let mut output = String::new();
    let actual = interactive_select_with_io("x\ny\njava", &mut output).unwrap();
    assert_eq!(actual, Language::Java);
}

#[test]
fn menu_step_decides_each_answer() {
    assert!(matches!(menu_step(0, Some("2")), MenuStep::Selected(Language::Python)));
    assert!(matches!(menu_step(0, Some("go")), MenuStep::Retry));
    assert!(matches!(menu_step(MAX_RETRIES - 2, Some("go")), MenuStep::Retry));
    match menu_step(MAX_RETRIES - 1, Some("go")) {
        MenuStep::Failed(e) => {
            assert_eq!(e.to_string(), "지원하지 않는 언어 입력이 3회 누적되어 종료합니다")
        }
        _ => panic!("expected failure"),
    }
    match menu_step(1, None) {
        MenuStep::Failed(e) => assert_eq!(e.to_string(), "입력을 읽지 못했습니다"),
        _ => panic!("expected failure"),
    }
}

#[test]
fn io_error_describes_failure() {
    assert_eq!(io_error("broken pipe").to_string(), "입출력 오류: broken pipe");
}
