use boj_gen::cli::Language;
use boj_gen::crawler::ProblemData;
use boj_gen::generator::{
    confirm_overwrite_with_io, generate, generate_in_dir_with_confirm, is_overwrite_accepted,
    join_path_str, overwrite_prompt, problem_directory, sanitize_title, FsAction,
    GenerateResult,
};
use boj_gen::template::{get_cargo_toml, get_source_code};

fn sample_problem_data() -> ProblemData {
    ProblemData {
        title: "파일 합치기".to_string(),
        sample_input: "2\n4\n40 30 30 50\n".to_string(),
    }
}

fn view(actions: &[FsAction]) -> Vec<(String, Option<String>)> {
    actions
        .iter()
        .map(|a| match a {
            FsAction::CreateDir(path) => (path.clone(), None),
            FsAction::WriteFile(path, contents) => (path.clone(), Some(contents.clone())),
        })
        .collect()
}

#[test]
fn sanitize_title_replaces_spaces_with_underscores() {
    assert_eq!(sanitize_title("파일 합치기"), "파일_합치기");
    assert_eq!(sanitize_title("  Long   Title Name "), "Long_Title_Name");
}

#[test]
fn confirm_overwrite_accepts_yes_variants() {
    let mut output = String::new();

    let accepted = confirm_overwrite_with_io("YeS\n", &mut output, "sample");

    assert!(accepted);
    assert!(output.contains("덮어쓸까요?"));
}

#[test]
fn sanitize_title_handles_other_white_space() {
    assert_eq!(sanitize_title("a\tb\u{3000}c\n"), "a_b_c");
    assert_eq!(sanitize_title("   "), "");
    assert_eq!(sanitize_title(""), "");
    assert_eq!(sanitize_title("x_y z"), "x_y_z");
}

#[test]
fn sanitize_title_is_idempotent() {
    for title in ["파일 합치기", "  a  b ", "A+B", "one\u{A0}two"] {
        let once = sanitize_title(title);
        assert_eq!(sanitize_title(&once), once);
        assert!(!once.chars().any(char::is_whitespace));
    }
}

#[test]
fn confirm_overwrite_declines_other_answers() {
    for answer in ["n\n", "\n", "", "yes please\n", "ye\n"] {
        let mut output = String::new();
        assert!(!confirm_overwrite_with_io(answer, &mut output, "dir"), "answer={answer:?}");
        assert_eq!(output, "dir 폴더가 이미 존재합니다. 덮어쓸까요? (y/N): ");
    }
    let mut output = String::new();
    assert!(confirm_overwrite_with_io("  y \nno\n", &mut output, "dir"));
    assert!(is_overwrite_accepted("Y"));
    assert!(!is_overwrite_accepted("no"));
    assert_eq!(overwrite_prompt("x"), "x 폴더가 이미 존재합니다. 덮어쓸까요? (y/N): ");
}

#[test]
fn join_path_adds_separator_when_needed() {
    assert_eq!(join_path_str("a", "b"), "a/b");
    assert_eq!(join_path_str("a/", "b"), "a/b");
    assert_eq!(join_path_str("", "b"), "b");
}

#[test]
fn problem_directory_joins_number_and_title() {
    assert_eq!(problem_directory("/tmp/x", 11066, "파일 합치기"), "/tmp/x/11066_파일_합치기");
    assert_eq!(problem_directory(".", 1000, " A+B "), "./1000_A+B");
}

#[test]
fn plan_for_simple_languages_writes_input_and_source() {
    let cases = [
        (Language::Python, "main.py"),
        (Language::Cpp, "main.cpp"),
        (Language::Java, "Main.java"),
        (Language::JavaScript, "main.js"),
    ];
    for (language, filename) in cases {
        let data = sample_problem_data();
        let (result, actions) =
            generate_in_dir_with_confirm("/tmp/base", 11066, &data, language, false, false);
        let directory = "/tmp/base/11066_파일_합치기".to_string();
        assert_eq!(result, GenerateResult::Created { directory: directory.clone() });
        assert_eq!(
            view(&actions),
            vec![
                (directory.clone(), None),
                (format!("{directory}/input.txt"), Some(data.sample_input.clone())),
                (
                    format!("{directory}/{filename}"),
                    Some(get_source_code(language).to_string())
                ),
            ],
            "language={language:?}"
        );
    }
}

#[test]
fn plan_for_rust_writes_cargo_project() {
    let data = sample_problem_data();
    let (result, actions) = generate(11066, &data, Language::Rust, false, false);
    let directory = "./11066_파일_합치기".to_string();
    assert_eq!(result, GenerateResult::Created { directory: directory.clone() });
    assert_eq!(
        view(&actions),
        vec![
            (directory.clone(), None),
            (format!("{directory}/input.txt"), Some(data.sample_input.clone())),
            (format!("{directory}/src"), None),
            (format!("{directory}/Cargo.toml"), Some(get_cargo_toml(11066))),
            (
                format!("{directory}/src/main.rs"),
                Some(get_source_code(Language::Rust).to_string())
            ),
        ]
    );
}

#[test]
fn existing_directory_is_skipped_unless_confirmed() {
    let data = sample_problem_data();
    let (result, actions) = generate(11066, &data, Language::Python, true, false);
    assert_eq!(
        result,
        GenerateResult::Skipped { directory: "./11066_파일_합치기".to_string() }
    );
    assert!(actions.is_empty());

    let (result, actions) = generate(11066, &data, Language::Python, true, true);
    assert_eq!(
        result,
        GenerateResult::Created { directory: "./11066_파일_합치기".to_string() }
    );
    assert_eq!(actions.len(), 3);

    let (_, actions) = generate(11066, &data, Language::Python, false, false);
    assert_eq!(actions.len(), 3);
}
