//! Command-line values, language names and the interactive language menu.

use vstd::prelude::*;

use crate::text::{
    chars_of, decimal, digit_char, equals_str, first_line, lemma_first_line_shape,
    lemma_lower_idempotent, lemma_trim_idempotent, lemma_trim_lower, push_decimal, read_line,
    string_of, to_ascii_lower, to_ascii_lowercase, trim, trim_str,
};

verus! {

/// How many answers the interactive menu reads before it gives up.
pub const MAX_RETRIES: usize = 3;

/// The command line: the problem number and the language asked for, if any.
pub struct Cli {
    /// Problem number (at least 1).
    pub problem_number: u32,
    /// Language asked for with `--lang`.
    pub lang: Option<String>,
}

/// The languages a workspace can be generated for.
#[derive(Debug, Clone, Copy, PartialEq, Eq, Structural)]
pub enum Language {
    Rust,
    Python,
    Cpp,
    Java,
    JavaScript,
}

/// The name of a language as the command line writes it.
pub open spec fn language_name(language: Language) -> Seq<char> {
    match language {
        Language::Rust => "rust"@,
        Language::Python => "python"@,
        Language::Cpp => "cpp"@,
        Language::Java => "java"@,
        Language::JavaScript => "javascript"@,
    }
}

/// The name of a language as the menu shows it.
pub open spec fn language_label(language: Language) -> Seq<char> {
    match language {
        Language::Rust => "Rust"@,
        Language::Python => "Python"@,
        Language::Cpp => "C++"@,
        Language::Java => "Java"@,
        Language::JavaScript => "JavaScript"@,
    }
}

/// The languages in menu order.
pub open spec fn all_languages() -> Seq<Language> {
    seq![Language::Rust, Language::Python, Language::Cpp, Language::Java, Language::JavaScript]
}

/// An answer as it is compared: trimmed and ASCII lower-cased.
pub open spec fn normalize(s: Seq<char>) -> Seq<char> {
    to_ascii_lower(trim(s))
}

/// The language a normalized name or alias stands for.
pub open spec fn language_for_name(name: Seq<char>) -> Option<Language> {
    if name == "rust"@ || name == "rs"@ {
        Some(Language::Rust)
    } else if name == "python"@ || name == "py"@ {
        Some(Language::Python)
    } else if name == "cpp"@ || name == "c++"@ {
        Some(Language::Cpp)
    } else if name == "java"@ {
        Some(Language::Java)
    } else if name == "javascript"@ || name == "js"@ {
        Some(Language::JavaScript)
    } else {
        None
    }
}

/// The language a normalized menu answer selects: a menu number or a name.
pub open spec fn menu_choice(answer: Seq<char>) -> Option<Language> {
    if answer == "1"@ {
        Some(Language::Rust)
    } else if answer == "2"@ {
        Some(Language::Python)
    } else if answer == "3"@ {
        Some(Language::Cpp)
    } else if answer == "4"@ {
        Some(Language::Java)
    } else if answer == "5"@ {
        Some(Language::JavaScript)
    } else {
        language_for_name(answer)
    }
}

/// Message for a language name that is not supported.
pub open spec fn unsupported_language_message(value: Seq<char>) -> Seq<char> {
    "지원하지 않는 언어입니다: "@ + value
}

/// Message for an input that ended before an answer was given.
pub open spec fn no_input_message() -> Seq<char> {
    "입력을 읽지 못했습니다"@
}

/// Message for a menu that received too many unsupported answers.
pub open spec fn too_many_attempts_message() -> Seq<char> {
    "지원하지 않는 언어 입력이 3회 누적되어 종료합니다"@
}

/// Message for a failed read or write of the terminal.
pub open spec fn io_error_message(detail: Seq<char>) -> Seq<char> {
    "입출력 오류: "@ + detail
}

impl Language {
    /// The command-line name of the language.
    pub fn as_str(self) -> (s: &'static str)
        ensures
            s@ == language_name(self),
    {
        match self {
            Language::Rust => "rust",
            Language::Python => "python",
            Language::Cpp => "cpp",
            Language::Java => "java",
            Language::JavaScript => "javascript",
        }
    }

    /// The name of the language in the menu.
    fn display_name(self) -> (s: &'static str)
        ensures
            s@ == language_label(self),
    {
        match self {
            Language::Rust => "Rust",
            Language::Python => "Python",
            Language::Cpp => "C++",
            Language::Java => "Java",
            Language::JavaScript => "JavaScript",
        }
    }

    /// Every language, in menu order.
    fn all() -> (r: [Language; 5])
        ensures
            r@ == all_languages(),
    {
        [Language::Rust, Language::Python, Language::Cpp, Language::Java, Language::JavaScript]
    }
}

/// An error of the command line, carrying the message shown to the user.
#[derive(Debug, Clone, PartialEq, Eq)]
pub struct CliError {
    message: String,
}

impl View for CliError {
    type V = Seq<char>;

    closed spec fn view(&self) -> Seq<char> {
        self.message@
    }
}

impl CliError {
    fn new(message: String) -> (e: CliError)
        ensures
            e@ == message@,
    {
        CliError { message }
    }

    /// The message shown to the user.
    pub fn to_string(&self) -> (s: String)
        ensures
            s@ == self@,
    {
        self.message.clone()
    }
}

/// The error for a failed read or write of the terminal, given the
/// description of what failed.
pub fn io_error(detail: &str) -> (e: CliError)
    ensures
        e@ == io_error_message(detail@),
{
    let mut message = string_of("입출력 오류: ");
    message.append(detail);
    CliError::new(message)
}

/// Normalizing an answer twice gives the same text as normalizing it once.
pub proof fn lemma_normalize_idempotent(s: Seq<char>)
    ensures
        normalize(normalize(s)) == normalize(s),
{
    lemma_trim_lower(trim(s));
    lemma_trim_idempotent(s);
    lemma_lower_idempotent(trim(s));
}

/// `input` trimmed and ASCII lower-cased.
pub(crate) fn normalize_input(input: &str) -> (r: String)
    ensures
        r@ == normalize(input@),
{
    let trimmed = trim_str(input);
    to_ascii_lowercase(trimmed.as_str())
}

/// The language named by `input`, ignoring case and surrounding white space.
pub fn parse_language_arg(input: &str) -> (r: Option<Language>)
    ensures
        r == language_for_name(normalize(input@)),
{
    let name = normalize_input(input);
    if equals_str(&name, "rust") || equals_str(&name, "rs") {
        Some(Language::Rust)
    } else if equals_str(&name, "python") || equals_str(&name, "py") {
        Some(Language::Python)
    } else if equals_str(&name, "cpp") || equals_str(&name, "c++") {
        Some(Language::Cpp)
    } else if equals_str(&name, "java") {
        Some(Language::Java)
    } else if equals_str(&name, "javascript") || equals_str(&name, "js") {
        Some(Language::JavaScript)
    } else {
        None
    }
}

/// The language a menu answer selects: its number or its name.
pub fn parse_language_menu_input(input: &str) -> (r: Option<Language>)
    ensures
        r == menu_choice(normalize(input@)),
{
    let answer = normalize_input(input);
    if equals_str(&answer, "1") {
        Some(Language::Rust)
    } else if equals_str(&answer, "2") {
        Some(Language::Python)
    } else if equals_str(&answer, "3") {
        Some(Language::Cpp)
    } else if equals_str(&answer, "4") {
        Some(Language::Java)
    } else if equals_str(&answer, "5") {
        Some(Language::JavaScript)
    } else {
        proof {
            lemma_normalize_idempotent(input@);
        }
        parse_language_arg(answer.as_str())
    }
}

/// Resolves the `--lang` value. `None` when no value was given: the
/// language is then chosen in the interactive menu. A value names a
/// language, ignoring case and surrounding white space, or is refused.
pub fn resolve_language(lang: Option<String>) -> (r: Option<Result<Language, CliError>>)
    ensures
        lang is None <==> r is None,
        lang matches Some(v) ==> match r {
            Some(Ok(language)) => language_for_name(normalize(v@)) == Some(language),
            Some(Err(e)) => language_for_name(normalize(v@)) is None && e@
                == unsupported_language_message(v@),
            None => false,
        },
{
    match lang {
        Some(value) => match parse_language_arg(value.as_str()) {
            Some(language) => Some(Ok(language)),
            None => {
                let mut message = string_of("지원하지 않는 언어입니다: ");
                message.append(value.as_str());
                Some(Err(CliError::new(message)))
            },
        },
        None => None,
    }
}

/// One line of the menu: the number and the name of a language.
pub open spec fn menu_line(index: nat, language: Language) -> Seq<char> {
    "  "@ + decimal(index + 1) + ". "@ + language_label(language) + "\n"@
}

/// The first `count` lines of the menu.
pub open spec fn menu_lines(count: nat) -> Seq<char>
    decreases count,
{
    if count == 0 {
        seq![]
    } else {
        menu_lines((count - 1) as nat) + menu_line((count - 1) as nat, all_languages()[count - 1])
    }
}

/// The menu of supported languages.
pub open spec fn language_menu() -> Seq<char> {
    "지원 언어 목록:\n"@ + menu_lines(5)
}

/// The request for an answer.
pub const SELECTION_PROMPT: &'static str = "언어를 선택하세요 (1-5): ";

/// The notice that an answer was not understood and another is expected.
pub const RETRY_NOTICE: &'static str = "지원하지 않는 언어입니다. 다시 입력해주세요.\n";

/// The request for an answer.
pub open spec fn selection_prompt() -> Seq<char> {
    SELECTION_PROMPT@
}

/// The notice that an answer was not understood and another is expected.
pub open spec fn retry_notice() -> Seq<char> {
    RETRY_NOTICE@
}

/// Appends the menu of supported languages to `writer`.
pub fn write_language_menu(writer: &mut String)
    ensures
        final(writer)@ == old(writer)@ + language_menu(),
{
    writer.append("지원 언어 목록:\n");
    let languages = Language::all();
    let mut i: usize = 0;
    while i < 5
        invariant
            i <= 5,
            languages@ == all_languages(),
            writer@ == old(writer)@ + "지원 언어 목록:\n"@ + menu_lines(i as nat),
        decreases 5 - i,
    {
        let ghost before = writer@;
        writer.append("  ");
        push_decimal(writer, (i + 1) as u32);
        writer.append(". ");
        writer.append(languages[i].display_name());
        writer.append("\n");
        assert(writer@ == before + menu_line(i as nat, all_languages()[i as int]));
        i += 1;
    }
}

/// What the menu does after one answer.
pub enum MenuStep {
    /// The answer selected a language.
    Selected(Language),
    /// The answer was not understood: show the retry notice and ask again.
    Retry,
    /// The menu ends without a language.
    Failed(CliError),
}

/// Decides what follows answer number `attempt` (counted from 0): `None`
/// when the input ended before an answer.
pub fn menu_step(attempt: usize, line: Option<&str>) -> (r: MenuStep)
    requires
        attempt < MAX_RETRIES,
    ensures
        match line {
            None => r matches MenuStep::Failed(e) && e@ == no_input_message(),
            Some(answer) => match menu_choice(normalize(answer@)) {
                Some(language) => r == MenuStep::Selected(language),
                None => if attempt + 1 < MAX_RETRIES {
                    r is Retry
                } else {
                    r matches MenuStep::Failed(e) && e@ == too_many_attempts_message()
                },
            },
        },
{
    match line {
        None => MenuStep::Failed(CliError::new(string_of("입력을 읽지 못했습니다"))),
        Some(answer) => match parse_language_menu_input(answer) {
            Some(language) => MenuStep::Selected(language),
            None => if attempt + 1 < MAX_RETRIES {
                MenuStep::Retry
            } else {
                MenuStep::Failed(
                    CliError::new(string_of("지원하지 않는 언어 입력이 3회 누적되어 종료합니다")),
                )
            },
        },
    }
}

/// The outcome of the menu and what it writes after the menu itself, when
/// `input` is what is left to read and `attempt` answers were refused.
pub open spec fn menu_session(input: Seq<char>, attempt: nat) -> (
    Result<Language, Seq<char>>,
    Seq<char>,
)
    decreases MAX_RETRIES - attempt,
{
    if attempt >= MAX_RETRIES {
        (Err(too_many_attempts_message()), seq![])
    } else if input.len() == 0 {
        (Err(no_input_message()), selection_prompt())
    } else {
        let line = first_line(input);
        match menu_choice(normalize(line)) {
            Some(language) => (Ok(language), selection_prompt()),
            None => if attempt + 1 < MAX_RETRIES {
                let rest = menu_session(input.skip(line.len() as int), attempt + 1);
                (rest.0, selection_prompt() + retry_notice() + rest.1)
            } else {
                (Err(too_many_attempts_message()), selection_prompt())
            },
        }
    }
}

/// Runs the language menu on `input`, the text the user types, writing the
/// menu, the prompts and the notices to `output`. The user has
/// `MAX_RETRIES` answers; each is a menu number or a language name.
pub fn interactive_select_with_io(input: &str, output: &mut String) -> (r: Result<
    Language,
    CliError,
>)
    ensures
        final(output)@ == old(output)@ + language_menu() + menu_session(input@, 0).1,
        match r {
            Ok(language) => menu_session(input@, 0).0 == Ok::<Language, Seq<char>>(language),
            Err(e) => menu_session(input@, 0).0 == Err::<Language, Seq<char>>(e@),
        },
{
    write_language_menu(output);
    let ghost start = output@;
    let v = chars_of(input);
    let mut pos: usize = 0;
    let mut attempt: usize = 0;
    assert(v@.skip(0) == v@);
    loop
        invariant
            attempt < MAX_RETRIES,
            pos <= v@.len(),
            v@ == input@,
            start == old(output)@ + language_menu(),
            output@.len() >= start.len(),
            output@.take(start.len() as int) == start,
            menu_session(input@, 0).0 == menu_session(v@.skip(pos as int), attempt as nat).0,
            menu_session(input@, 0).1 == output@.skip(start.len() as int) + menu_session(
                v@.skip(pos as int),
                attempt as nat,
            ).1,
        decreases MAX_RETRIES - attempt,
    {
        let ghost before = output@;
        output.append(SELECTION_PROMPT);
        assert(output@.skip(start.len() as int) == before.skip(start.len() as int)
            + selection_prompt());
        let ghost rest = v@.skip(pos as int);
        let line = if pos < v.len() {
            let (line, next) = read_line(&v, pos);
            proof {
                lemma_first_line_shape(rest);
                assert(rest.skip(line@.len() as int) == v@.skip(next as int));
            }
            pos = next;
            Some(line)
        } else {
            None
        };
        let step = match &line {
            Some(answer) => menu_step(attempt, Some(answer.as_str())),
            None => menu_step(attempt, None),
        };
        match step {
            MenuStep::Selected(language) => {
                assert(output@ == old(output)@ + language_menu() + menu_session(input@, 0).1);
                return Ok(language);
            },
            MenuStep::Failed(e) => {
                assert(output@ == old(output)@ + language_menu() + menu_session(input@, 0).1);
                return Err(e);
            },
            MenuStep::Retry => {
                let ghost mid = output@;
                output.append(RETRY_NOTICE);
                assert(output@.skip(start.len() as int) == mid.skip(start.len() as int)
                    + retry_notice());
                attempt += 1;
            },
        }
    }
}

/// The command-line name of every language is understood as that language.
pub proof fn lemma_language_name_round_trip(language: Language)
    ensures
        language_for_name(normalize(language_name(language))) == Some(language),
{
    reveal_strlit("rust");
    reveal_strlit("rs");
    reveal_strlit("python");
    reveal_strlit("py");
    reveal_strlit("cpp");
    reveal_strlit("c++");
    reveal_strlit("java");
    reveal_strlit("javascript");
    reveal_strlit("js");
    assert(to_ascii_lower(language_name(language)) =~= language_name(language));
}

/// Answering the menu with the number of a menu line selects the language
/// of that line.
pub proof fn lemma_menu_number_selects_listed_language(index: nat)
    requires
        index < 5,
    ensures
        menu_choice(normalize(decimal(index + 1))) == Some(all_languages()[index as int]),
{
    reveal_strlit("1");
    reveal_strlit("2");
    reveal_strlit("3");
    reveal_strlit("4");
    reveal_strlit("5");
    let answer = decimal(index + 1);
    assert(answer == seq![digit_char(index + 1)]);
    assert(to_ascii_lower(answer) =~= answer);
    if index == 0 {
        assert(answer == "1"@);
    } else if index == 1 {
        assert(answer == "2"@);
    } else if index == 2 {
        assert(answer == "3"@);
    } else if index == 3 {
        assert(answer == "4"@);
    } else {
        assert(answer == "5"@);
    }
}

/// `count` repetitions of the retry notice followed by the prompt.
pub open spec fn repeated_prompts(count: nat) -> Seq<char>
    decreases count,
{
    if count == 0 {
        seq![]
    } else {
        retry_notice() + selection_prompt() + repeated_prompts((count - 1) as nat)
    }
}

proof fn lemma_session_retries(input: Seq<char>, attempt: nat) -> (retries: nat)
    requires
        attempt < MAX_RETRIES,
    ensures
        attempt + retries < MAX_RETRIES,
        menu_session(input, attempt).1 == selection_prompt() + repeated_prompts(retries),
    decreases MAX_RETRIES - attempt,
{
    if input.len() == 0 {
        0
    } else {
        let line = first_line(input);
        match menu_choice(normalize(line)) {
            Some(_) => 0,
            None => if attempt + 1 < MAX_RETRIES {
                let k = lemma_session_retries(input.skip(line.len() as int), attempt + 1);
                assert(menu_session(input, attempt).1 == selection_prompt() + repeated_prompts(
                    k + 1,
                ));
                k + 1
            } else {
                0
            },
        }
    }
}

/// The menu asks for an answer at most `MAX_RETRIES` times: after the menu
/// it writes the prompt, then fewer than `MAX_RETRIES` times the retry
/// notice followed by the prompt again.
pub proof fn lemma_menu_asks_at_most_max_retries(input: Seq<char>)
    ensures
        exists|retries: nat|
            retries < MAX_RETRIES && #[trigger] menu_session(input, 0).1 == selection_prompt()
                + repeated_prompts(retries),
{
    let k = lemma_session_retries(input, 0);
    assert(menu_session(input, 0).1 == selection_prompt() + repeated_prompts(k));
}

/// A blank text names no language and is no menu answer.
pub proof fn lemma_blank_answer_selects_nothing(answer: Seq<char>)
    requires
        trim(answer).len() == 0,
    ensures
        normalize(answer).len() == 0,
        menu_choice(normalize(answer)) is None,
{
    reveal_strlit("rust");
    reveal_strlit("rs");
    reveal_strlit("python");
    reveal_strlit("py");
    reveal_strlit("cpp");
    reveal_strlit("c++");
    reveal_strlit("java");
    reveal_strlit("javascript");
    reveal_strlit("js");
    reveal_strlit("1");
    reveal_strlit("2");
    reveal_strlit("3");
    reveal_strlit("4");
    reveal_strlit("5");
    assert(normalize(answer) =~= Seq::<char>::empty());
}

/// The menu ends for want of input only when nothing is left to read: with
/// no input left it writes the prompt and fails with the no-input error;
/// with a line left it never fails with that error on this prompt.
pub proof fn lemma_menu_no_input_only_at_end(input: Seq<char>, attempt: nat)
    requires
        attempt < MAX_RETRIES,
    ensures
        input.len() == 0 ==> menu_session(input, attempt) == (
            Err::<Language, Seq<char>>(no_input_message()),
            selection_prompt(),
        ),
        input.len() > 0 && menu_session(input, attempt).0 == Err::<Language, Seq<char>>(
            no_input_message(),
        ) ==> attempt + 1 < MAX_RETRIES && menu_session(input, attempt).1.len()
            > selection_prompt().len(),
{
    reveal_strlit("지원하지 않는 언어 입력이 3회 누적되어 종료합니다");
    reveal_strlit("입력을 읽지 못했습니다");
    assert(too_many_attempts_message().len() != no_input_message().len());
    if input.len() > 0 {
        let line = first_line(input);
        if menu_choice(normalize(line)) is None && attempt + 1 < MAX_RETRIES {
            let rest = menu_session(input.skip(line.len() as int), attempt + 1);
            assert(menu_session(input, attempt).1 == selection_prompt() + retry_notice()
                + rest.1);
            reveal_strlit("지원하지 않는 언어입니다. 다시 입력해주세요.\n");
            assert(retry_notice().len() > 0);
        }
    }
}

/// A blank answer counts as an answer that is not understood: before the
/// last attempt the menu writes the prompt and the retry notice and asks
/// again with the rest of the input; at the last attempt it gives up.
pub proof fn lemma_menu_blank_answer_retries(input: Seq<char>, attempt: nat)
    requires
        attempt < MAX_RETRIES,
        input.len() > 0,
        trim(first_line(input)).len() == 0,
    ensures
        ({
            let rest = menu_session(input.skip(first_line(input).len() as int), attempt + 1);
            attempt + 1 < MAX_RETRIES ==> menu_session(input, attempt) == (
                rest.0,
                selection_prompt() + retry_notice() + rest.1,
            )
        }),
        attempt + 1 == MAX_RETRIES ==> menu_session(input, attempt) == (
            Err::<Language, Seq<char>>(too_many_attempts_message()),
            selection_prompt(),
        ),
{
    lemma_blank_answer_selects_nothing(first_line(input));
}

} // verus!
