//! The layout of a generated problem workspace: its directory name, the
//! files it holds, and when an existing directory is left alone.

use vstd::prelude::*;

use crate::cli::{normalize, normalize_input, Language};
use crate::crawler::ProblemData;
use crate::template::{
    cargo_toml_text, get_cargo_toml, get_filename, get_source_code, source_filename,
    source_template,
};
use crate::text::{
    chars_of, decimal, equals_str, first_line, is_white_space, is_white_space_char, trim, trim_end,
    lemma_trim_start_shape, push_char, push_decimal, read_line, string_of, trim_start,
};

verus! {

/// The length of the run of characters that are not white space at the
/// start of `s`.
pub open spec fn word_len(s: Seq<char>) -> nat
    decreases s.len(),
{
    if s.len() > 0 && !is_white_space(s[0]) {
        1 + word_len(s.drop_first())
    } else {
        0
    }
}

pub proof fn lemma_word_len_bound(s: Seq<char>)
    ensures
        word_len(s) <= s.len(),
    decreases s.len(),
{
    if s.len() > 0 && !is_white_space(s[0]) {
        lemma_word_len_bound(s.drop_first());
    }
}

/// The words of `s`: its maximal runs of characters that are not white
/// space, in order (`str::split_whitespace`).
pub open spec fn words(s: Seq<char>) -> Seq<Seq<char>>
    decreases s.len(),
{
    let t = trim_start(s);
    if t.len() == 0 {
        seq![]
    } else {
        proof {
            lemma_trim_start_shape(s);
            lemma_word_len_bound(t);
        }
        let k = word_len(t);
        seq![t.take(k as int)] + words(t.skip(k as int))
    }
}

/// The words joined with `_` between each two.
pub open spec fn join_words(words: Seq<Seq<char>>) -> Seq<char>
    decreases words.len(),
{
    if words.len() == 0 {
        seq![]
    } else if words.len() == 1 {
        words[0]
    } else {
        join_words(words.drop_last()) + seq!['_'] + words.last()
    }
}

/// A title made fit for a directory name: its words joined with `_`.
pub open spec fn sanitized(title: Seq<char>) -> Seq<char> {
    join_words(words(title))
}

proof fn lemma_words_skip_white_space(s: Seq<char>, i: int)
    requires
        0 <= i < s.len(),
        is_white_space(s[i]),
    ensures
        words(s.skip(i)) == words(s.skip(i + 1)),
{
    assert(s.skip(i).drop_first() == s.skip(i + 1));
}

proof fn lemma_words_at_word(s: Seq<char>, start: int, end: int)
    requires
        0 <= start < end <= s.len(),
        forall|k: int| start <= k < end ==> !is_white_space(#[trigger] s[k]),
        end == s.len() || is_white_space(s[end]),
    ensures
        words(s.skip(start)) == seq![s.subrange(start, end)] + words(s.skip(end)),
    decreases end - start,
{
    let x = s.skip(start);
    assert(trim_start(x) == x);
    lemma_word_len_run(s, start, end);
    assert(x.take(end - start) == s.subrange(start, end));
    assert(x.skip(end - start) == s.skip(end));
}

proof fn lemma_word_len_run(s: Seq<char>, start: int, end: int)
    requires
        0 <= start <= end <= s.len(),
        forall|k: int| start <= k < end ==> !is_white_space(#[trigger] s[k]),
        end == s.len() || is_white_space(s[end]),
    ensures
        word_len(s.skip(start)) == end - start,
    decreases end - start,
{
    if start < end {
        assert(s.skip(start).drop_first() == s.skip(start + 1));
        lemma_word_len_run(s, start + 1, end);
    }
}

/// `title` made fit for a directory name: its words joined with `_`.
pub fn sanitize_title(title: &str) -> (r: String)
    ensures
        r@ == sanitized(title@),
{
    let v = chars_of(title);
    let n = v.len();
    let mut out = String::new();
    let ghost mut done: Seq<Seq<char>> = seq![];
    let mut any_word = false;
    let mut i: usize = 0;
    assert(v@.skip(0) == v@);
    while i < n
        invariant
            i <= n == v@.len(),
            v@ == title@,
            words(v@) == done + words(v@.skip(i as int)),
            out@ == join_words(done),
            any_word == (done.len() > 0),
        decreases n - i,
    {
        if is_white_space_char(v[i]) {
            proof {
                lemma_words_skip_white_space(v@, i as int);
            }
            i += 1;
        } else {
            let start = i;
            while i < n && !is_white_space_char(v[i])
                invariant
                    start <= i <= n == v@.len(),
                    forall|k: int| start <= k < i ==> !is_white_space(#[trigger] v@[k]),
                decreases n - i,
            {
                i += 1;
            }
            let ghost word = v@.subrange(start as int, i as int);
            proof {
                lemma_words_at_word(v@, start as int, i as int);
                assert(done + words(v@.skip(start as int)) == done.push(word) + words(
                    v@.skip(i as int),
                ));
                assert(done.push(word).drop_last() == done);
            }
            if any_word {
                push_char(&mut out, '_');
            }
            let ghost joined = out@;
            let mut k = start;
            while k < i
                invariant
                    start <= k <= i <= n == v@.len(),
                    out@ == joined + v@.subrange(start as int, k as int),
                decreases i - k,
            {
                push_char(&mut out, v[k]);
                assert(v@.subrange(start as int, k + 1) == v@.subrange(start as int, k as int).push(
                    v@[k as int],
                ));
                k += 1;
            }
            proof {
                done = done.push(word);
            }
            any_word = true;
        }
    }
    assert(words(v@.skip(n as int)) == Seq::<Seq<char>>::empty());
    assert(done + Seq::<Seq<char>>::empty() == done);
    out
}

/// Whether no character of `s` is white space.
pub open spec fn free_of_white_space(s: Seq<char>) -> bool {
    forall|i: int| 0 <= i < s.len() ==> !is_white_space(#[trigger] s[i])
}

proof fn lemma_word_len_prefix(s: Seq<char>)
    ensures
        word_len(s) <= s.len(),
        free_of_white_space(s.take(word_len(s) as int)),
    decreases s.len(),
{
    lemma_word_len_bound(s);
    if s.len() > 0 && !is_white_space(s[0]) {
        lemma_word_len_prefix(s.drop_first());
        let k = word_len(s.drop_first());
        assert forall|i: int| 0 <= i < word_len(s) implies !is_white_space(
            #[trigger] s.take(word_len(s) as int)[i],
        ) by {
            if i > 0 {
                assert(s.take(word_len(s) as int)[i] == s.drop_first().take(k as int)[i - 1]);
            }
        }
    }
}

proof fn lemma_words_free_of_white_space(s: Seq<char>)
    ensures
        forall|j: int|
            0 <= j < words(s).len() ==> #[trigger] words(s)[j].len() > 0 && free_of_white_space(
                words(s)[j],
            ),
    decreases s.len(),
{
    let t = trim_start(s);
    if t.len() > 0 {
        lemma_trim_start_shape(s);
        lemma_word_len_prefix(t);
        let k = word_len(t);
        lemma_words_free_of_white_space(t.skip(k as int));
        let rest = words(t.skip(k as int));
        assert forall|j: int| 0 <= j < words(s).len() implies #[trigger] words(s)[j].len() > 0
            && free_of_white_space(words(s)[j]) by {
            if j > 0 {
                assert(words(s)[j] == rest[j - 1]);
            }
        }
    }
}

proof fn lemma_join_free_of_white_space(ws: Seq<Seq<char>>)
    requires
        forall|j: int| 0 <= j < ws.len() ==> free_of_white_space(#[trigger] ws[j]),
    ensures
        free_of_white_space(join_words(ws)),
    decreases ws.len(),
{
    if ws.len() > 1 {
        lemma_join_free_of_white_space(ws.drop_last());
        let a = join_words(ws.drop_last());
        let joined = a + seq!['_'] + ws.last();
        assert forall|i: int| 0 <= i < joined.len() implies !is_white_space(#[trigger] joined[i]) by {
            if i < a.len() {
                assert(joined[i] == a[i]);
            } else if i > a.len() {
                assert(joined[i] == ws.last()[i - a.len() - 1]);
            }
        }
    }
}

/// A sanitized title holds no white space.
pub proof fn lemma_sanitized_free_of_white_space(title: Seq<char>)
    ensures
        free_of_white_space(sanitized(title)),
{
    lemma_words_free_of_white_space(title);
    lemma_join_free_of_white_space(words(title));
}

/// A text without white space is its own sanitized form.
pub proof fn lemma_sanitized_fixed(s: Seq<char>)
    requires
        free_of_white_space(s),
    ensures
        sanitized(s) == s,
{
    if s.len() > 0 {
        assert(trim_start(s) == s);
        lemma_word_len_run(s, 0, s.len() as int);
        assert(s.skip(0) == s);
        assert(s.take(s.len() as int) == s);
        assert(words(s.skip(s.len() as int)) == Seq::<Seq<char>>::empty());
        assert(words(s) == seq![s]);
    } else {
        assert(words(s) == Seq::<Seq<char>>::empty());
    }
}

/// Sanitizing a sanitized title changes nothing.
pub proof fn lemma_sanitize_idempotent(title: Seq<char>)
    ensures
        sanitized(sanitized(title)) == sanitized(title),
{
    lemma_sanitized_free_of_white_space(title);
    lemma_sanitized_fixed(sanitized(title));
}

/// The name of the directory of a problem: its number, `_` and its
/// sanitized title.
pub open spec fn directory_name(problem_number: nat, title: Seq<char>) -> Seq<char> {
    decimal(problem_number) + "_"@ + sanitized(title)
}

/// `Path::join` of a relative `name` onto `base`: a `/` goes between them
/// unless `base` is empty or already ends with one.
pub open spec fn join_path(base: Seq<char>, name: Seq<char>) -> Seq<char> {
    if base.len() == 0 || base.last() == '/' {
        base + name
    } else {
        base + "/"@ + name
    }
}

/// The path of the relative `name` under `base`.
pub fn join_path_str(base: &str, name: &str) -> (r: String)
    ensures
        r@ == join_path(base@, name@),
{
    proof {
        reveal_strlit("/");
    }
    let chars = chars_of(base);
    let mut r = string_of(base);
    if chars.len() > 0 && chars[chars.len() - 1] != '/' {
        push_char(&mut r, '/');
    }
    r.append(name);
    r
}

/// The path of the directory of problem `problem_number` under `base_dir`.
pub fn problem_directory(base_dir: &str, problem_number: u32, title: &str) -> (r: String)
    ensures
        r@ == join_path(base_dir@, directory_name(problem_number as nat, title@)),
{
    proof {
        reveal_strlit("_");
    }
    let mut name = String::new();
    push_decimal(&mut name, problem_number);
    push_char(&mut name, '_');
    let sanitized_title = sanitize_title(title);
    name.append(sanitized_title.as_str());
    join_path_str(base_dir, name.as_str())
}

/// A change to the file system that generation makes.
pub enum FsAction {
    /// Create the directory at the path, with its missing parents.
    CreateDir(String),
    /// Write the contents to the file at the path, replacing it.
    WriteFile(String, String),
}

impl View for FsAction {
    /// The path, and the contents for a file (`None` for a directory).
    type V = (Seq<char>, Option<Seq<char>>);

    open spec fn view(&self) -> (Seq<char>, Option<Seq<char>>) {
        match self {
            FsAction::CreateDir(path) => (path@, None),
            FsAction::WriteFile(path, contents) => (path@, Some(contents@)),
        }
    }
}

/// The changes that generate the workspace of a problem in `directory`:
/// the directory, `input.txt` with the sample input, and the source file;
/// for Rust also `Cargo.toml`, with the source file under `src`.
pub open spec fn planned_actions(
    directory: Seq<char>,
    problem_number: nat,
    sample_input: Seq<char>,
    language: Language,
) -> Seq<(Seq<char>, Option<Seq<char>>)> {
    let input = (join_path(directory, "input.txt"@), Some(sample_input));
    match language {
        Language::Rust => {
            let src = join_path(directory, "src"@);
            seq![
                (directory, None),
                input,
                (src, None),
                (join_path(directory, "Cargo.toml"@), Some(cargo_toml_text(problem_number))),
                (
                    join_path(src, source_filename(Language::Rust)),
                    Some(source_template(Language::Rust)),
                ),
            ]
        },
        _ => seq![
            (directory, None),
            input,
            (join_path(directory, source_filename(language)), Some(source_template(language))),
        ],
    }
}

/// What generation did.
#[derive(Debug, Clone, PartialEq, Eq)]
pub enum GenerateResult {
    /// The workspace was written to the directory.
    Created { directory: String },
    /// The directory existed and was left as it was.
    Skipped { directory: String },
}

/// Generates the workspace of problem `problem_number` in `language` under
/// `base_dir`: the result, and the changes to make, in order.
/// `directory_exists` tells whether the problem directory already exists;
/// `overwrite_confirmed`, consulted only then, whether the user agreed to
/// overwrite it. An existing directory without that agreement is skipped
/// and nothing is changed.
pub fn generate_in_dir_with_confirm(
    base_dir: &str,
    problem_number: u32,
    data: &ProblemData,
    language: Language,
    directory_exists: bool,
    overwrite_confirmed: bool,
) -> (r: (GenerateResult, Vec<FsAction>))
    ensures
        ({
            let directory = join_path(
                base_dir@,
                directory_name(problem_number as nat, data.title@),
            );
            if directory_exists && !overwrite_confirmed {
                &&& r.0 matches GenerateResult::Skipped { directory: d }
                &&& d@ == directory
                &&& r.1@.len() == 0
            } else {
                &&& r.0 matches GenerateResult::Created { directory: d }
                &&& d@ == directory
                &&& r.1@.map_values(|a: FsAction| a@) == planned_actions(
                    directory,
                    problem_number as nat,
                    data.sample_input@,
                    language,
                )
            }
        }),
{
    let directory = problem_directory(base_dir, problem_number, data.title.as_str());
    if directory_exists && !overwrite_confirmed {
        return (GenerateResult::Skipped { directory }, Vec::new());
    }
    let mut actions: Vec<FsAction> = Vec::new();
    actions.push(FsAction::CreateDir(directory.clone()));
    actions.push(
        FsAction::WriteFile(
            join_path_str(directory.as_str(), "input.txt"),
            data.sample_input.clone(),
        ),
    );
    match language {
        Language::Rust => {
            let src_dir = join_path_str(directory.as_str(), "src");
            actions.push(FsAction::CreateDir(src_dir.clone()));
            actions.push(
                FsAction::WriteFile(
                    join_path_str(directory.as_str(), "Cargo.toml"),
                    get_cargo_toml(problem_number),
                ),
            );
            actions.push(
                FsAction::WriteFile(
                    join_path_str(src_dir.as_str(), get_filename(Language::Rust)),
                    string_of(get_source_code(Language::Rust)),
                ),
            );
        },
        _ => {
            actions.push(
                FsAction::WriteFile(
                    join_path_str(directory.as_str(), get_filename(language)),
                    string_of(get_source_code(language)),
                ),
            );
        },
    }
    assert(actions@.map_values(|a: FsAction| a@) =~= planned_actions(
        directory@,
        problem_number as nat,
        data.sample_input@,
        language,
    ));
    (GenerateResult::Created { directory }, actions)
}

/// Generates the workspace of a problem in the current directory; see
/// `generate_in_dir_with_confirm`.
pub fn generate(
    problem_number: u32,
    data: &ProblemData,
    language: Language,
    directory_exists: bool,
    overwrite_confirmed: bool,
) -> (r: (GenerateResult, Vec<FsAction>))
    ensures
        ({
            let directory = join_path("."@, directory_name(problem_number as nat, data.title@));
            if directory_exists && !overwrite_confirmed {
                &&& r.0 matches GenerateResult::Skipped { directory: d }
                &&& d@ == directory
                &&& r.1@.len() == 0
            } else {
                &&& r.0 matches GenerateResult::Created { directory: d }
                &&& d@ == directory
                &&& r.1@.map_values(|a: FsAction| a@) == planned_actions(
                    directory,
                    problem_number as nat,
                    data.sample_input@,
                    language,
                )
            }
        }),
{
    generate_in_dir_with_confirm(
        ".",
        problem_number,
        data,
        language,
        directory_exists,
        overwrite_confirmed,
    )
}

/// The question asked before an existing directory is overwritten.
pub open spec fn overwrite_prompt_text(path: Seq<char>) -> Seq<char> {
    path + " 폴더가 이미 존재합니다. 덮어쓸까요? (y/N): "@
}

/// Whether an answer agrees to overwrite: `y` or `yes`, ignoring case and
/// surrounding white space.
pub open spec fn accepts_overwrite(answer: Seq<char>) -> bool {
    normalize(answer) == "y"@ || normalize(answer) == "yes"@
}

/// The question asked before the directory at `path` is overwritten.
pub fn overwrite_prompt(path: &str) -> (r: String)
    ensures
        r@ == overwrite_prompt_text(path@),
{
    let mut r = string_of(path);
    r.append(" 폴더가 이미 존재합니다. 덮어쓸까요? (y/N): ");
    r
}

/// Whether the answer `answer` agrees to overwrite.
pub fn is_overwrite_accepted(answer: &str) -> (b: bool)
    ensures
        b == accepts_overwrite(answer@),
{
    let normalized = normalize_input(answer);
    equals_str(&normalized, "y") || equals_str(&normalized, "yes")
}

/// Asks whether to overwrite the directory at `path`, writing the question
/// to `output` and reading the answer from `input`, the text the user
/// types. No answer (an empty input) declines.
pub fn confirm_overwrite_with_io(input: &str, output: &mut String, path: &str) -> (b: bool)
    ensures
        final(output)@ == old(output)@ + overwrite_prompt_text(path@),
        b == (input@.len() > 0 && accepts_overwrite(first_line(input@))),
{
    let prompt = overwrite_prompt(path);
    output.append(prompt.as_str());
    let v = chars_of(input);
    if v.len() == 0 {
        return false;
    }
    let (line, _) = read_line(&v, 0);
    assert(v@.skip(0) == v@);
    is_overwrite_accepted(line.as_str())
}

proof fn lemma_words_same_trim_start(x: Seq<char>, y: Seq<char>)
    requires
        trim_start(x) == trim_start(y),
    ensures
        words(x) == words(y),
{
}

proof fn lemma_word_len_append(a: Seq<char>, t: Seq<char>)
    requires
        t.len() == 0 || is_white_space(t[0]),
    ensures
        word_len(a + t) == word_len(a),
    decreases a.len(),
{
    if a.len() == 0 {
        assert(a + t == t);
    } else {
        assert((a + t).drop_first() == a.drop_first() + t);
        lemma_word_len_append(a.drop_first(), t);
    }
}

/// The words of two texts put together with white space between them are
/// the words of the first followed by the words of the second.
pub proof fn lemma_words_split_at_white_space(a: Seq<char>, c: char, b: Seq<char>)
    requires
        is_white_space(c),
    ensures
        words(a + seq![c] + b) == words(a) + words(b),
    decreases a.len(),
{
    let s = a + seq![c] + b;
    if a.len() == 0 {
        assert(s.drop_first() == b);
        assert(trim_start(s) == trim_start(b));
        lemma_words_same_trim_start(s, b);
        assert(words(a) == Seq::<Seq<char>>::empty());
        assert(words(a) + words(b) == words(b));
    } else if is_white_space(a[0]) {
        assert(s.drop_first() == a.drop_first() + seq![c] + b);
        lemma_words_split_at_white_space(a.drop_first(), c, b);
        lemma_words_same_trim_start(s, s.drop_first());
        lemma_words_same_trim_start(a, a.drop_first());
    } else {
        assert(trim_start(s) == s);
        assert(trim_start(a) == a);
        lemma_word_len_bound(a);
        lemma_word_len_append(a, seq![c] + b);
        assert(s == a + (seq![c] + b));
        let k = word_len(a);
        assert(k >= 1);
        assert(s.take(k as int) == a.take(k as int));
        assert(s.skip(k as int) == a.skip(k as int) + seq![c] + b);
        lemma_words_split_at_white_space(a.skip(k as int), c, b);
        assert(words(s) == seq![a.take(k as int)] + (words(a.skip(k as int)) + words(b)));
        assert(words(a) == seq![a.take(k as int)] + words(a.skip(k as int)));
    }
}

proof fn lemma_join_words_concat(x: Seq<Seq<char>>, y: Seq<Seq<char>>)
    requires
        x.len() > 0,
        y.len() > 0,
    ensures
        join_words(x + y) == join_words(x) + seq!['_'] + join_words(y),
    decreases y.len(),
{
    if y.len() == 1 {
        assert((x + y).drop_last() == x);
    } else {
        assert((x + y).drop_last() == x + y.drop_last());
        lemma_join_words_concat(x, y.drop_last());
    }
}

proof fn lemma_words_nonempty(s: Seq<char>)
    requires
        trim(s).len() > 0,
    ensures
        words(s).len() > 0,
{
    if trim_start(s).len() == 0 {
        assert(trim(s) == trim_start(s));
    }
}

/// Titles joined by white space sanitize to the sanitized parts joined by
/// `_`: every word of the title is kept, in order, with one `_` between
/// two words.
pub proof fn lemma_sanitized_concat(a: Seq<char>, c: char, b: Seq<char>)
    requires
        is_white_space(c),
        trim(a).len() > 0,
        trim(b).len() > 0,
    ensures
        sanitized(a + seq![c] + b) == sanitized(a) + seq!['_'] + sanitized(b),
{
    lemma_words_split_at_white_space(a, c, b);
    lemma_words_nonempty(a);
    lemma_words_nonempty(b);
    lemma_join_words_concat(words(a), words(b));
}

proof fn lemma_trim_end_keeps_first(t: Seq<char>)
    requires
        t.len() > 0,
        !is_white_space(t[0]),
    ensures
        trim_end(t).len() > 0,
    decreases t.len(),
{
    if t.len() > 1 && is_white_space(t.last()) {
        lemma_trim_end_keeps_first(t.drop_last());
    }
}

/// A blank title sanitizes to the empty text.
pub proof fn lemma_sanitized_blank(title: Seq<char>)
    requires
        trim(title).len() == 0,
    ensures
        sanitized(title) == Seq::<char>::empty(),
{
    assert(trim(title) == trim_end(trim_start(title)));
    if trim_start(title).len() > 0 {
        lemma_trim_start_shape(title);
        lemma_trim_end_keeps_first(trim_start(title));
    }
}

} // verus!
