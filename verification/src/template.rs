//! Source templates and build files of a generated workspace.

use vstd::prelude::*;

use crate::cli::Language;
use crate::text::{decimal, push_decimal, string_of};

verus! {

/// The Rust source template: reads `input.txt`, or standard input when it is missing.
pub const RUST_SOURCE: &'static str = r#"use std::{
    fs::File,
    io::{self, Read},
};

fn main() {
    let mut tokens = read!();
    // TODO: 풀이 작성
}

#[macro_export]
macro_rules! read {
    () => {{
        let mut buf = String::new();
        match File::open("input.txt") {
            Ok(mut f) => f.read_to_string(&mut buf).unwrap(),
            Err(_) => io::stdin().read_to_string(&mut buf).unwrap(),
        };
        Box::leak(buf.into_boxed_str()).split_ascii_whitespace()
    }};
}

#[macro_export]
macro_rules! next {
    ($tokens:expr) => { $tokens.next().unwrap() };
    ($tokens:expr, $($t:ty),+) => {
        ($($tokens.next().unwrap().parse::<$t>().unwrap()),+)
    };
}
"#;

/// The Python source template: reads `input.txt` in place of standard input when it exists.
pub const PYTHON_SOURCE: &'static str = r#"import sys
import os

if os.path.exists('input.txt'):
    sys.stdin = open('input.txt', 'r')

def main():
    # TODO: 풀이 작성
    pass

if __name__ == '__main__':
    main()
"#;

/// The C++ source template: reads `input.txt` in place of standard input when it opens.
pub const CPP_SOURCE: &'static str = r#"#include <bits/stdc++.h>
#include <fstream>
using namespace std;

int main() {
    ifstream file("input.txt");
    if (file.is_open()) {
        cin.rdbuf(file.rdbuf());
    }

    // TODO: 풀이 작성

    return 0;
}
"#;

/// The Java source template: reads `input.txt` in place of standard input when it exists.
pub const JAVA_SOURCE: &'static str = r#"import java.util.*;
import java.io.*;

public class Main {
    public static void main(String[] args) throws Exception {
        File file = new File("input.txt");
        if (file.exists()) {
            System.setIn(new FileInputStream(file));
        }
        BufferedReader br = new BufferedReader(new InputStreamReader(System.in));

        // TODO: 풀이 작성
    }
}
"#;

/// The JavaScript source template: reads `input.txt`, or standard input when it is missing.
pub const JAVASCRIPT_SOURCE: &'static str = r#"const { readFileSync } = require('fs');

const input = (() => {
    try {
        return readFileSync('input.txt', 'utf-8');
    } catch {
        return readFileSync(0, 'utf-8');
    }
})();

const lines = input.trim().split('\n');
let idx = 0;
const next = () => lines[idx++];

// TODO: 풀이 작성
"#;

/// The source template of a language.
pub open spec fn source_template(language: Language) -> Seq<char> {
    match language {
        Language::Rust => RUST_SOURCE@,
        Language::Python => PYTHON_SOURCE@,
        Language::Cpp => CPP_SOURCE@,
        Language::Java => JAVA_SOURCE@,
        Language::JavaScript => JAVASCRIPT_SOURCE@,
    }
}

/// The name of the source file of a language.
pub open spec fn source_filename(language: Language) -> Seq<char> {
    match language {
        Language::Rust => "main.rs"@,
        Language::Python => "main.py"@,
        Language::Cpp => "main.cpp"@,
        Language::Java => "Main.java"@,
        Language::JavaScript => "main.js"@,
    }
}

/// The `Cargo.toml` of the Rust workspace of a problem.
pub open spec fn cargo_toml_text(problem_number: nat) -> Seq<char> {
    "[package]\nname = \"boj-"@ + decimal(problem_number)
        + "\"\nversion = \"0.1.0\"\nedition = \"2021\"\n\n[dependencies]\n"@
}

/// The source template of a language.
pub fn get_source_code(language: Language) -> (s: &'static str)
    ensures
        s@ == source_template(language),
{
    match language {
        Language::Rust => RUST_SOURCE,
        Language::Python => PYTHON_SOURCE,
        Language::Cpp => CPP_SOURCE,
        Language::Java => JAVA_SOURCE,
        Language::JavaScript => JAVASCRIPT_SOURCE,
    }
}

/// The name of the source file of a language.
pub fn get_filename(language: Language) -> (s: &'static str)
    ensures
        s@ == source_filename(language),
{
    match language {
        Language::Rust => "main.rs",
        Language::Python => "main.py",
        Language::Cpp => "main.cpp",
        Language::Java => "Main.java",
        Language::JavaScript => "main.js",
    }
}

/// The `Cargo.toml` of the Rust workspace of problem `problem_number`.
pub fn get_cargo_toml(problem_number: u32) -> (s: String)
    ensures
        s@ == cargo_toml_text(problem_number as nat),
{
    let mut s = string_of("[package]\nname = \"boj-");
    push_decimal(&mut s, problem_number);
    s.append("\"\nversion = \"0.1.0\"\nedition = \"2021\"\n\n[dependencies]\n");
    s
}

/// The imports that the `read!` macro of the Rust template needs.
pub open spec fn rust_template_imports() -> Seq<char> {
    "use std::{\n    fs::File,\n    io::{self, Read},\n};"@
}

/// The Rust template (the `src/main.rs` of a generated workspace) opens
/// with the imports its `read!` macro needs, so the workspace builds.
pub proof fn lemma_rust_template_header()
    ensures
        source_template(Language::Rust).len() > rust_template_imports().len(),
        source_template(Language::Rust).take(rust_template_imports().len() as int)
            == rust_template_imports(),
{
    reveal_strlit(r#"use std::{
    fs::File,
    io::{self, Read},
};

fn main() {
    let mut tokens = read!();
    // TODO: 풀이 작성
}

#[macro_export]
macro_rules! read {
    () => {{
        let mut buf = String::new();
        match File::open("input.txt") {
            Ok(mut f) => f.read_to_string(&mut buf).unwrap(),
            Err(_) => io::stdin().read_to_string(&mut buf).unwrap(),
        };
        Box::leak(buf.into_boxed_str()).split_ascii_whitespace()
    }};
}

#[macro_export]
macro_rules! next {
    ($tokens:expr) => { $tokens.next().unwrap() };
    ($tokens:expr, $($t:ty),+) => {
        ($($tokens.next().unwrap().parse::<$t>().unwrap()),+)
    };
}
"#);
    reveal_strlit("use std::{\n    fs::File,\n    io::{self, Read},\n};");
    assert(source_template(Language::Rust).take(rust_template_imports().len() as int)
        =~= rust_template_imports());
}

} // verus!
