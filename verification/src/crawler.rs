//! Problem pages: where they are, what is read from them, and the errors
//! that fetching one can end in.

use vstd::prelude::*;

use crate::text::{decimal, is_blank, is_blank_str, push_decimal, string_of, trim, trim_str};

verus! {

/// The `User-Agent` header sent with each request for a problem page.
pub const USER_AGENT: &'static str = "Mozilla/5.0 (Macintosh; Intel Mac OS X 10_15_7) AppleWebKit/537.36 (KHTML, like Gecko) Chrome/135.0.0.0 Safari/537.36";

/// What is read from a problem page.
#[derive(Debug, Clone, PartialEq, Eq)]
pub struct ProblemData {
    /// The problem title, trimmed.
    pub title: String,
    /// The first sample input, as the page shows it.
    pub sample_input: String,
}

/// Why a problem page could not be read.
#[derive(Debug, Clone, Copy, PartialEq, Eq, Structural)]
pub enum CrawlerError {
    /// The request did not reach the server or its reply was cut.
    Network,
    /// The server has no such problem.
    NotFound { problem_number: u32 },
    /// The server refused the request.
    Forbidden,
    /// The page does not have the expected structure.
    Parse,
    /// The server answered with another error status.
    UnexpectedStatus { status_code: u16 },
}

/// The message shown to the user for an error.
pub open spec fn crawler_error_message(error: CrawlerError) -> Seq<char> {
    match error {
        CrawlerError::Network => "네트워크 연결을 확인해주세요"@,
        CrawlerError::NotFound { problem_number } => "문제 번호 "@ + decimal(
            problem_number as nat,
        ) + "을 찾을 수 없습니다"@,
        CrawlerError::Forbidden => "BOJ 서버가 요청을 거부했습니다. 잠시 후 다시 시도해주세요"@,
        CrawlerError::Parse => "페이지 구조가 변경되었을 수 있습니다"@,
        CrawlerError::UnexpectedStatus { status_code } => "예상하지 못한 응답을 받았습니다. status="@
            + decimal(status_code as nat),
    }
}

impl CrawlerError {
    /// The message shown to the user.
    pub fn to_string(&self) -> (s: String)
        ensures
            s@ == crawler_error_message(*self),
    {
        match self {
            CrawlerError::Network => string_of("네트워크 연결을 확인해주세요"),
            CrawlerError::NotFound { problem_number } => {
                let mut s = string_of("문제 번호 ");
                push_decimal(&mut s, *problem_number);
                s.append("을 찾을 수 없습니다");
                s
            },
            CrawlerError::Forbidden => string_of(
                "BOJ 서버가 요청을 거부했습니다. 잠시 후 다시 시도해주세요",
            ),
            CrawlerError::Parse => string_of("페이지 구조가 변경되었을 수 있습니다"),
            CrawlerError::UnexpectedStatus { status_code } => {
                let mut s = string_of("예상하지 못한 응답을 받았습니다. status=");
                push_decimal(&mut s, *status_code as u32);
                s
            },
        }
    }
}

/// The address of the page of a problem.
pub open spec fn problem_page_url(problem_number: nat) -> Seq<char> {
    "https://www.acmicpc.net/problem/"@ + decimal(problem_number)
}

/// The address of the page of problem `problem_number`.
pub fn problem_url(problem_number: u32) -> (url: String)
    ensures
        url@ == problem_page_url(problem_number as nat),
{
    let mut url = string_of("https://www.acmicpc.net/problem/");
    push_decimal(&mut url, problem_number);
    url
}

/// The error that an error status of the server stands for.
pub open spec fn status_error(problem_number: u32, status_code: u16) -> CrawlerError {
    if status_code == 403 {
        CrawlerError::Forbidden
    } else if status_code == 404 {
        CrawlerError::NotFound { problem_number }
    } else {
        CrawlerError::UnexpectedStatus { status_code }
    }
}

/// The error for an error status of the server.
pub fn map_status_code(problem_number: u32, status_code: u16) -> (e: CrawlerError)
    ensures
        e == status_error(problem_number, status_code),
{
    match status_code {
        403 => CrawlerError::Forbidden,
        404 => CrawlerError::NotFound { problem_number },
        _ => CrawlerError::UnexpectedStatus { status_code },
    }
}

/// The CSS selector of the problem title.
pub open spec fn title_selector() -> Seq<char> {
    "#problem_title"@
}

/// The CSS selector of the first sample input.
pub open spec fn sample_selector() -> Seq<char> {
    "pre#sample-input-1"@
}

/// What `scraper` makes of the page `html` and the CSS selector group
/// `selector`: `Err(())` when `Selector::parse` refuses the selector;
/// otherwise the text of the first element that `Html::select` yields on
/// `Html::parse_document(html)`, or `None` when it yields none.
pub uninterp spec fn scraped_first_text(html: Seq<char>, selector: Seq<char>) -> Result<
    Option<Seq<char>>,
    (),
>;

/// A scraping result, with the text taken by its view.
pub open spec fn scraped_view(r: Result<Option<String>, ()>) -> Result<Option<Seq<char>>, ()> {
    match r {
        Ok(Some(text)) => Ok(Some(text@)),
        Ok(None) => Ok(None),
        Err(()) => Err(()),
    }
}

/// The text of the first element of the page `html` that matches the CSS
/// selector group `selector`.
///
/// Trusted wrapper of `scraper`: it parses the selector with
/// `Selector::parse`, the page with `Html::parse_document`, takes the first
/// element of `Html::select` and collects `ElementRef::text`. The contract
/// only names the result (`scraped_first_text`); it says nothing of how
/// HTML is parsed or selectors are matched.
#[verifier::external_body]
fn first_match_text(html: &str, selector: &str) -> (r: Result<Option<String>, ()>)
    ensures
        scraped_view(r) == scraped_first_text(html@, selector@),
{
    let selector = match scraper::Selector::parse(selector) {
        Ok(selector) => selector,
        Err(_) => return Err(()),
    };
    let document = scraper::Html::parse_document(html);
    match document.select(&selector).next() {
        Some(element) => Ok(Some(element.text().collect::<String>())),
        None => Ok(None),
    }
}

/// The title and sample input read from what the title and the sample
/// selectors found, or `None` when the page lacks either: the title is the
/// trimmed text of its element and must not be empty; the sample input is
/// the text of its element as it is and must not be blank.
pub open spec fn problem_from_scraped(
    title: Result<Option<Seq<char>>, ()>,
    sample: Result<Option<Seq<char>>, ()>,
) -> Option<(Seq<char>, Seq<char>)> {
    match (title, sample) {
        (Ok(Some(t)), Ok(Some(s))) => if trim(t).len() > 0 && !is_blank(s) {
            Some((trim(t), s))
        } else {
            None
        },
        _ => None,
    }
}

/// The problem data of a page, given what the title selector and the
/// sample selector found on it.
pub fn problem_from_matches(
    title: Result<Option<String>, ()>,
    sample: Result<Option<String>, ()>,
) -> (r: Result<ProblemData, CrawlerError>)
    ensures
        match r {
            Ok(data) => problem_from_scraped(scraped_view(title), scraped_view(sample)) == Some(
                (data.title@, data.sample_input@),
            ),
            Err(e) => problem_from_scraped(scraped_view(title), scraped_view(sample)) is None && e
                == CrawlerError::Parse,
        },
{
    let title = match title {
        Ok(Some(text)) => trim_str(text.as_str()),
        _ => return Err(CrawlerError::Parse),
    };
    if title.as_str().is_empty() {
        return Err(CrawlerError::Parse);
    }
    match sample {
        Ok(Some(text)) => if is_blank_str(text.as_str()) {
            Err(CrawlerError::Parse)
        } else {
            Ok(ProblemData { title, sample_input: text })
        },
        _ => Err(CrawlerError::Parse),
    }
}

/// Reads the title and the first sample input of a problem page.
pub fn parse_problem_html(body: &str) -> (r: Result<ProblemData, CrawlerError>)
    ensures
        match r {
            Ok(data) => problem_from_scraped(
                scraped_first_text(body@, title_selector()),
                scraped_first_text(body@, sample_selector()),
            ) == Some((data.title@, data.sample_input@)),
            Err(e) => problem_from_scraped(
                scraped_first_text(body@, title_selector()),
                scraped_first_text(body@, sample_selector()),
            ) is None && e == CrawlerError::Parse,
        },
{
    let title = first_match_text(body, "#problem_title");
    let sample = first_match_text(body, "pre#sample-input-1");
    problem_from_matches(title, sample)
}

/// How the request for a problem page ended.
pub enum PageResponse {
    /// The server sent the page.
    Page(String),
    /// The server answered with an error status.
    ErrorStatus(u16),
    /// No answer was received in full.
    Unreachable,
}

/// Reads the problem `problem_number` from the response to the request for
/// its page (see `problem_url` and `USER_AGENT`).
pub fn fetch_problem(problem_number: u32, response: PageResponse) -> (r: Result<
    ProblemData,
    CrawlerError,
>)
    ensures
        match response {
            PageResponse::Page(body) => match r {
                Ok(data) => problem_from_scraped(
                    scraped_first_text(body@, title_selector()),
                    scraped_first_text(body@, sample_selector()),
                ) == Some((data.title@, data.sample_input@)),
                Err(e) => problem_from_scraped(
                    scraped_first_text(body@, title_selector()),
                    scraped_first_text(body@, sample_selector()),
                ) is None && e == CrawlerError::Parse,
            },
            PageResponse::ErrorStatus(status_code) => r == Err::<ProblemData, CrawlerError>(
                status_error(problem_number, status_code),
            ),
            PageResponse::Unreachable => r == Err::<ProblemData, CrawlerError>(
                CrawlerError::Network,
            ),
        },
{
    match response {
        PageResponse::Page(body) => parse_problem_html(body.as_str()),
        PageResponse::ErrorStatus(status_code) => Err(map_status_code(problem_number, status_code)),
        PageResponse::Unreachable => Err(CrawlerError::Network),
    }
}

/// Only status 404 means the problem does not exist, only 403 means the
/// request was refused, and every other status is reported as it is.
pub proof fn lemma_status_error_cases(problem_number: u32, status_code: u16)
    ensures
        (status_error(problem_number, status_code) is NotFound) <==> status_code == 404,
        (status_error(problem_number, status_code) is Forbidden) <==> status_code == 403,
        status_code == 404 ==> status_error(problem_number, status_code)
            == (CrawlerError::NotFound { problem_number }),
        status_code != 403 && status_code != 404 ==> status_error(problem_number, status_code)
            == (CrawlerError::UnexpectedStatus { status_code }),
        !(status_error(problem_number, status_code) is Network),
        !(status_error(problem_number, status_code) is Parse),
{
}

} // verus!
