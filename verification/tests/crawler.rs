use boj_gen::crawler::{
    fetch_problem, map_status_code, parse_problem_html, problem_from_matches, problem_url,
    CrawlerError, PageResponse, USER_AGENT,
};

const SAMPLE_HTML: &str = r#"
        <html>
            <body>
                <h1 id="problem_title">파일 합치기</h1>
                <pre id="sample-input-1">2
4
40 30 30 50
15
1 21 3 4 5 35 22 14 1 8 5 7 2 1 5</pre>
            </body>
        </html>
    "#;

#[test]
fn parse_problem_html_extracts_title_and_sample_input() {
    let actual = parse_problem_html(SAMPLE_HTML).unwrap();

    assert_eq!(actual.title, "파일 합치기");
    assert!(actual.sample_input.starts_with("2\n4\n40 30 30 50"));
}

#[test]
fn parse_problem_html_fails_when_title_is_missing() {
    let html = r#"<html><body><pre id="sample-input-1">1 2 3</pre></body></html>"#;

    let err = parse_problem_html(html).unwrap_err();

    assert_eq!(err, CrawlerError::Parse);
}

#[test]
fn parse_problem_html_fails_when_sample_input_is_missing() {
    let html = r#"<html><body><h1 id="problem_title">파일 합치기</h1></body></html>"#;

    let err = parse_problem_html(html).unwrap_err();

    assert_eq!(err, CrawlerError::Parse);
}

#[test]
fn map_status_code_returns_not_found_error() {
    let err = map_status_code(11066, 404);

    assert_eq!(
        err,
        CrawlerError::NotFound {
            problem_number: 11066
        }
    );
}

#[test]
fn map_status_code_returns_forbidden_error() {
    let err = map_status_code(11066, 403);

    assert_eq!(err, CrawlerError::Forbidden);
}

#[test]
fn map_status_code_returns_network_message_for_network_error() {
    let err = CrawlerError::Network;

    assert_eq!(err.to_string(), "네트워크 연결을 확인해주세요");
}

#[test]
fn map_status_code_returns_parse_message_for_parse_error() {
    let err = CrawlerError::Parse;

    assert_eq!(err.to_string(), "페이지 구조가 변경되었을 수 있습니다");
}

#[test]
fn map_status_code_returns_unexpected_status_otherwise() {
    assert_eq!(
        map_status_code(7, 500),
        CrawlerError::UnexpectedStatus { status_code: 500 }
    );
}

#[test]
fn error_messages_carry_numbers() {
    assert_eq!(
        CrawlerError::NotFound { problem_number: 11066 }.to_string(),
        "문제 번호 11066을 찾을 수 없습니다"
    );
    assert_eq!(
        CrawlerError::UnexpectedStatus { status_code: 503 }.to_string(),
        "예상하지 못한 응답을 받았습니다. status=503"
    );
    assert_eq!(
        CrawlerError::Forbidden.to_string(),
        "BOJ 서버가 요청을 거부했습니다. 잠시 후 다시 시도해주세요"
    );
}

#[test]
fn problem_url_names_the_problem() {
    assert_eq!(problem_url(11066), "https://www.acmicpc.net/problem/11066");
    assert_eq!(problem_url(1), "https://www.acmicpc.net/problem/1");
    assert!(USER_AGENT.starts_with("Mozilla/5.0"));
}

#[test]
fn parse_problem_html_trims_title_and_keeps_sample() {
    let html = "<h1 id=\"problem_title\">\n  A+B \n</h1><pre id=\"sample-input-1\"> 1 2\n</pre>";
    let data = parse_problem_html(html).unwrap();
    assert_eq!(data.title, "A+B");
    assert_eq!(data.sample_input, " 1 2\n");
}

#[test]
fn parse_problem_html_fails_on_blank_parts() {
    let html = "<h1 id=\"problem_title\">   </h1><pre id=\"sample-input-1\">1</pre>";
    assert_eq!(parse_problem_html(html).unwrap_err(), CrawlerError::Parse);
    let html = "<h1 id=\"problem_title\">T</h1><pre id=\"sample-input-1\">\n \n</pre>";
    assert_eq!(parse_problem_html(html).unwrap_err(), CrawlerError::Parse);
}

#[test]
fn problem_from_matches_decides_on_found_texts() {
    let data = problem_from_matches(
        Ok(Some("  Title  ".to_string())),
        Ok(Some("3\n".to_string())),
    )
    .unwrap();
    assert_eq!(data.title, "Title");
    assert_eq!(data.sample_input, "3\n");
    assert_eq!(
        problem_from_matches(Err(()), Ok(Some("3".to_string()))).unwrap_err(),
        CrawlerError::Parse
    );
    assert_eq!(
        problem_from_matches(Ok(Some("T".to_string())), Ok(None)).unwrap_err(),
        CrawlerError::Parse
    );
}

#[test]
fn fetch_problem_maps_each_response() {
    let data = fetch_problem(11066, PageResponse::Page(SAMPLE_HTML.to_string())).unwrap();
    assert_eq!(data.title, "파일 합치기");
    assert_eq!(
        fetch_problem(11066, PageResponse::ErrorStatus(404)).unwrap_err(),
        CrawlerError::NotFound { problem_number: 11066 }
    );
    assert_eq!(
        fetch_problem(11066, PageResponse::ErrorStatus(403)).unwrap_err(),
        CrawlerError::Forbidden
    );
    assert_eq!(
        fetch_problem(11066, PageResponse::Unreachable).unwrap_err(),
        CrawlerError::Network
    );
}
