use paf_desktop::auth::Handoff;
use paf_desktop::loopback::{
    handle_loopback, read_target, reply_for, NOT_FOUND_PAGE, SIGNED_IN_PAGE,
};

fn found() -> String {
    format!(
        "HTTP/1.1 200 OK\r\nContent-Type: text/html; charset=utf-8\r\nContent-Length: {}\r\nConnection: close\r\n\r\n{}",
        SIGNED_IN_PAGE.len(),
        SIGNED_IN_PAGE
    )
}

fn missing() -> String {
    format!(
        "HTTP/1.1 404 Not Found\r\nContent-Type: text/html; charset=utf-8\r\nContent-Length: 57\r\nConnection: close\r\n\r\n{}",
        NOT_FOUND_PAGE
    )
}

fn handoff(token: &str, origin: &str) -> Option<Handoff> {
    Some(Handoff { token: token.to_string(), origin: origin.to_string() })
}

#[test]
fn the_target_is_the_second_word_of_the_first_line() {
    assert_eq!(read_target("GET /callback?token=t HTTP/1.1\r\nHost: x\r\n\r\n"), "/callback?token=t");
    assert_eq!(read_target("  GET \t /a\u{2003}b\nGET /c"), "/a");
    assert_eq!(read_target("GET /a"), "/a");
    assert_eq!(read_target("GET /a\r\n"), "/a");
    assert_eq!(read_target("GET\r\n/a HTTP/1.1"), "");
    assert_eq!(read_target("GET"), "");
    assert_eq!(read_target(""), "");
    assert_eq!(read_target("\nGET /a"), "");
}

#[test]
fn a_callback_with_a_token_is_answered_and_handed_on() {
    let reply = handle_loopback(
        b"GET /callback?token=a%20b%2Bc&origin=https%3A%2F%2Fcoa.planet-a-foods.com HTTP/1.1\r\nHost: 127.0.0.1\r\n\r\n",
    );
    assert_eq!(reply.response, found());
    assert_eq!(reply.handoff, handoff("a b+c", "https://coa.planet-a-foods.com"));
}

#[test]
fn a_callback_without_an_origin_is_for_the_note_app() {
    let reply = handle_loopback(b"GET /callback?token=1&token=2 HTTP/1.1\r\n");
    assert_eq!(reply.response, found());
    assert_eq!(reply.handoff, handoff("2", "https://note.planet-a-foods.com"));
}

#[test]
fn what_the_address_encodes_is_read_as_it_was_written() {
    let reply = handle_loopback(b"GET /callback?token=\"<'%2>\"#&token=x HTTP/1.1\r\n");
    assert_eq!(reply.handoff, handoff("\"<'%2>\"", "https://note.planet-a-foods.com"));
    let reply = handle_loopback(b"GET /callback?#token=x HTTP/1.1\r\n");
    assert_eq!(reply.response, missing());
}

#[test]
fn other_requests_are_not_found() {
    let requests: [&[u8]; 7] = [
        b"",
        b"GET / HTTP/1.1\r\n",
        b"GET /favicon.ico?token=t HTTP/1.1\r\n",
        b"GET /callback HTTP/1.1\r\n",
        b"GET /callback?origin=x HTTP/1.1\r\n",
        b"GET /callback#?token=t HTTP/1.1\r\n",
        b"\xff\xfe\x00",
    ];
    for request in requests {
        let reply = handle_loopback(request);
        assert_eq!(reply.response, missing());
        assert_eq!(reply.handoff, None);
    }
}

#[test]
fn bytes_that_are_not_text_are_replaced() {
    let reply = handle_loopback(b"G\xffT /callback?token=a\xffb HTTP/1.1\r\n");
    assert_eq!(
        reply.handoff,
        handoff("a\u{fffd}b", "https://note.planet-a-foods.com")
    );
    let reply = handle_loopback("GET /callback?token=é HTTP/1.1\r\n".as_bytes());
    assert_eq!(reply.handoff, handoff("é", "https://note.planet-a-foods.com"));
}

#[test]
fn the_length_of_a_page_is_given_in_bytes() {
    let reply = reply_for(&vec![("token".to_string(), "t".to_string())]);
    let (head, body) = reply.response.split_once("\r\n\r\n").unwrap();
    assert_eq!(body, SIGNED_IN_PAGE);
    assert!(body.contains('—'));
    assert!(head.contains(&format!("Content-Length: {}\r\n", body.as_bytes().len())));
    assert!(body.as_bytes().len() > body.chars().count());
    assert_eq!(reply_for(&vec![]).response, missing());
}
