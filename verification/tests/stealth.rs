//! The fake 404.

use ech_tls_tunnel::stealth::{fake_404, HttpResponse, NOT_FOUND_PAGE};

fn header<'a>(resp: &'a HttpResponse, name: &str) -> &'a str {
    &resp.headers.iter().find(|(n, _)| *n == name).unwrap().1
}

#[test]
fn fake_404_has_status_server_and_nginx_body() {
    let resp = fake_404("nginx/1.24.0");
    assert_eq!(resp.status, 404);
    assert_eq!(header(&resp, "Server"), "nginx/1.24.0");
    assert_eq!(header(&resp, "Content-Type"), "text/html");

    let body = resp.body;
    assert!(body.contains("<h1>404 Not Found</h1>"));
    assert!(body.contains("nginx/1.24.0"));
}

#[test]
fn fake_404_server_header_is_configurable() {
    let resp = fake_404("Apache/2.4.58 (Ubuntu)");
    assert_eq!(header(&resp, "Server"), "Apache/2.4.58 (Ubuntu)");
}

#[test]
fn fake_404_has_the_right_length() {
    let resp = fake_404("x");
    assert_eq!(header(&resp, "Content-Length"), resp.body.len().to_string());
    assert_eq!(header(&resp, "Content-Length"), "153");
    assert_eq!(resp.headers.len(), 3);
    assert_eq!(resp.body, NOT_FOUND_PAGE);
    assert_eq!(
        resp.body.lines().collect::<Vec<_>>(),
        [
            "<html>",
            "<head><title>404 Not Found</title></head>",
            "<body>",
            "<center><h1>404 Not Found</h1></center>",
            "<hr><center>nginx/1.24.0</center>",
            "</body>",
            "</html>",
        ]
    );
}
