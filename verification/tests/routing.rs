use openai_proxy::request::Method;
use openai_proxy::route::{route, route_path_text, Route};

#[test]
fn post_to_the_route_is_matched() {
    assert_eq!(route(&Method::Post, Some("/openai-proxy")), Route::Matched);
}

#[test]
fn the_route_path_is_fixed() {
    assert_eq!(route_path_text(), "/openai-proxy");
    assert_eq!(route(&Method::Post, Some(route_path_text())), Route::Matched);
}

#[test]
fn every_other_method_is_unmatched() {
    let others = vec![
        Method::Get,
        Method::Head,
        Method::Put,
        Method::Delete,
        Method::Connect,
        Method::Options,
        Method::Trace,
        Method::Patch,
        Method::Other("POST".to_string()),
        Method::Other("PROPFIND".to_string()),
    ];
    for method in others.iter() {
        assert_eq!(route(method, Some("/openai-proxy")), Route::Unmatched);
    }
}

#[test]
fn other_paths_are_unmatched() {
    let paths = vec![
        "",
        "/",
        "/openai-proxy/",
        "/openai-proxy?x=1",
        "/openai-proxy#top",
        "/openai-prox",
        "/openai-proxyy",
        "/OpenAI-Proxy",
        "openai-proxy",
        "/openai-proxz",
        "/opénai-proxy",
    ];
    for path in paths.iter() {
        assert_eq!(route(&Method::Post, Some(path)), Route::Unmatched);
    }
}

#[test]
fn missing_path_is_malformed() {
    assert_eq!(route(&Method::Post, None), Route::Malformed);
    assert_eq!(route(&Method::Get, None), Route::Malformed);
}
