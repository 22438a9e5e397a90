use salvo_worker::display::DisplayOptionBy;
use salvo_worker::doc_ui::{doc_route, ui_all, ui_rapidoc, ui_redoc, ui_scalar, ui_swagger, DocUi};
use salvo_worker::finder::find_value;
use salvo_worker::middleware::elapsed_header_value;
use salvo_worker::open_api::is_rust_source;
use salvo_worker::proxy::ReqwestClient;

#[test]
fn optional_values_are_shown_or_none() {
    assert_eq!(Some(3u32).display_by(|v| format!("#{v}")), "#3");
    assert_eq!(None::<u32>.display_by(|v| format!("#{v}")), "None");
}

#[test]
fn every_viewer_is_mounted_with_its_icon() {
    let pages = ui_all("/api-doc/openapi.json");
    assert_eq!(pages.len(), 4);
    let paths: Vec<&str> = pages.iter().map(|p| p.path.as_str()).collect();
    assert_eq!(paths, ["/swagger-ui", "/rapidoc", "/redoc", "/scalar"]);
    assert_eq!(pages[0].ui, DocUi::Swagger);
    assert_eq!(pages[1].ui, DocUi::RapiDoc);
    assert_eq!(pages[2].ui, DocUi::ReDoc);
    assert_eq!(pages[3].ui, DocUi::Scalar);
    assert_eq!(pages[0].favicon, "https://static1.smartbear.co/swagger/media/assets/swagger_fav.png");
    assert_eq!(pages[1].favicon, "https://rapidocweb.com/images/logo.png");
    assert!(pages[2].favicon.starts_with("https://redocly.com/assets/favicon."));
    assert_eq!(pages[3].favicon, "https://avatars.githubusercontent.com/u/301879");
    assert!(pages.iter().all(|p| p.spec_url == "/api-doc/openapi.json"));
}

#[test]
fn single_viewers() {
    let p = ui_swagger("/doc.json", "/s".into(), "i".into());
    assert_eq!((p.ui, p.spec_url.as_str(), p.path.as_str(), p.favicon.as_str()), (DocUi::Swagger, "/doc.json", "/s", "i"));
    assert_eq!(ui_rapidoc("d", "/r".into(), "i".into()).ui, DocUi::RapiDoc);
    assert_eq!(ui_redoc("d", "/r".into(), "i".into()).ui, DocUi::ReDoc);
    assert_eq!(ui_scalar("d", "/r".into(), "i".into()).ui, DocUi::Scalar);
    assert_eq!(doc_route(DocUi::Scalar, "d", "/x".into(), "f".into()).path, "/x");
}

#[test]
fn rust_sources_end_with_rs() {
    assert!(is_rust_source("src/main.rs"));
    assert!(!is_rust_source("src/main.rs.bak"));
    assert!(!is_rust_source("README.md"));
}

#[test]
fn elapsed_time_is_written_in_decimal() {
    assert_eq!(elapsed_header_value(0), "0");
    assert_eq!(elapsed_header_value(1234), "1234");
}

#[test]
fn first_value_of_a_name_is_found() {
    let pairs: Vec<(String, String)> = vec![("a".into(), "1".into()), ("b".into(), "2".into()), ("a".into(), "3".into())];
    assert_eq!(find_value(&pairs, "a"), Some("1".to_string()));
    assert_eq!(find_value(&pairs, "c"), None);
}

#[test]
fn proxy_client_wraps_a_reqwest_client() {
    let _client = ReqwestClient::new(reqwest::Client::new());
}
