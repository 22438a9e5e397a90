use salvo_worker::open_api::{release_endpoint_lines, release_handler_lines};

fn lines(text: &[&str]) -> Vec<String> {
    text.iter().map(|s| s.to_string()).collect()
}

#[test]
fn endpoint_release_swaps_attributes() {
    let source = lines(&["// #[endpoint]", "#[handler]", "async fn hello() {}"]);
    let (released, changed) = release_endpoint_lines(source).unwrap();
    assert!(changed);
    assert_eq!(released, lines(&["#[endpoint]", "// #[handler]", "async fn hello() {}"]));
}

#[test]
fn handler_release_swaps_back() {
    let source = lines(&["#[endpoint]", "// #[handler]", "async fn hello() {}"]);
    let (released, changed) = release_handler_lines(source).unwrap();
    assert!(changed);
    assert_eq!(released, lines(&["// #[endpoint]", "#[handler]", "async fn hello() {}"]));
}

#[test]
fn round_trip_restores_sources() {
    let source = lines(&[
        "use x;",
        "// #[endpoint]",
        "#[handler]",
        "async fn a() {}",
        "",
        "// #[endpoint(tags(\"b\"))]",
        "#[handler]",
        "async fn b() {}",
    ]);
    let (endpoints, changed) = release_endpoint_lines(source.clone()).unwrap();
    assert!(changed);
    assert_eq!(endpoints[1], "#[endpoint]");
    assert_eq!(endpoints[2], "// #[handler]");
    assert_eq!(endpoints[5], "#[endpoint(tags(\"b\"))]");
    assert_eq!(endpoints[6], "// #[handler]");
    let (handlers, changed) = release_handler_lines(endpoints).unwrap();
    assert!(changed);
    assert_eq!(handlers, source);
    let plain = lines(&["use x;", "// #[endpoint]", "#[handler]", "async fn a() {}", "// #[endpoint]", "#[handler]", "fn c() {}"]);
    let (endpoints, _) = release_endpoint_lines(plain.clone()).unwrap();
    let (handlers, changed) = release_handler_lines(endpoints).unwrap();
    assert!(changed);
    assert_eq!(handlers, plain);
}

#[test]
fn multi_line_attribute() {
    let source = lines(&["// #[endpoint(", "//     tags(\"x\"),", "// )]", "#[handler]", "fn f() {}"]);
    let (released, changed) = release_endpoint_lines(source).unwrap();
    assert!(changed);
    assert_eq!(released, lines(&["#[endpoint(", "    tags(\"x\"),", ")]", "// #[handler]", "fn f() {}"]));
    let (back, changed) = release_handler_lines(released).unwrap();
    assert!(changed);
    assert_eq!(back, lines(&["// #[endpoint(", "//     tags(\"x\"),", "// )]", "#[handler]", "fn f() {}"]));
}

#[test]
fn uncommenting_strips_every_marker() {
    let source = lines(&["// // #[endpoint]", "x"]);
    // The line starts with "// " but not with "// #[endpoint]": nothing happens.
    let (same, changed) = release_endpoint_lines(source.clone()).unwrap();
    assert!(!changed);
    assert_eq!(same, source);
    let source = lines(&["// #[endpoint]", "// // y"]);
    let (released, _) = release_endpoint_lines(source).unwrap();
    assert_eq!(released, lines(&["#[endpoint]", "// // // y"]));
    let (back, _) = release_handler_lines(released).unwrap();
    // Uncommenting removes every leading marker.
    assert_eq!(back, lines(&["// #[endpoint]", "y"]));
}

#[test]
fn sources_without_attributes_stay() {
    let source = lines(&["fn main() {}", "// a comment", "#[handler]"]);
    assert_eq!(release_endpoint_lines(source.clone()), Some((source.clone(), false)));
    assert_eq!(release_handler_lines(source.clone()), Some((source, false)));
    assert_eq!(release_endpoint_lines(Vec::new()), Some((Vec::new(), false)));
}

#[test]
fn attribute_on_last_line_fails() {
    assert_eq!(release_endpoint_lines(lines(&["x", "// #[endpoint]"])), None);
    assert_eq!(release_handler_lines(lines(&["#[endpoint]"])), None);
}

#[test]
fn unclosed_attribute_fails() {
    assert_eq!(release_endpoint_lines(lines(&["// #[endpoint(", "// tags(\"x\")"])), None);
    assert_eq!(release_handler_lines(lines(&["#[endpoint(", "tags(\"x\")"])), None);
    // Closed on the last line: nothing follows it to comment.
    assert_eq!(release_endpoint_lines(lines(&["// #[endpoint(", "// )]"])), None);
}

#[test]
fn one_line_attribute_with_arguments_is_released_back() {
    let source = lines(&["#[endpoint(tags(x))]", "// #[handler]", "fn f() {}"]);
    let (released, changed) = release_handler_lines(source).unwrap();
    assert!(changed);
    assert_eq!(released, lines(&["// #[endpoint(tags(x))]", "#[handler]", "fn f() {}"]));
    let (again, changed) = release_endpoint_lines(released).unwrap();
    assert!(changed);
    assert_eq!(again, lines(&["#[endpoint(tags(x))]", "// #[handler]", "fn f() {}"]));
}

#[test]
fn multi_line_round_trip() {
    let source = lines(&[
        "// #[endpoint(",
        "//     tags(\"x\"),",
        "//     status_codes(200),",
        "// )]",
        "#[handler]",
        "fn f() {}",
        "// #[endpoint(tags(\"y\"))]",
        "#[handler]",
        "fn g() {}",
    ]);
    let (released, changed) = release_endpoint_lines(source.clone()).unwrap();
    assert!(changed);
    assert_eq!(released[0], "#[endpoint(");
    assert_eq!(released[3], ")]");
    assert_eq!(released[4], "// #[handler]");
    assert_eq!(released[6], "#[endpoint(tags(\"y\"))]");
    assert_eq!(released[7], "// #[handler]");
    let (back, changed) = release_handler_lines(released).unwrap();
    assert!(changed);
    assert_eq!(back, source);
}
