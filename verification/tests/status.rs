use vex::status::{classify_status, is_success_status, StatusClass, StatusCounts};

#[test]
fn success_pattern_examples() {
    assert!(is_success_status(200, "2xx"));
    assert!(!is_success_status(301, "2xx"));
    assert!(is_success_status(301, "2xx,3xx"));
    assert!(is_success_status(301, "200,201,301"));
    assert!(is_success_status(500, "2xx,3xx,500"));
    assert!(!is_success_status(501, "2xx,3xx,500"));
}

#[test]
fn success_pattern_class_bounds() {
    assert!(is_success_status(299, "2xx"));
    assert!(!is_success_status(300, "2xx"));
    assert!(!is_success_status(199, "2xx"));
    assert!(is_success_status(400, "4xx"));
    assert!(is_success_status(599, "5xx"));
    assert!(!is_success_status(600, "5xx"));
    assert!(!is_success_status(100, "1xx"));
    assert!(!is_success_status(200, "2XX"));
}

#[test]
fn success_pattern_pieces_are_trimmed() {
    assert!(is_success_status(404, " 2xx , 404 "));
    assert!(is_success_status(201, "\t201\n"));
    assert!(is_success_status(201, "\u{3000}201"));
    assert!(!is_success_status(201, "2 01"));
}

#[test]
fn success_pattern_odd_pieces() {
    assert!(!is_success_status(0, ""));
    assert!(!is_success_status(200, ",,"));
    assert!(is_success_status(200, ",,200,"));
    assert!(is_success_status(200, "+200"));
    assert!(is_success_status(0, "0"));
    assert!(!is_success_status(200, "70000"));
}

#[test]
fn status_classes() {
    assert_eq!(classify_status(200), StatusClass::Success);
    assert_eq!(classify_status(299), StatusClass::Success);
    assert_eq!(classify_status(300), StatusClass::Redirect);
    assert_eq!(classify_status(404), StatusClass::ClientError);
    assert_eq!(classify_status(503), StatusClass::ServerError);
    assert_eq!(classify_status(199), StatusClass::Unknown);
    assert_eq!(classify_status(600), StatusClass::Unknown);
    assert_eq!(classify_status(0), StatusClass::Unknown);
    assert_eq!(StatusClass::Success.description(), "2xx Success");
    assert_eq!(StatusClass::Redirect.description(), "3xx Redirect");
    assert_eq!(StatusClass::ClientError.description(), "4xx Client Error");
    assert_eq!(StatusClass::ServerError.description(), "5xx Server Error");
    assert_eq!(StatusClass::Unknown.description(), "Unknown");
}

#[test]
fn status_counts_record_and_list_in_order() {
    let mut counts = StatusCounts::new();
    assert!(counts.is_empty());
    counts.record(404, 1);
    counts.record(200, 1);
    counts.record(404, 2);
    counts.record(503, 0);
    assert!(!counts.is_empty());
    assert_eq!(counts.count(404), 3);
    assert_eq!(counts.count(200), 1);
    assert_eq!(counts.count(301), 0);
    assert_eq!(counts.sorted_entries(), vec![(200, 1), (404, 3), (503, 0)]);
}

#[test]
fn status_counts_merge() {
    let mut a = StatusCounts::new();
    a.record(200, 5);
    a.record(500, 1);
    let mut b = StatusCounts::new();
    b.record(200, 2);
    b.record(0, 4);
    b.record(65535, 1);
    a.merge(&b);
    assert_eq!(a.sorted_entries(), vec![(0, 4), (200, 7), (500, 1), (65535, 1)]);
    assert_eq!(b.sorted_entries(), vec![(0, 4), (200, 2), (65535, 1)]);
}

#[test]
fn joined_patterns_accept_either_side() {
    for code in [100u16, 200, 250, 301, 404, 500, 599] {
        let left = is_success_status(code, "2xx");
        let right = is_success_status(code, "404,5xx");
        assert_eq!(is_success_status(code, "2xx,404,5xx"), left || right);
    }
}
