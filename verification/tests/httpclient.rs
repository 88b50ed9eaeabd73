use issuer_claim::machine::{post_result, PostOutcome};

// The blocking network call itself lives outside the library; these tests
// hand the classifier the outcome each transport situation produces.

#[test]
fn test_httpclient_fails_with_no_response() {
    // Nothing listens at the destination: the connection is never made.
    match post_result(&PostOutcome::NoConnection) {
        Ok(x) => assert_eq!(x, "nothing"), //should fail if we get here
        Err(x) => assert_eq!(x, "could not connect"),
    };
}

#[test]
fn test_httpclient_success() {
    // The endpoint accepts the request and answers with a readable body.
    match post_result(&PostOutcome::Body(202, "world".to_string())) {
        Err(_x) => assert_eq!(1, 0), //should fail if we get here
        Ok(x) => assert_eq!(x, "world"),
    };
}

#[test]
fn test_httpclient_fails_with_bad_url() {
    // The endpoint is reached but no route matches the request.
    match post_result(&PostOutcome::Body(501, "garbage".to_string())) {
        Ok(x) => assert_eq!(x, "garbage"), //should fail if we get here
        Err(x) => assert_eq!(x, "POST failed"),
    };
}

#[test]
fn test_httpclient_fails_with_404() {
    // The endpoint rejects the request outright.
    match post_result(&PostOutcome::Body(404, "world".to_string())) {
        Err(x) => assert_eq!(x, "POST failed"),
        Ok(x) => assert_eq!(x, "world"), //should fail if we get here
    };
}

#[test]
fn test_httpclient_fails_when_body_unreadable() {
    // The success status arrives but the body cannot be read to the end.
    match post_result(&PostOutcome::ReadFailed(200)) {
        Err(x) => assert_eq!(x, "could not read response"),
        Ok(_x) => assert_eq!(1, 0), //should fail if we get here
    };
}
