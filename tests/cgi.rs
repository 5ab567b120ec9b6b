use aocgem::cgi::{Error, Response, ResponseCode};

#[test]
fn status_codes_match_the_protocol() {
    assert_eq!(Response::input("x").status_code(), 10);
    assert_eq!(Response::sensitive_input("x").status_code(), 11);
    assert_eq!(Response::success("text/gemini", "b").status_code(), 20);
    assert_eq!(Response::redirect("/a").status_code(), 30);
    assert_eq!(Response::redirect_perm("/a").status_code(), 31);
    assert_eq!(Response::temp_error("x").status_code(), 40);
    assert_eq!(Response::unavailable("x").status_code(), 41);
    assert_eq!(Response::cgi_error("x").status_code(), 42);
    assert_eq!(Response::proxy_error("x").status_code(), 43);
    assert_eq!(Response::slow_down(5).status_code(), 44);
    assert_eq!(Response::perm_error("x").status_code(), 50);
    assert_eq!(Response::not_found().status_code(), 51);
    assert_eq!(Response::gone().status_code(), 52);
    assert_eq!(Response::proxy_refused("x").status_code(), 53);
    assert_eq!(Response::bad_request().status_code(), 59);
    assert_eq!(Response::cert_required("x").status_code(), 60);
    assert_eq!(Response::cert_not_authorized("x").status_code(), 61);
    assert_eq!(Response::cert_not_valid("x").status_code(), 62);
}

#[test]
fn meta_and_body() {
    let r = Response::success("text/gemini", "# Title");
    assert_eq!(r.meta(), "text/gemini");
    assert_eq!(r.body(), "# Title");
    let r = Response::not_found();
    assert_eq!(r.meta(), "Path not found");
    assert_eq!(r.body(), "");
    assert_eq!(Response::slow_down(30).meta(), "30");
    assert_eq!(Response::slow_down(0).meta(), "0");
    assert_eq!(Response::slow_down(-12).meta(), "-12");
    assert_eq!(Response::slow_down(i32::MIN).meta(), "-2147483648");
    assert_eq!(Response::slow_down(1005).meta(), "1005");
    assert_eq!(Response::gone().meta(), "Path no longer exists");
}

#[test]
fn responses_as_sent() {
    assert_eq!(Response::success("text/gemini", "hi").to_text(), "20 text/gemini\r\nhi");
    assert_eq!(Response::input("Which year?").to_text(), "10 Which year?\r\n");
}

#[test]
fn errors_carry_their_response() {
    let e = Error::response(Response::not_found());
    assert_eq!(e.text(), "Path not found");
    assert_eq!(e.get_response().unwrap().status_code(), 51);

    let e = Error::response_with_message("bad", Response::bad_request());
    assert_eq!(e.text(), "bad");
    assert_eq!(e.into_response().code, ResponseCode::BadRequest);

    let e = Error::message("plain");
    assert!(e.get_response().is_none());
    let r = e.into_response();
    assert_eq!(r.code, ResponseCode::CgiError);
    assert_eq!(r.meta(), "Internal Server Error");

    let e = Error::nested("io failure".to_string());
    assert_eq!(e.text(), "io failure");
    assert!(e.get_response().is_none());

    let e = Error::nested_with_response("x".to_string(), Response::gone());
    assert_eq!(e.get_response().unwrap().status_code(), 52);

    let e = Error::from_err("y");
    assert_eq!(e.text(), "y");
    let e = Error::from_err_with_response("z", Response::input("?"));
    assert_eq!(e.into_response().status_code(), 10);
}
