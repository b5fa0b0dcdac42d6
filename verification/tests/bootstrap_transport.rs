use orange_platform::bootstrap_transport::{
    map_response, parse_subscription_target, valid_parameter_name_bytes,
    BootstrapTransportError, BootstrapTransportResponse, BusinessAuthentication,
    BusinessClientError, BusinessCommand, BusinessCommandRequest, BusinessMethod, BusinessTarget,
};

#[test]
fn commands_route_to_fixed_paths() {
    let route = BusinessCommand::Login.route();
    assert_eq!(route.method(), BusinessMethod::Post);
    assert_eq!(route.path(), "/api/v1/passport/auth/login");
    assert_eq!(route.authentication(), BusinessAuthentication::Anonymous);
    assert_eq!(route.content_type(), Some("application/json"));
    assert_eq!(route.target(), BusinessTarget::BootstrapPrimaryApi);

    let route = BusinessCommand::Subscription.route();
    assert_eq!(route.method(), BusinessMethod::Get);
    assert_eq!(route.path(), "/api/v1/user/getSubscribe");
    assert_eq!(route.content_type(), None);
    assert_eq!(BusinessCommand::OrderDetail.as_str(), "order_detail");
}

#[test]
fn query_parameters_are_checked_and_encoded() {
    let request =
        BusinessCommandRequest::with_query_parameter(BusinessCommand::OrderDetail, "trade_no", "ORD 1&x")
            .unwrap();
    assert_eq!(
        request.path_and_query(),
        "/api/v1/user/order/detail?trade_no=ORD+1%26x"
    );
    assert_eq!(
        BusinessCommandRequest::post_with_query_parameter(
            BusinessCommand::OrderDetail,
            "trade_no",
            "1"
        )
        .err(),
        Some(BusinessClientError::InvalidRequest)
    );
    assert_eq!(
        BusinessCommandRequest::with_query_parameter(BusinessCommand::OrderDetail, "bad-name", "1")
            .err(),
        Some(BusinessClientError::InvalidRequest)
    );
    assert!(valid_parameter_name_bytes(b"trade_no"));
    assert!(!valid_parameter_name_bytes(b""));
    assert!(!valid_parameter_name_bytes(b"a.b"));
}

#[test]
fn responses_pass_only_on_success_statuses() {
    let ok = BootstrapTransportResponse::new(200, "application/json".to_owned(), b"{}".to_vec())
        .unwrap();
    let mapped = map_response(ok).unwrap();
    assert_eq!(mapped.status_code(), 200);
    assert_eq!(mapped.body(), b"{}");
    for (status, error) in [
        (302, BusinessClientError::RedirectDenied),
        (401, BusinessClientError::Unauthorized),
        (403, BusinessClientError::Unauthorized),
        (429, BusinessClientError::RateLimited),
        (404, BusinessClientError::RequestRejected),
        (503, BusinessClientError::ServiceUnavailable),
    ] {
        let response =
            BootstrapTransportResponse::new(status, "text/plain".to_owned(), Vec::new()).unwrap();
        assert_eq!(map_response(response).err(), Some(error), "{status}");
    }
    assert_eq!(
        BootstrapTransportResponse::new(99, String::new(), Vec::new()).err(),
        Some(BootstrapTransportError::InvalidResponse)
    );
}

#[test]
fn subscription_targets_must_be_plain_https_urls() {
    let target =
        parse_subscription_target(b"https://Sub.Example.com/api/v1/client/subscribe?token=abc")
            .unwrap();
    assert_eq!(target.host(), "sub.example.com");
    assert_eq!(target.path_and_query(), "/api/v1/client/subscribe?token=abc");
    for rejected in [
        &b"http://sub.example.com/x"[..],
        &b"https://user@sub.example.com/x"[..],
        &b"https://sub.example.com:8443/x"[..],
        &b"https://sub.example.com/x#frag"[..],
        &b"not a url"[..],
        &b"\xff\xfe"[..],
    ] {
        assert_eq!(
            parse_subscription_target(rejected).err(),
            Some(BusinessClientError::InvalidRequest)
        );
    }
}
