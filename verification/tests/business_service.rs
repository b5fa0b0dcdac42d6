use orange_platform::bootstrap_transport::{BootstrapTransportError, BusinessClientError};
use orange_platform::business_service::{
    clamped_millis, decode_invitation_center, decode_plans, is_offline_client_error,
    is_valid_email_suffix, map_client_error, normalize_email_suffixes,
    valid_email_verification_code, valid_invitation_code, valid_load_identifier, valid_order_id,
    valid_ticket_id, validate_email, validate_invite_code, validate_password, BusinessServiceError,
    InvitationCenterData, InvitationCodeData, InvitationCodeStatus, PlanData, TicketDetailData,
    TicketMessageData, TicketStatus, decode_ticket_detail, decode_tickets, TicketData,
    decode_active_sessions, ActiveSessionData, decode_notices, NoticeData,
    decode_gift_card_history, GiftCardHistoryRecordData, decode_orders, decode_order_detail,
    OrderData, OrderStatus, ReportedSeconds, decode_checkout, CheckoutPayload,
    decode_payment_methods, PaymentMethodData, DecimalField, decode_commission_config,
    CommissionConfigData, JsonSwitch, decode_knowledge_article, decode_knowledge_list,
    KnowledgeArticleData, KnowledgeGroupData, decode_account, AccountData, AccountStatus,
    decode_subscription, SubscriptionData, SubscriptionStatus, ListedPlanFields,
    decode_gift_card_check, GiftCardCheckData, decode_gift_card_redeem, GiftCardRedeemData,
    validate_production_config, ProductionConfigData, decode_production_login,
    decode_created_order_id, decode_node_loads, NodeLoadData, production_service_config,
    AuthSession, AuthSessionStatus,
};
use orange_platform::node_selection::NodeLoadState;
use orange_platform::plane_state::ErrorCode;
use orange_platform::secret_store::SecretStoreError;
use orange_platform::vpn::PlatformVpnError;

#[test]
fn email_suffixes_are_canonicalized_and_deduplicated() {
    let normalized = normalize_email_suffixes(vec![
        "@gmail.com".to_owned(),
        "  QQ.com  ".to_owned(),
        "gmail.com".to_owned(),
        "@163.COM".to_owned(),
    ]);
    assert_eq!(normalized, vec!["gmail.com", "qq.com", "163.com"]);
}

#[test]
fn malformed_email_suffixes_are_dropped_without_failing() {
    let normalized = normalize_email_suffixes(vec![
        "gmail.com".to_owned(),
        String::new(),
        "@".to_owned(),
        "localhost".to_owned(),
        "double..dot.com".to_owned(),
        "-leading.com".to_owned(),
        "trailing-.com".to_owned(),
        "has space.com".to_owned(),
        "under_score.com".to_owned(),
    ]);
    assert_eq!(normalized, vec!["gmail.com"]);
}

#[test]
fn empty_email_whitelist_stays_empty() {
    assert!(normalize_email_suffixes(Vec::new()).is_empty());
}

#[test]
fn email_suffix_check_ignores_case() {
    assert!(is_valid_email_suffix("Mail.Example.COM"));
    assert!(!is_valid_email_suffix("example"));
    assert!(!is_valid_email_suffix(&format!("{}.com", "a".repeat(64))));
    assert!(is_valid_email_suffix(&format!("{}.com", "a".repeat(63))));
}

#[test]
fn email_validation_accepts_ordinary_addresses() {
    assert_eq!(validate_email("user@gmail.com"), Ok(()));
    assert_eq!(validate_email("first.last+tag@mail.example.org"), Ok(()));
}

#[test]
fn email_validation_rejects_malformed_addresses() {
    for email in [
        "a@",
        "@example.com",
        "user@@example.com",
        "user@example",
        " user@example.com",
        "user@example.com ",
        ".user@example.com",
        "user.@example.com",
        "us..er@example.com",
        "user@-example.com",
        "user@example-.com",
        "user@example..com",
        "user@exam_ple.com",
        "usér@example.com",
        "user\t@example.com",
    ] {
        assert_eq!(validate_email(email), Err(BusinessServiceError::InvalidEmail), "{email}");
    }
    let long_local = format!("{}@example.com", "a".repeat(65));
    assert_eq!(validate_email(&long_local), Err(BusinessServiceError::InvalidEmail));
}

#[test]
fn password_length_and_control_characters_are_checked() {
    assert_eq!(validate_password("correct horse"), Ok(()));
    assert_eq!(validate_password("short"), Err(BusinessServiceError::InvalidPassword));
    assert_eq!(
        validate_password(&"x".repeat(129)),
        Err(BusinessServiceError::InvalidPassword)
    );
    assert_eq!(
        validate_password("password\u{7}bell"),
        Err(BusinessServiceError::InvalidPassword)
    );
    assert_eq!(
        validate_password("password\u{85}next"),
        Err(BusinessServiceError::InvalidPassword)
    );
}

#[test]
fn identifiers_follow_their_character_rules() {
    assert!(validate_invite_code("abc-DEF_123").is_ok());
    assert_eq!(
        validate_invite_code("abc def"),
        Err(BusinessServiceError::InvalidInviteCode)
    );
    assert!(valid_invitation_code("code_1"));
    assert!(!valid_invitation_code(""));
    assert!(valid_order_id("ORD2026.01_x-1"));
    assert!(!valid_order_id("ORD 1"));
    assert!(valid_load_identifier("xb-1.a_b"));
    assert!(!valid_load_identifier(&"a".repeat(65)));
    assert!(valid_ticket_id("1024"));
    assert!(!valid_ticket_id("0123"));
    assert!(!valid_ticket_id("12a"));
    assert!(valid_email_verification_code("012345"));
    assert!(!valid_email_verification_code("01234"));
    assert!(!valid_email_verification_code("01234x"));
}

#[test]
fn error_names_and_public_codes() {
    assert_eq!(BusinessServiceError::InvalidEmail.as_str(), "business-invalid-email");
    assert_eq!(
        BusinessServiceError::DataPlane(PlatformVpnError::Timeout).as_str(),
        "vpn-timeout"
    );
    assert_eq!(
        BusinessServiceError::DataPlane(PlatformVpnError::Timeout).public_error_code(),
        ErrorCode::Timeout
    );
    assert_eq!(
        BusinessServiceError::RejectedConfigUrl.public_error_code(),
        ErrorCode::Bootstrap
    );
    assert_eq!(
        map_client_error(BusinessClientError::SecretStore(SecretStoreError::PermissionDenied)),
        ErrorCode::Permission
    );
    assert_eq!(
        map_client_error(BusinessClientError::Transport(BootstrapTransportError::DnsFailure)),
        ErrorCode::Network
    );
    assert!(is_offline_client_error(BusinessClientError::Transport(
        BootstrapTransportError::Timeout
    )));
    assert!(!is_offline_client_error(BusinessClientError::RateLimited));
}

#[test]
fn clock_values_are_clamped() {
    assert_eq!(clamped_millis(None), 0);
    assert_eq!(clamped_millis(Some(1_234)), 1_234);
    assert_eq!(clamped_millis(Some(u128::from(u64::MAX) + 1)), u64::MAX);
}

use orange_platform::bootstrap_transport::{map_response, BootstrapTransportResponse};
use orange_platform::business_service::{
    check_nonnegative_decimal, check_production_envelope, is_json_content_type, is_safe_ticket_text,
    normalize_production_bearer, normalize_telegram_username, parse_config_url, parse_production_plan_selection, take_json_body,
    valid_gift_card_text, valid_ticket_message, valid_ticket_subject, validate_config_url,
    validate_subscription_url,
};

#[test]
fn json_content_types_allow_one_utf8_charset() {
    assert!(is_json_content_type("application/json"));
    assert!(is_json_content_type(" Application/JSON ; Charset=UTF-8 "));
    assert!(!is_json_content_type("application/json;"));
    assert!(!is_json_content_type("application/json; charset=utf-8; q=1"));
    assert!(!is_json_content_type("application/json; charset=latin1"));
    assert!(!is_json_content_type("text/html"));
    assert!(!is_json_content_type(""));
}

#[test]
fn json_bodies_need_the_media_type_and_content() {
    let response = |content_type: &str, body: &[u8]| {
        map_response(BootstrapTransportResponse::new(200, content_type.to_owned(), body.to_vec()).unwrap())
            .unwrap()
    };
    assert_eq!(take_json_body(response("application/json", b"{}")), Ok(b"{}".to_vec()));
    assert_eq!(
        take_json_body(response("text/plain", b"{}")),
        Err(BusinessServiceError::InvalidContentType)
    );
    assert_eq!(
        take_json_body(response("application/json", b"")),
        Err(BusinessServiceError::InvalidResponse)
    );
}

#[test]
fn production_envelopes_must_report_success() {
    assert_eq!(check_production_envelope(false, "success", "done"), Ok(()));
    assert_eq!(
        check_production_envelope(true, "success", "done"),
        Err(BusinessServiceError::InvalidResponse)
    );
    assert_eq!(
        check_production_envelope(false, "fail", "done"),
        Err(BusinessServiceError::InvalidResponse)
    );
    assert_eq!(
        check_production_envelope(false, "success", "bad\u{7}"),
        Err(BusinessServiceError::InvalidResponse)
    );
}

#[test]
fn bearer_values_are_reduced_to_their_token() {
    assert_eq!(normalize_production_bearer("Bearer abc.DEF-1".to_owned()), Ok("abc.DEF-1".to_owned()));
    assert_eq!(normalize_production_bearer("token/+=~_".to_owned()), Ok("token/+=~_".to_owned()));
    assert_eq!(
        normalize_production_bearer("Bearer ".to_owned()),
        Err(BusinessServiceError::InvalidResponse)
    );
    assert_eq!(
        normalize_production_bearer("Bearer a b".to_owned()),
        Err(BusinessServiceError::InvalidResponse)
    );
    assert_eq!(
        normalize_production_bearer("x".repeat(16 * 1024 + 1)),
        Err(BusinessServiceError::InvalidResponse)
    );
}

#[test]
fn plan_selections_name_a_plan_and_a_period() {
    assert_eq!(parse_production_plan_selection("42:month_price"), Ok((42, "month_price")));
    assert_eq!(parse_production_plan_selection("+7:onetime_price"), Ok((7, "onetime_price")));
    for invalid in [
        "0:month_price",
        "x:month_price",
        "1:weekly_price",
        "18446744073709551616:year_price",
        "1:month_price:x",
        "month_price",
        ":month_price",
        "-1:month_price",
    ] {
        assert_eq!(parse_production_plan_selection(invalid), Err(BusinessServiceError::InvalidPlan));
    }
    assert_eq!(
        parse_production_plan_selection("18446744073709551615:three_year_price"),
        Ok((u64::MAX, "three_year_price"))
    );
}

#[test]
fn amounts_are_nonnegative_decimals() {
    for valid in ["0", "12.50", "7.123456", "00012"] {
        assert_eq!(check_nonnegative_decimal(valid.to_owned()), Ok(valid.to_owned()));
    }
    for invalid in ["", "1.", ".5", "1.1234567", "1.2.3", "-1", "1e3", &"9".repeat(33)] {
        assert_eq!(
            check_nonnegative_decimal(invalid.to_owned()),
            Err(BusinessServiceError::InvalidResponse)
        );
    }
}

#[test]
fn ticket_and_gift_card_texts() {
    assert!(valid_gift_card_text("GIFT-2024"));
    assert!(!valid_gift_card_text(""));
    assert!(!valid_gift_card_text("code\n"));
    assert!(!valid_gift_card_text(&"g".repeat(513)));

    assert!(is_safe_ticket_text("line one\r\n\tline two"));
    assert!(!is_safe_ticket_text("bell\u{7}"));
    assert!(!is_safe_ticket_text("next\u{85}line"));

    assert!(valid_ticket_subject("Cannot connect"));
    assert!(!valid_ticket_subject(" padded"));
    assert!(!valid_ticket_subject("tab\tinside"));
    assert!(valid_ticket_subject(&"é".repeat(200)));
    assert!(!valid_ticket_subject(&"é".repeat(201)));

    assert!(valid_ticket_message("first line\nsecond line"));
    assert!(!valid_ticket_message("trailing\n"));
    assert!(!valid_ticket_message(""));
    assert!(!valid_ticket_message(&"m".repeat(10_001)));
}

#[test]
fn subscription_and_configuration_urls() {
    assert_eq!(validate_subscription_url("https://sub.example.com/api/v1/s?token=1"), Ok(()));
    for invalid in [
        "http://sub.example.com/s",
        "https://user@sub.example.com/s",
        "https://sub.example.com:8443/s",
        "https://sub.example.com/s#f",
        "not a url",
    ] {
        assert_eq!(validate_subscription_url(invalid), Err(BusinessServiceError::InvalidResponse));
    }

    assert!(parse_config_url("https://api.example.com/", true).is_ok());
    assert_eq!(
        parse_config_url("https://api.example.com/v1", true).err(),
        Some(BusinessServiceError::RejectedConfigUrl)
    );
    assert!(parse_config_url("https://api.example.com/v1", false).is_ok());
    assert!(parse_config_url("https://api.example.com/v1?x=1", false).is_err());

    assert_eq!(validate_config_url("https://pay.orange.invalid/", &["pay.orange.invalid"], true), Ok(()));
    assert_eq!(
        validate_config_url("https://pay.example.com/", &["pay.orange.invalid"], true),
        Err(BusinessServiceError::RejectedConfigUrl)
    );
}

#[test]
fn telegram_bot_names_are_trimmed_and_checked() {
    assert_eq!(normalize_telegram_username(None), Ok(None));
    assert_eq!(normalize_telegram_username(Some("  @@orange_bot ")), Ok(Some("orange_bot".to_owned())));
    assert_eq!(normalize_telegram_username(Some(" @ ")), Ok(None));
    assert_eq!(normalize_telegram_username(Some("bad-name")), Err(BusinessServiceError::InvalidResponse));
    assert_eq!(
        normalize_telegram_username(Some(&"b".repeat(65))),
        Err(BusinessServiceError::InvalidResponse)
    );
    assert_eq!(normalize_telegram_username(Some(&"b".repeat(64))), Ok(Some("b".repeat(64))));
}

fn plan(id: u64, name: &str, content: Option<&str>, month: Option<u64>, year: Option<u64>) -> PlanData {
    PlanData {
        id,
        show: Some(true),
        name: name.to_owned(),
        content: content.map(str::to_owned),
        transfer_enable: Some(100),
        month_price: month,
        quarter_price: None,
        half_year_price: None,
        year_price: year,
        two_year_price: None,
        three_year_price: None,
        onetime_price: None,
    }
}

#[test]
fn plans_decode_real_server_shape() {
    let plans = decode_plans(vec![plan(
        5,
        "基础套餐",
        Some("<p>高速稳定线路</p><ul><li>支持多设备</li></ul>"),
        Some(1999),
        Some(19999),
    )])
    .expect("real plan payload must decode");
    assert_eq!(plans.len(), 2);
    assert_eq!(plans[0].plan_id, "5:month_price");
    assert_eq!(
        plans[0].description_html.as_deref(),
        Some("<p>高速稳定线路</p><ul><li>支持多设备</li></ul>")
    );
    assert_eq!(plans[1].description_html, plans[0].description_html);
    assert_eq!(plans[1].plan_id, "5:year_price");
    assert_eq!(plans[1].billing_period_days, 365);
    assert_eq!(plans[0].price_minor_units, 1999);
    assert_eq!(plans[0].traffic_bytes, Some(100 * 1024 * 1024 * 1024));
}

#[test]
fn plans_decode_empty_description_as_none() {
    let plans = decode_plans(vec![plan(5, "基础套餐", Some("   "), Some(1999), None)])
        .expect("empty plan description must decode");
    assert_eq!(plans.len(), 1);
    assert_eq!(plans[0].description_html, None);
}

#[test]
fn hidden_and_idless_plans_are_not_listed() {
    let mut hidden = plan(6, "隐藏", None, Some(100), None);
    hidden.show = Some(false);
    let plans = decode_plans(vec![plan(0, "无编号", None, Some(100), None), hidden]).unwrap();
    assert!(plans.is_empty());
}

#[test]
fn a_blank_plan_name_is_an_invalid_response() {
    assert_eq!(
        decode_plans(vec![plan(5, "   ", None, Some(100), None)]).err(),
        Some(BusinessServiceError::InvalidResponse)
    );
}

#[test]
fn too_many_offers_are_an_invalid_response() {
    let plans = (1..=129).map(|id| plan(id, "套餐", None, Some(100), Some(1000))).collect();
    assert_eq!(decode_plans(plans).err(), Some(BusinessServiceError::InvalidResponse));
}

#[test]
fn invitation_decode_bool_status_and_five_stat_elements() {
    let center = decode_invitation_center(InvitationCenterData {
        codes: Some(vec![InvitationCodeData {
            code: "INVITE01".to_owned(),
            status: Some(false),
            pv: Some(3),
            created_at: Some(1_787_904_000),
        }]),
        stat: Some(vec![10, 5000, 1200, 15, 4800]),
    })
    .expect("invitation payload must decode");
    assert_eq!(center.codes.len(), 1);
    assert!(matches!(center.codes[0].status, InvitationCodeStatus::Available));
    assert_eq!(center.codes[0].created_at_unix_ms, Some(1_787_904_000_000));
    assert_eq!(center.stats.registered_users, 10);
    assert_eq!(center.stats.pending_commission, 1200);
}

#[test]
fn invitation_stats_must_have_five_elements() {
    let result = decode_invitation_center(InvitationCenterData {
        codes: None,
        stat: Some(vec![10, 5000, 1200, 15]),
    });
    assert_eq!(result.err(), Some(BusinessServiceError::InvalidResponse));
}

#[test]
fn an_invalid_invitation_code_is_an_invalid_response() {
    let result = decode_invitation_center(InvitationCenterData {
        codes: Some(vec![InvitationCodeData {
            code: "bad code".to_owned(),
            status: None,
            pv: None,
            created_at: None,
        }]),
        stat: Some(vec![0, 0, 0, 0, 0]),
    });
    assert_eq!(result.err(), Some(BusinessServiceError::InvalidResponse));
}

fn ticket_message(id: u64, ticket_id: u64, text: &str) -> TicketMessageData {
    TicketMessageData {
        id: Some(id),
        ticket_id: Some(ticket_id),
        message: Some(text.to_owned()),
        created_at: None,
        updated_at: Some(1_787_904_000),
        is_me: Some(true),
    }
}

fn ticket_data(id: u64, messages: Vec<TicketMessageData>) -> TicketDetailData {
    TicketDetailData {
        id: Some(id),
        subject: Some("  无法连接  ".to_owned()),
        created_at: Some(1_787_900_000),
        updated_at: None,
        status: Some(2),
        message: Some(messages),
    }
}

#[test]
fn a_ticket_detail_is_trimmed_and_timed_in_milliseconds() {
    let detail = decode_ticket_detail(ticket_data(42, vec![ticket_message(7, 42, " 你好 ")]), "42")
        .unwrap();
    assert_eq!(detail.ticket_id, "42");
    assert_eq!(detail.subject, "无法连接");
    assert_eq!(detail.status, TicketStatus::Answered);
    assert_eq!(detail.created_at_unix_ms, 1_787_900_000_000);
    assert_eq!(detail.updated_at_unix_ms, 1_787_900_000_000);
    assert_eq!(detail.messages.len(), 1);
    assert_eq!(detail.messages[0].message_id, "7");
    assert_eq!(detail.messages[0].body, "你好");
    assert_eq!(detail.messages[0].created_at_unix_ms, 1_787_904_000_000);
}

#[test]
fn a_ticket_detail_for_another_ticket_is_an_invalid_response() {
    let result = decode_ticket_detail(ticket_data(43, Vec::new()), "42");
    assert_eq!(result.err(), Some(BusinessServiceError::InvalidResponse));
    let result = decode_ticket_detail(ticket_data(42, vec![ticket_message(7, 43, "hi")]), "42");
    assert_eq!(result.err(), Some(BusinessServiceError::InvalidResponse));
    let result = decode_ticket_detail(ticket_data(42, Vec::new()), "0");
    assert_eq!(result.err(), Some(BusinessServiceError::InvalidResponse));
}

fn listed_ticket(id: u64, subject: &str, status: u64) -> TicketData {
    TicketData {
        id: Some(id),
        subject: Some(subject.to_owned()),
        status: Some(status),
        created_at: Some(1_787_900_000),
        updated_at: Some(1_787_904_000),
    }
}

#[test]
fn a_ticket_list_keeps_order_and_closes_at_the_last_change() {
    let tickets = decode_tickets(vec![listed_ticket(5, " 账单 ", 1), listed_ticket(9, "speed", 7)])
        .unwrap();
    assert_eq!(tickets.len(), 2);
    assert_eq!(tickets[0].ticket_id, "5");
    assert_eq!(tickets[0].subject, "账单");
    assert_eq!(tickets[0].status, TicketStatus::Closed);
    assert_eq!(tickets[0].last_message_at_unix_ms, 1_787_904_000_000);
    assert_eq!(tickets[0].closed_at_unix_ms, Some(1_787_904_000_000));
    assert_eq!(tickets[1].ticket_id, "9");
    assert_eq!(tickets[1].status, TicketStatus::Unknown);
    assert_eq!(tickets[1].closed_at_unix_ms, None);
}

#[test]
fn a_ticket_list_falls_back_to_the_creation_time() {
    let mut ticket = listed_ticket(5, "s", 0);
    ticket.updated_at = None;
    let tickets = decode_tickets(vec![ticket]).unwrap();
    assert_eq!(tickets[0].last_message_at_unix_ms, 1_787_900_000_000);
    assert_eq!(tickets[0].status, TicketStatus::Open);
}

#[test]
fn a_ticket_list_with_a_bad_ticket_is_an_invalid_response() {
    let invalid = Some(BusinessServiceError::InvalidResponse);
    assert_eq!(decode_tickets(vec![listed_ticket(0, "s", 0)]).err(), invalid);
    assert_eq!(decode_tickets(vec![listed_ticket(5, "   ", 0)]).err(), invalid);
    assert_eq!(decode_tickets(vec![listed_ticket(5, "a\u{7}b", 0)]).err(), invalid);
    let mut untimed = listed_ticket(5, "s", 0);
    untimed.updated_at = None;
    untimed.created_at = None;
    assert_eq!(decode_tickets(vec![untimed]).err(), invalid);
    let many: Vec<TicketData> = (1..=257).map(|id| listed_ticket(id, "s", 0)).collect();
    assert_eq!(decode_tickets(many).err(), invalid);
}

#[test]
fn active_sessions_decode_without_token_key() {
    let sessions = decode_active_sessions(vec![ActiveSessionData {
        id: 42,
        name: Some("windows-desktop".to_owned()),
        last_used_at: Some("2026-08-04T12:00:00.000000Z".to_owned()),
        created_at: Some("2026-08-01T08:00:00.000000Z".to_owned()),
    }])
    .expect("sessions without token key must decode");
    assert_eq!(sessions.len(), 1);
    assert_eq!(sessions[0].session_id, "42");
}

#[test]
fn active_session_texts_that_cannot_be_shown_are_left_out() {
    let sessions = decode_active_sessions(vec![ActiveSessionData {
        id: 7,
        name: Some("  phone  ".to_owned()),
        last_used_at: Some("   ".to_owned()),
        created_at: Some("a\u{1b}b".to_owned()),
    }])
    .unwrap();
    assert_eq!(sessions[0].name.as_deref(), Some("phone"));
    assert_eq!(sessions[0].last_used_at, None);
    assert_eq!(sessions[0].created_at, None);
    let many: Vec<ActiveSessionData> = (0..65)
        .map(|id| ActiveSessionData { id, name: None, last_used_at: None, created_at: None })
        .collect();
    assert_eq!(decode_active_sessions(many).err(), Some(BusinessServiceError::InvalidResponse));
}

fn notice(title: &str, content: &str, show: bool) -> NoticeData {
    NoticeData { title: title.to_owned(), content: content.to_owned(), show }
}

#[test]
fn notices_decode_real_server_shape() {
    let notices = decode_notices(
        2,
        vec![notice("维护通知", "今晚升级", true), notice("隐藏公告", "不展示", false)],
    )
    .expect("real notice payload must decode");
    assert_eq!(notices.len(), 1);
    assert_eq!(notices[0].title, "维护通知");
}

#[test]
fn notices_are_trimmed_filtered_and_capped() {
    let mut sent = vec![notice(" t ", "\tline\n", true), notice("", "c", true), notice("t", "a\u{0}", true)];
    for _ in 0..70 {
        sent.push(notice("x", "y", true));
    }
    let total = sent.len() as u64;
    let notices = decode_notices(total, sent).unwrap();
    assert_eq!(notices.len(), 64);
    assert_eq!(notices[0].title, "t");
    assert_eq!(notices[0].content, "line");
    assert_eq!(notices[1].title, "x");
    assert_eq!(
        decode_notices(0, vec![notice("t", "c", true)]).err(),
        Some(BusinessServiceError::InvalidResponse)
    );
}

fn gift_record(id: u64, code: &str) -> GiftCardHistoryRecordData {
    GiftCardHistoryRecordData {
        id,
        code: code.to_owned(),
        template_name: Some("新人礼包".to_owned()),
        template_type_name: Some("余额卡".to_owned()),
        created_at: Some("1787904000".to_owned()),
    }
}

#[test]
fn gift_card_history_decode_unix_created_at() {
    let history = decode_gift_card_history(vec![gift_record(3, "ABCD1234****")], 1)
        .expect("history with unix created_at must decode");
    assert_eq!(history.records.len(), 1);
    assert_eq!(history.records[0].created_at.as_deref(), Some("1787904000"));
    assert_eq!(history.records[0].record_id, "3");
    assert_eq!(history.total, 1);
}

#[test]
fn gift_card_history_out_of_shape_is_an_invalid_response() {
    let invalid = Some(BusinessServiceError::InvalidResponse);
    assert_eq!(decode_gift_card_history(vec![gift_record(3, "A")], 0).err(), invalid);
    assert_eq!(decode_gift_card_history(vec![gift_record(3, &"A".repeat(65))], 1).err(), invalid);
    assert_eq!(decode_gift_card_history(vec![gift_record(3, "A\u{7f}")], 1).err(), invalid);
    assert_eq!(decode_gift_card_history(Vec::new(), 9_007_199_254_740_992).err(), invalid);
    let many: Vec<GiftCardHistoryRecordData> = (0..101).map(|id| gift_record(id, "A")).collect();
    assert_eq!(decode_gift_card_history(many, 200).err(), invalid);
}

fn order_data(status: u64, paid_at: ReportedSeconds) -> OrderData {
    OrderData {
        trade_no: Some("ORD20260804000001".to_owned()),
        plan_id: Some(5),
        listed_plan_id: Some(5),
        listed_plan_name: Some("基础套餐".to_owned()),
        listed_plan_transfer_enable: None,
        period: Some("month_price".to_owned()),
        status: Some(status),
        total_amount: Some(1999),
        created_at: Some(1_787_904_000),
        paid_at,
        updated_at: Some(1_787_904_000),
    }
}

#[test]
fn orders_decode_surplus_credit_field() {
    let orders = decode_orders(vec![order_data(0, ReportedSeconds::Missing)])
        .expect("order payload with surplus_credit must decode");
    assert_eq!(orders.len(), 1);
    assert_eq!(orders[0].order_id, "ORD20260804000001");
    assert_eq!(orders[0].plan_id, "5");
    assert_eq!(orders[0].plan_name, "基础套餐");
    assert_eq!(orders[0].billing_period_days, Some(30));
    assert_eq!(orders[0].status, OrderStatus::Pending);
    assert_eq!(orders[0].amount_minor_units, 1999);
    assert_eq!(orders[0].created_at_unix_ms, 1_787_904_000_000);
    assert_eq!(orders[0].paid_at_unix_ms, None);
}

#[test]
fn order_detail_decode_payment_and_surplus_orders() {
    let mut order = order_data(3, ReportedSeconds::Seconds(1_787_904_100));
    order.listed_plan_transfer_enable = Some(100);
    order.updated_at = Some(1_787_904_100);
    let detail = decode_order_detail(order).expect("order detail with payment must decode");
    assert_eq!(detail.summary.order_id, "ORD20260804000001");
    assert_eq!(detail.summary.status, OrderStatus::Paid);
    assert_eq!(detail.summary.paid_at_unix_ms, Some(1_787_904_100_000));
    assert_eq!(detail.traffic_bytes, Some(100 * 1_073_741_824));
    assert_eq!(detail.updated_at_unix_ms, Some(1_787_904_100_000));
}

#[test]
fn an_order_without_its_plan_is_named_as_withdrawn() {
    let mut order = order_data(4, ReportedSeconds::Missing);
    order.plan_id = None;
    order.listed_plan_name = None;
    order.period = Some("decade_price".to_owned());
    let orders = decode_orders(vec![order]).unwrap();
    assert_eq!(orders[0].plan_id, "5");
    assert_eq!(orders[0].plan_name, "已下架套餐");
    assert_eq!(orders[0].billing_period_days, None);
    assert_eq!(orders[0].status, OrderStatus::Refunded);
}

#[test]
fn orders_out_of_shape_are_an_invalid_response() {
    let invalid = Some(BusinessServiceError::InvalidResponse);
    assert_eq!(decode_orders(vec![order_data(0, ReportedSeconds::Malformed)]).err(), invalid);
    let mut order = order_data(0, ReportedSeconds::Missing);
    order.trade_no = Some("ORD 1".to_owned());
    assert_eq!(decode_orders(vec![order]).err(), invalid);
    let mut order = order_data(0, ReportedSeconds::Missing);
    order.plan_id = Some(0);
    assert_eq!(decode_orders(vec![order]).err(), invalid);
    let mut order = order_data(0, ReportedSeconds::Missing);
    order.total_amount = Some(9_007_199_254_740_992);
    assert_eq!(decode_orders(vec![order]).err(), invalid);
    let mut order = order_data(0, ReportedSeconds::Missing);
    order.listed_plan_transfer_enable = Some(9_007_199_254_740_991);
    assert_eq!(decode_order_detail(order).err(), invalid);
    let many: Vec<OrderData> = (0..257).map(|_| order_data(0, ReportedSeconds::Missing)).collect();
    assert_eq!(decode_orders(many).err(), invalid);
}

#[test]
fn checkout_decode_raw_response_shapes() {
    let free = decode_checkout(-1, CheckoutPayload::Flag(true), "ORD1")
        .expect("free checkout must decode");
    assert!(free.qr_code.is_none());
    assert_eq!(free.order_id, "ORD1");

    let paid = decode_checkout(
        0,
        CheckoutPayload::Text("weixin://wxpay/bizpayurl?pr=abc".to_owned()),
        "ORD2",
    )
    .expect("QR checkout must decode");
    assert_eq!(paid.qr_code.as_deref(), Some("weixin://wxpay/bizpayurl?pr=abc"));

    let redirect = decode_checkout(
        1,
        CheckoutPayload::Text("https://pay.example/checkout/abc".to_owned()),
        "ORD3",
    );
    assert!(matches!(redirect, Err(BusinessServiceError::InvalidResponse)));
}

#[test]
fn checkout_answers_out_of_shape_are_invalid() {
    let invalid = Some(BusinessServiceError::InvalidResponse);
    assert_eq!(decode_checkout(-1, CheckoutPayload::Flag(false), "O").err(), invalid);
    assert_eq!(decode_checkout(0, CheckoutPayload::Flag(true), "O").err(), invalid);
    assert_eq!(decode_checkout(0, CheckoutPayload::Text("   ".to_owned()), "O").err(), invalid);
    assert_eq!(decode_checkout(0, CheckoutPayload::Other, "O").err(), invalid);
    let trimmed = decode_checkout(0, CheckoutPayload::Text(" code ".to_owned()), "O").unwrap();
    assert_eq!(trimmed.qr_code.as_deref(), Some("code"));
}

fn payment_method(fee: DecimalField) -> PaymentMethodData {
    PaymentMethodData {
        id: Some(3),
        name: Some(" 支付宝 ".to_owned()),
        payment: Some("alipay".to_owned()),
        handling_fee_percent: fee,
    }
}

#[test]
fn payment_methods_are_trimmed_and_fees_normalized() {
    let methods = decode_payment_methods(vec![
        payment_method(DecimalField::Missing),
        payment_method(DecimalField::Text(" 1.5 ".to_owned())),
        payment_method(DecimalField::Number("2".to_owned())),
    ])
    .unwrap();
    assert_eq!(methods.len(), 3);
    assert_eq!(methods[0].payment_method_id, "3");
    assert_eq!(methods[0].name, "支付宝");
    assert_eq!(methods[0].provider, "alipay");
    assert_eq!(methods[0].handling_fee_percent, "0");
    assert_eq!(methods[1].handling_fee_percent, "1.5");
    assert_eq!(methods[2].handling_fee_percent, "2");
}

#[test]
fn payment_methods_out_of_shape_are_invalid() {
    let invalid = Some(BusinessServiceError::InvalidResponse);
    assert_eq!(decode_payment_methods(vec![payment_method(DecimalField::Malformed)]).err(), invalid);
    assert_eq!(
        decode_payment_methods(vec![payment_method(DecimalField::Text("-1".to_owned()))]).err(),
        invalid
    );
    let mut method = payment_method(DecimalField::Missing);
    method.payment = Some("ali pay".to_owned());
    assert_eq!(decode_payment_methods(vec![method]).err(), invalid);
    let mut method = payment_method(DecimalField::Missing);
    method.id = Some(0);
    assert_eq!(decode_payment_methods(vec![method]).err(), invalid);
}

#[test]
fn commission_settings_keep_what_can_be_shown() {
    let config = decode_commission_config(CommissionConfigData {
        withdraw_methods: Some(vec![" 支付宝 ".to_owned(), "".to_owned(), "a\u{7}".to_owned(), "USDT".to_owned()]),
        telegram_discuss_link: Some(" https://t.me/orange ".to_owned()),
        withdraw_close: JsonSwitch::Unsigned(1),
    });
    assert_eq!(config.withdraw_methods, vec!["支付宝".to_owned(), "USDT".to_owned()]);
    assert!(config.withdraw_closed);
    assert_eq!(config.telegram_discuss_link.as_deref(), Some("https://t.me/orange"));

    let config = decode_commission_config(CommissionConfigData {
        withdraw_methods: None,
        telegram_discuss_link: Some("http://t.me/orange".to_owned()),
        withdraw_close: JsonSwitch::Unsigned(2),
    });
    assert!(config.withdraw_methods.is_empty());
    assert!(!config.withdraw_closed);
    assert_eq!(config.telegram_discuss_link, None);
    let config = decode_commission_config(CommissionConfigData {
        withdraw_methods: None,
        telegram_discuss_link: None,
        withdraw_close: JsonSwitch::Bool(true),
    });
    assert!(config.withdraw_closed);
}

fn article(id: u64, title: &str, updated_at: u64) -> KnowledgeArticleData {
    KnowledgeArticleData {
        id,
        title: title.to_owned(),
        category: " 使用教程 ".to_owned(),
        body: " <p>hi</p> ".to_owned(),
        updated_at,
    }
}

#[test]
fn a_knowledge_article_is_trimmed_and_timed() {
    let shown = decode_knowledge_article(article(12, " 如何连接 ", 1_787_904_000)).unwrap();
    assert_eq!(shown.article_id, "12");
    assert_eq!(shown.title, "如何连接");
    assert_eq!(shown.category.as_deref(), Some("使用教程"));
    assert_eq!(shown.body_html, "<p>hi</p>");
    assert_eq!(shown.updated_at_unix_ms, Some(1_787_904_000_000));
    let mut uncategorized = article(12, "t", 0);
    uncategorized.category = "  ".to_owned();
    let shown = decode_knowledge_article(uncategorized).unwrap();
    assert_eq!(shown.category, None);
    assert_eq!(shown.updated_at_unix_ms, None);
    let mut empty = article(12, "t", 0);
    empty.body = "   ".to_owned();
    assert_eq!(decode_knowledge_article(empty).err(), Some(BusinessServiceError::InvalidResponse));
}

#[test]
fn the_knowledge_base_is_listed_by_category() {
    let groups = decode_knowledge_list(vec![
        KnowledgeGroupData { category: " A ".to_owned(), articles: vec![article(1, "x", 0)] },
        KnowledgeGroupData { category: "B".to_owned(), articles: vec![article(2, "y", 5), article(3, "z", 0)] },
    ])
    .unwrap();
    assert_eq!(groups.len(), 2);
    assert_eq!(groups[0].category, "A");
    assert_eq!(groups[0].articles[0].article_id, "1");
    assert_eq!(groups[1].articles.len(), 2);
    assert_eq!(groups[1].articles[0].updated_at_unix_ms, Some(5_000));
    let too_many = vec![
        KnowledgeGroupData { category: "A".to_owned(), articles: (0..300).map(|i| article(i, "t", 0)).collect() },
        KnowledgeGroupData { category: "B".to_owned(), articles: (0..213).map(|i| article(i, "t", 0)).collect() },
    ];
    assert_eq!(decode_knowledge_list(too_many).err(), Some(BusinessServiceError::InvalidResponse));
    let bad_title = vec![KnowledgeGroupData { category: "A".to_owned(), articles: vec![article(1, " ", 0)] }];
    assert_eq!(decode_knowledge_list(bad_title).err(), Some(BusinessServiceError::InvalidResponse));
}

fn account_data(email: &str) -> AccountData {
    AccountData {
        email: email.to_owned(),
        uuid: "9f1c2e10-0000-4000-8000-000000000001".to_owned(),
        avatar_url: "https://cdn.v2ex.com/gravatar/abc?s=64&d=identicon".to_owned(),
        balance: 0,
        commission_balance: 0,
        transfer_enable: 0,
        banned: false,
    }
}

#[test]
fn account_decode_tolerates_nullable_server_fields() {
    let account = decode_account(account_data("user@gmail.com"))
        .expect("nullable account fields must decode");
    assert!(matches!(account.status, AccountStatus::Active));
    assert_eq!(account.email, "user@gmail.com");
    assert_eq!(account.user_id, "9f1c2e10-0000-4000-8000-000000000001");
}

#[test]
fn accounts_out_of_shape_are_refused_by_cause() {
    assert_eq!(decode_account(account_data("not-an-email")).err(), Some(BusinessServiceError::InvalidEmail));
    let mut banned = account_data("user@gmail.com");
    banned.banned = true;
    banned.balance = 1999;
    let profile = decode_account(banned).unwrap();
    assert_eq!(profile.status, AccountStatus::Disabled);
    assert_eq!(profile.balance_minor_units, 1999);
    let mut data = account_data("user@gmail.com");
    data.uuid = "id\u{1}".to_owned();
    assert_eq!(decode_account(data).err(), Some(BusinessServiceError::InvalidResponse));
    let mut data = account_data("user@gmail.com");
    data.balance = 9_007_199_254_740_992;
    assert_eq!(decode_account(data).err(), Some(BusinessServiceError::InvalidResponse));
}

fn subscription_data(plan_id: Option<u64>, plan: Option<ListedPlanFields>) -> SubscriptionData {
    SubscriptionData {
        upload: 0,
        download: 0,
        transfer_enable: 0,
        expired_at: None,
        email: "user@gmail.com".to_owned(),
        subscribe_url: "https://api.donghuyun.top/api/v1/client/subscribe?token=abc123".to_owned(),
        token: "abc123".to_owned(),
        uuid: "9f1c2e10-0000-4000-8000-000000000001".to_owned(),
        plan_id,
        plan,
    }
}

#[test]
fn subscription_decode_tolerates_planless_account() {
    let wire = decode_subscription(subscription_data(None, None))
        .expect("plan-less server payload must decode");
    assert!(matches!(wire.status, SubscriptionStatus::NoPlan));
    assert!(wire.plan_id.is_none());
    assert!(wire.expires_at_unix_ms.is_none());
}

#[test]
fn subscription_decode_active_account() {
    let mut data = subscription_data(
        Some(5),
        Some(ListedPlanFields { field_count: 3, name: Some("basic".to_owned()) }),
    );
    data.download = 1_073_741_824;
    data.expired_at = Some(1_893_456_000);
    data.transfer_enable = 107_374_182_400;
    let wire = decode_subscription(data).expect("active subscription must decode");
    assert!(matches!(wire.status, SubscriptionStatus::Active));
    assert_eq!(wire.plan_id.as_deref(), Some("5"));
    assert_eq!(wire.plan_name.as_deref(), Some("basic"));
    assert!(wire.expires_at_unix_ms.is_some());
    assert_eq!(wire.expires_at_unix_ms, Some(1_893_456_000_000));
    assert_eq!(wire.used_bytes, 1_073_741_824);
    assert_eq!(wire.total_bytes, 107_374_182_400);
}

#[test]
fn subscription_decode_keeps_credential_when_plan_name_unusable() {
    let mut data = subscription_data(
        Some(5),
        Some(ListedPlanFields { field_count: 3, name: Some("   ".to_owned()) }),
    );
    data.expired_at = Some(1_893_456_000);
    data.transfer_enable = 107_374_182_400;
    let wire = decode_subscription(data).expect("blank plan name must not fail the whole subscription");
    assert_eq!(wire.plan_id.as_deref(), Some("5"));
    assert!(wire.plan_name.is_none());
    assert!(!wire.subscription_credential.is_empty());
}

#[test]
fn subscriptions_out_of_shape_are_refused_by_cause() {
    let mut data = subscription_data(None, None);
    data.email = "nobody".to_owned();
    assert_eq!(decode_subscription(data).err(), Some(BusinessServiceError::InvalidEmail));
    let mut data = subscription_data(None, None);
    data.email = "nobody".to_owned();
    data.upload = u64::MAX;
    data.download = 1;
    assert_eq!(decode_subscription(data).err(), Some(BusinessServiceError::InvalidResponse));
    let mut data = subscription_data(None, None);
    data.subscribe_url = "http://api.example/sub".to_owned();
    assert_eq!(decode_subscription(data).err(), Some(BusinessServiceError::InvalidResponse));
    let data = subscription_data(Some(5), Some(ListedPlanFields { field_count: 0, name: None }));
    assert_eq!(decode_subscription(data).err(), Some(BusinessServiceError::InvalidResponse));
    let mut data = subscription_data(Some(0), None);
    data.expired_at = Some(0);
    let wire = decode_subscription(data).unwrap();
    assert!(matches!(wire.status, SubscriptionStatus::NoPlan));
    assert_eq!(wire.expires_at_unix_ms, None);
}

#[test]
fn gift_card_checks_trim_and_drop_empty_texts() {
    let check = decode_gift_card_check(GiftCardCheckData {
        can_redeem: true,
        reason: Some("   ".to_owned()),
        card_name: Some(" 新人礼包 ".to_owned()),
        reward_preview_json: Some("{\"balance\":1000}".to_owned()),
    })
    .unwrap();
    assert!(check.can_redeem);
    assert_eq!(check.reason, None);
    assert_eq!(check.card_name.as_deref(), Some("新人礼包"));
    assert_eq!(check.reward_preview_json.as_deref(), Some("{\"balance\":1000}"));
    let long = decode_gift_card_check(GiftCardCheckData {
        can_redeem: false,
        reason: None,
        card_name: None,
        reward_preview_json: Some("x".repeat(8193)),
    })
    .unwrap();
    assert_eq!(long.reward_preview_json, None);
    let bad = decode_gift_card_check(GiftCardCheckData {
        can_redeem: false,
        reason: Some("bad\u{7}".to_owned()),
        card_name: None,
        reward_preview_json: None,
    });
    assert_eq!(bad.err(), Some(BusinessServiceError::InvalidResponse));
}

#[test]
fn gift_card_redemptions_need_a_message() {
    let redeem = decode_gift_card_redeem(GiftCardRedeemData {
        message: " 兑换成功 ".to_owned(),
        template_name: None,
        rewards_json: None,
    })
    .unwrap();
    assert_eq!(redeem.message, "兑换成功");
    let empty = decode_gift_card_redeem(GiftCardRedeemData {
        message: "  ".to_owned(),
        template_name: None,
        rewards_json: None,
    });
    assert_eq!(empty.err(), Some(BusinessServiceError::InvalidResponse));
}

fn production_config(email_whitelist_suffix: Vec<&str>) -> ProductionConfigData {
    ProductionConfigData {
        app_description: String::new(),
        app_url: "https://example.com".to_owned(),
        captcha_type: "recaptcha".to_owned(),
        email_whitelist_suffix: email_whitelist_suffix.into_iter().map(str::to_owned).collect(),
        is_captcha: 0,
        is_email_verify: 1,
        is_invite_force: 0,
        is_recaptcha: 0,
        logo: None,
        recaptcha_site_key: None,
        recaptcha_v3_site_key: None,
        tos_url: None,
        turnstile_site_key: None,
        recaptcha_threshold_in_range: true,
    }
}

#[test]
fn production_config_decodes_email_whitelist() {
    let config = production_config(vec!["gmail.com", "@QQ.com", "163.com"]);
    validate_production_config(&config).expect("a populated whitelist must decode");
    assert_eq!(
        normalize_email_suffixes(config.email_whitelist_suffix),
        vec!["gmail.com", "qq.com", "163.com"],
        "the whitelist must survive decoding and normalization"
    );
}

#[test]
fn production_config_decodes_disabled_whitelist_as_empty() {
    let config = production_config(Vec::new());
    validate_production_config(&config).expect("an empty whitelist must decode");
    assert!(config.email_whitelist_suffix.is_empty());
}

#[test]
fn production_configs_out_of_shape_are_invalid() {
    let invalid = Err(BusinessServiceError::InvalidResponse);
    let mut config = production_config(Vec::new());
    config.is_captcha = 2;
    assert_eq!(validate_production_config(&config), invalid);
    let mut config = production_config(vec!["ünï.com"]);
    assert_eq!(validate_production_config(&config), invalid);
    config = production_config(Vec::new());
    config.logo = Some("a\u{7}".to_owned());
    assert_eq!(validate_production_config(&config), invalid);
    config = production_config(Vec::new());
    config.recaptcha_threshold_in_range = false;
    assert_eq!(validate_production_config(&config), invalid);
}

#[test]
fn production_logins_normalize_the_bearer_and_bound_the_token() {
    let (bearer, token) =
        decode_production_login("Bearer abc.DEF-123".to_owned(), "t0k".to_owned()).unwrap();
    assert_eq!(bearer, "abc.DEF-123");
    assert_eq!(token, "t0k");
    let invalid = Some(BusinessServiceError::InvalidResponse);
    assert_eq!(decode_production_login("Bearer ".to_owned(), "t".to_owned()).err(), invalid);
    assert_eq!(decode_production_login("abc".to_owned(), String::new()).err(), invalid);
}

#[test]
fn created_order_ids_must_be_valid() {
    assert_eq!(decode_created_order_id("ORD1".to_owned()).unwrap(), "ORD1");
    assert_eq!(
        decode_created_order_id("ORD 1".to_owned()).err(),
        Some(BusinessServiceError::InvalidResponse)
    );
}

fn node_load(id: &str, group: &str, has_load: bool, state: NodeLoadState) -> NodeLoadData {
    NodeLoadData {
        id: id.to_owned(),
        capacity_group: group.to_owned(),
        has_load,
        load_in_range: true,
        weight_in_range: true,
        state,
        updated_at: Some(1_786_427_970),
    }
}

#[test]
fn node_loads_decode_strict_server_shape() {
    let decoded = decode_node_loads(
        1,
        1_786_428_000,
        180,
        vec![
            node_load("xb-12", "m-3", true, NodeLoadState::Idle),
            node_load("xb-13", "m-4", false, NodeLoadState::Unknown),
        ],
    )
    .expect("valid load payload must decode");
    assert_eq!(decoded.ttl_seconds, 180);
    assert_eq!(decoded.nodes.len(), 2);
    assert_eq!(decoded.nodes[0].capacity_group, "m-3");
    assert_eq!(decoded.nodes[0].state, NodeLoadState::Idle);
    assert_eq!(decoded.nodes[1].state, NodeLoadState::Unknown);
}

#[test]
fn node_loads_reject_duplicate_ids_and_state_mismatch() {
    let duplicate = decode_node_loads(
        1,
        1_786_428_000,
        180,
        vec![
            node_load("xb-12", "m-3", true, NodeLoadState::Idle),
            node_load("xb-12", "m-4", true, NodeLoadState::Normal),
        ],
    );
    assert!(duplicate.is_err());
    let mismatch = decode_node_loads(
        1,
        1_786_428_000,
        180,
        vec![node_load("xb-12", "m-3", true, NodeLoadState::Unknown)],
    );
    assert!(mismatch.is_err());
}

#[test]
fn node_load_snapshots_out_of_range_are_invalid() {
    let invalid = Some(BusinessServiceError::InvalidResponse);
    assert_eq!(decode_node_loads(2, 1, 180, Vec::new()).err(), invalid);
    assert_eq!(decode_node_loads(1, 1, 29, Vec::new()).err(), invalid);
    assert_eq!(decode_node_loads(1, 1, 601, Vec::new()).err(), invalid);
    assert_eq!(decode_node_loads(1, 9_007_199_254_740_992, 180, Vec::new()).err(), invalid);
    let mut node = node_load("xb-1", "m-1", true, NodeLoadState::Busy);
    node.weight_in_range = false;
    assert_eq!(decode_node_loads(1, 1, 180, vec![node]).err(), invalid);
    let node = node_load("xb 1", "m-1", true, NodeLoadState::Busy);
    assert_eq!(decode_node_loads(1, 1, 180, vec![node]).err(), invalid);
}

#[test]
fn a_production_configuration_gives_the_service_settings() {
    let mut data = production_config(vec!["@QQ.com", "gmail.com"]);
    data.app_description = "  ".to_owned();
    data.is_invite_force = 1;
    let config = production_service_config(data);
    assert_eq!(config.minimum_supported_version, "0.1.0");
    assert!(!config.maintenance);
    assert_eq!(config.notice, None);
    assert!(config.registration_requires_invite);
    assert!(config.registration_requires_email_verification);
    assert_eq!(config.email_suffix_whitelist, vec!["qq.com", "gmail.com"]);
    let mut data = production_config(Vec::new());
    data.app_description = " 欢迎 ".to_owned();
    data.is_email_verify = 0;
    let config = production_service_config(data);
    assert_eq!(config.notice.as_deref(), Some(" 欢迎 "));
    assert!(!config.registration_requires_email_verification);
}

#[test]
fn sessions_are_built_with_their_status() {
    let session = AuthSession::signed_out();
    assert_eq!(session.status, AuthSessionStatus::SignedOut);
    assert!(session.user.is_none());
    let user = decode_account(account_data("user@gmail.com")).unwrap();
    let session = AuthSession::authenticated(user);
    assert_eq!(session.status, AuthSessionStatus::Authenticated);
    assert_eq!(session.user.unwrap().email, "user@gmail.com");
    let session = AuthSession::unverified(None);
    assert_eq!(session.status, AuthSessionStatus::Unverified);
}
