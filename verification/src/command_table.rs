//! Laws of the command table and of the error names.
use vstd::prelude::*;
use crate::bootstrap_transport::{
    BootstrapTransportError, BusinessAuthentication, BusinessClientError, BusinessCommand,
    spec_client_error_name, spec_command_name, spec_route_authentication, spec_route_path,
    spec_transport_error_name,
};

verus! {

/// What tells the wire names of the commands apart.
pub open spec fn name_key(name: Seq<char>) -> (nat, char, char) {
    (name.len(), name[0], name[1])
}

/// What tells the route paths apart, with their first character.
pub open spec fn path_key(path: Seq<char>) -> (nat, char, char, char) {
    (path.len(), path[0], path[13], if path.len() > 22 { path[22] } else { ' ' })
}

/// What tells the error names apart, with their first character.
pub open spec fn error_name_key(name: Seq<char>) -> (nat, char, char) {
    (name.len(), name[0], name[10])
}

/// Every command has a wire name of its own: two commands with the same name
/// are the same command.
#[verifier::spinoff_prover]
pub proof fn law_command_names_distinct(a: BusinessCommand, b: BusinessCommand)
    ensures
        spec_command_name(a) == spec_command_name(b) ==> a == b,
{
    assert(name_key("login"@) == (5nat, 'l', 'o')) by { reveal_strlit("login"); }
    assert(name_key("register"@) == (8nat, 'r', 'e')) by { reveal_strlit("register"); }
    assert(name_key("send_email_verification"@) == (23nat, 's', 'e')) by { reveal_strlit("send_email_verification"); }
    assert(name_key("reset_password"@) == (14nat, 'r', 'e')) by { reveal_strlit("reset_password"); }
    assert(name_key("config"@) == (6nat, 'c', 'o')) by { reveal_strlit("config"); }
    assert(name_key("subscription"@) == (12nat, 's', 'u')) by { reveal_strlit("subscription"); }
    assert(name_key("account"@) == (7nat, 'a', 'c')) by { reveal_strlit("account"); }
    assert(name_key("notices"@) == (7nat, 'n', 'o')) by { reveal_strlit("notices"); }
    assert(name_key("plans"@) == (5nat, 'p', 'l')) by { reveal_strlit("plans"); }
    assert(name_key("orders"@) == (6nat, 'o', 'r')) by { reveal_strlit("orders"); }
    assert(name_key("order_detail"@) == (12nat, 'o', 'r')) by { reveal_strlit("order_detail"); }
    assert(name_key("payment_methods"@) == (15nat, 'p', 'a')) by { reveal_strlit("payment_methods"); }
    assert(name_key("checkout_order"@) == (14nat, 'c', 'h')) by { reveal_strlit("checkout_order"); }
    assert(name_key("cancel_order"@) == (12nat, 'c', 'a')) by { reveal_strlit("cancel_order"); }
    assert(name_key("create_order"@) == (12nat, 'c', 'r')) by { reveal_strlit("create_order"); }
    assert(name_key("invitation_center"@) == (17nat, 'i', 'n')) by { reveal_strlit("invitation_center"); }
    assert(name_key("generate_invitation_code"@) == (24nat, 'g', 'e')) by { reveal_strlit("generate_invitation_code"); }
    assert(name_key("tickets"@) == (7nat, 't', 'i')) by { reveal_strlit("tickets"); }
    assert(name_key("ticket_detail"@) == (13nat, 't', 'i')) by { reveal_strlit("ticket_detail"); }
    assert(name_key("create_ticket"@) == (13nat, 'c', 'r')) by { reveal_strlit("create_ticket"); }
    assert(name_key("reply_ticket"@) == (12nat, 'r', 'e')) by { reveal_strlit("reply_ticket"); }
    assert(name_key("close_ticket"@) == (12nat, 'c', 'l')) by { reveal_strlit("close_ticket"); }
    assert(name_key("reset_subscription"@) == (18nat, 'r', 'e')) by { reveal_strlit("reset_subscription"); }
    assert(name_key("gift_card_check"@) == (15nat, 'g', 'i')) by { reveal_strlit("gift_card_check"); }
    assert(name_key("gift_card_redeem"@) == (16nat, 'g', 'i')) by { reveal_strlit("gift_card_redeem"); }
    assert(name_key("gift_card_history"@) == (17nat, 'g', 'i')) by { reveal_strlit("gift_card_history"); }
    assert(name_key("commission_config"@) == (17nat, 'c', 'o')) by { reveal_strlit("commission_config"); }
    assert(name_key("withdraw_commission"@) == (19nat, 'w', 'i')) by { reveal_strlit("withdraw_commission"); }
    assert(name_key("transfer_commission"@) == (19nat, 't', 'r')) by { reveal_strlit("transfer_commission"); }
    assert(name_key("active_sessions"@) == (15nat, 'a', 'c')) by { reveal_strlit("active_sessions"); }
    assert(name_key("remove_active_session"@) == (21nat, 'r', 'e')) by { reveal_strlit("remove_active_session"); }
    assert(name_key("telegram_bot_info"@) == (17nat, 't', 'e')) by { reveal_strlit("telegram_bot_info"); }
    assert(name_key("knowledge_fetch"@) == (15nat, 'k', 'n')) by { reveal_strlit("knowledge_fetch"); }
    assert(name_key("update"@) == (6nat, 'u', 'p')) by { reveal_strlit("update"); }
    assert(name_key(spec_command_name(a)) == name_key(spec_command_name(b)) ==> a == b);
}

/// Every command is sent to a path of its own that starts with `/`, except the
/// ticket list and a ticket's detail, which share one path and differ by
/// their query.
#[verifier::spinoff_prover]
pub proof fn law_route_paths_distinct(a: BusinessCommand, b: BusinessCommand)
    requires
        !(a == BusinessCommand::Tickets && b == BusinessCommand::TicketDetail),
        !(a == BusinessCommand::TicketDetail && b == BusinessCommand::Tickets),
    ensures
        spec_route_path(a) == spec_route_path(b) ==> a == b,
        spec_route_path(a).len() > 0 && spec_route_path(a)[0] == '/',
{
    assert(path_key("/api/v1/passport/auth/login"@) == (27nat, '/', 'o', 'l')) by { reveal_strlit("/api/v1/passport/auth/login"); }
    assert(path_key("/api/v1/passport/auth/register"@) == (30nat, '/', 'o', 'r')) by { reveal_strlit("/api/v1/passport/auth/register"); }
    assert(path_key("/api/v1/passport/comm/sendEmailVerify"@) == (37nat, '/', 'o', 's')) by { reveal_strlit("/api/v1/passport/comm/sendEmailVerify"); }
    assert(path_key("/api/v1/passport/auth/forget"@) == (28nat, '/', 'o', 'f')) by { reveal_strlit("/api/v1/passport/auth/forget"); }
    assert(path_key("/api/v1/guest/comm/config"@) == (25nat, '/', '/', 'f')) by { reveal_strlit("/api/v1/guest/comm/config"); }
    assert(path_key("/api/v1/user/getSubscribe"@) == (25nat, '/', 'g', 'i')) by { reveal_strlit("/api/v1/user/getSubscribe"); }
    assert(path_key("/api/v1/user/info"@) == (17nat, '/', 'i', ' ')) by { reveal_strlit("/api/v1/user/info"); }
    assert(path_key("/api/v1/user/notice/fetch"@) == (25nat, '/', 'n', 't')) by { reveal_strlit("/api/v1/user/notice/fetch"); }
    assert(path_key("/api/v1/user/plan/fetch"@) == (23nat, '/', 'p', 'h')) by { reveal_strlit("/api/v1/user/plan/fetch"); }
    assert(path_key("/api/v1/user/order/fetch"@) == (24nat, '/', 'o', 'c')) by { reveal_strlit("/api/v1/user/order/fetch"); }
    assert(path_key("/api/v1/user/order/detail"@) == (25nat, '/', 'o', 'a')) by { reveal_strlit("/api/v1/user/order/detail"); }
    assert(path_key("/api/v1/user/order/getPaymentMethod"@) == (35nat, '/', 'o', 'P')) by { reveal_strlit("/api/v1/user/order/getPaymentMethod"); }
    assert(path_key("/api/v1/user/order/checkout"@) == (27nat, '/', 'o', 'c')) by { reveal_strlit("/api/v1/user/order/checkout"); }
    assert(path_key("/api/v1/user/order/cancel"@) == (25nat, '/', 'o', 'c')) by { reveal_strlit("/api/v1/user/order/cancel"); }
    assert(path_key("/api/v1/user/order/save"@) == (23nat, '/', 'o', 'e')) by { reveal_strlit("/api/v1/user/order/save"); }
    assert(path_key("/api/v1/user/invite/fetch"@) == (25nat, '/', 'i', 't')) by { reveal_strlit("/api/v1/user/invite/fetch"); }
    assert(path_key("/api/v1/user/invite/save"@) == (24nat, '/', 'i', 'v')) by { reveal_strlit("/api/v1/user/invite/save"); }
    assert(path_key("/api/v1/user/ticket/fetch"@) == (25nat, '/', 't', 't')) by { reveal_strlit("/api/v1/user/ticket/fetch"); }
    assert(path_key("/api/v1/user/ticket/save"@) == (24nat, '/', 't', 'v')) by { reveal_strlit("/api/v1/user/ticket/save"); }
    assert(path_key("/api/v1/user/ticket/reply"@) == (25nat, '/', 't', 'p')) by { reveal_strlit("/api/v1/user/ticket/reply"); }
    assert(path_key("/api/v1/user/ticket/close"@) == (25nat, '/', 't', 'o')) by { reveal_strlit("/api/v1/user/ticket/close"); }
    assert(path_key("/api/v1/user/resetSecurity"@) == (26nat, '/', 'r', 'r')) by { reveal_strlit("/api/v1/user/resetSecurity"); }
    assert(path_key("/api/v1/user/gift-card/check"@) == (28nat, '/', 'g', '/')) by { reveal_strlit("/api/v1/user/gift-card/check"); }
    assert(path_key("/api/v1/user/gift-card/redeem"@) == (29nat, '/', 'g', '/')) by { reveal_strlit("/api/v1/user/gift-card/redeem"); }
    assert(path_key("/api/v1/user/gift-card/history"@) == (30nat, '/', 'g', '/')) by { reveal_strlit("/api/v1/user/gift-card/history"); }
    assert(path_key("/api/v1/user/comm/config"@) == (24nat, '/', 'c', 'i')) by { reveal_strlit("/api/v1/user/comm/config"); }
    assert(path_key("/api/v1/user/ticket/withdraw"@) == (28nat, '/', 't', 't')) by { reveal_strlit("/api/v1/user/ticket/withdraw"); }
    assert(path_key("/api/v1/user/transfer"@) == (21nat, '/', 't', ' ')) by { reveal_strlit("/api/v1/user/transfer"); }
    assert(path_key("/api/v1/user/getActiveSession"@) == (29nat, '/', 'g', 'S')) by { reveal_strlit("/api/v1/user/getActiveSession"); }
    assert(path_key("/api/v1/user/removeActiveSession"@) == (32nat, '/', 'r', 'i')) by { reveal_strlit("/api/v1/user/removeActiveSession"); }
    assert(path_key("/api/v1/user/telegram/getBotInfo"@) == (32nat, '/', 't', 'g')) by { reveal_strlit("/api/v1/user/telegram/getBotInfo"); }
    assert(path_key("/api/v1/user/knowledge/fetch"@) == (28nat, '/', 'k', '/')) by { reveal_strlit("/api/v1/user/knowledge/fetch"); }
    assert(path_key("/v1/development/update"@) == (22nat, '/', 'n', ' ')) by { reveal_strlit("/v1/development/update"); }
    assert(path_key(spec_route_path(a)) == path_key(spec_route_path(b)) ==> a == b);
}

/// The error names tell the errors apart: a transport failure is named as the
/// transport names it, a secret-store failure has one name whatever its
/// cause, and every other error a name of its own, which no transport
/// failure shares.
#[verifier::spinoff_prover]
pub proof fn law_client_error_names_distinct(a: BusinessClientError, b: BusinessClientError)
    ensures
        spec_client_error_name(a) == spec_client_error_name(b) ==> a == b || (
        a is SecretStore && b is SecretStore),
        a matches BusinessClientError::Transport(e) ==> spec_client_error_name(a)
            == spec_transport_error_name(e),
{
    assert(error_name_key("transport-invalid-request"@) == (25nat, 't', 'i')) by { reveal_strlit("transport-invalid-request"); }
    assert(error_name_key("transport-invalid-response"@) == (26nat, 't', 'i')) by { reveal_strlit("transport-invalid-response"); }
    assert(error_name_key("transport-unavailable"@) == (21nat, 't', 'u')) by { reveal_strlit("transport-unavailable"); }
    assert(error_name_key("transport-timeout"@) == (17nat, 't', 't')) by { reveal_strlit("transport-timeout"); }
    assert(error_name_key("transport-cancelled"@) == (19nat, 't', 'c')) by { reveal_strlit("transport-cancelled"); }
    assert(error_name_key("transport-dns-failure"@) == (21nat, 't', 'd')) by { reveal_strlit("transport-dns-failure"); }
    assert(error_name_key("transport-tls-failure"@) == (21nat, 't', 't')) by { reveal_strlit("transport-tls-failure"); }
    assert(error_name_key("transport-response-too-large"@) == (28nat, 't', 'r')) by { reveal_strlit("transport-response-too-large"); }
    assert(error_name_key("business-invalid-request"@) == (24nat, 'b', 'n')) by { reveal_strlit("business-invalid-request"); }
    assert(error_name_key("business-authentication-required"@) == (32nat, 'b', 'u')) by { reveal_strlit("business-authentication-required"); }
    assert(error_name_key("business-secret-store-failure"@) == (29nat, 'b', 'e')) by { reveal_strlit("business-secret-store-failure"); }
    assert(error_name_key("business-redirect-denied"@) == (24nat, 'b', 'e')) by { reveal_strlit("business-redirect-denied"); }
    assert(error_name_key("business-unauthorized"@) == (21nat, 'b', 'n')) by { reveal_strlit("business-unauthorized"); }
    assert(error_name_key("business-request-rejected"@) == (25nat, 'b', 'e')) by { reveal_strlit("business-request-rejected"); }
    assert(error_name_key("business-rate-limited"@) == (21nat, 'b', 'a')) by { reveal_strlit("business-rate-limited"); }
    assert(error_name_key("business-service-unavailable"@) == (28nat, 'b', 'e')) by { reveal_strlit("business-service-unavailable"); }
    assert(error_name_key("business-invalid-response"@) == (25nat, 'b', 'n')) by { reveal_strlit("business-invalid-response"); }
    assert(error_name_key(spec_client_error_name(a)) == error_name_key(spec_client_error_name(b))
        ==> a == b || (a is SecretStore && b is SecretStore));
}


/// Only signing in, registering, asking for a verification e-mail, resetting
/// a password, reading the configuration and checking for an update are sent
/// without the stored access token; every other command carries it.
pub proof fn law_anonymous_commands(c: BusinessCommand)
    ensures
        (spec_route_authentication(c) == BusinessAuthentication::Anonymous) == (c
            == BusinessCommand::Login || c == BusinessCommand::Register || c
            == BusinessCommand::SendEmailVerification || c == BusinessCommand::ResetPassword || c
            == BusinessCommand::Config || c == BusinessCommand::Update),
        spec_route_authentication(c) != BusinessAuthentication::Anonymous
            ==> spec_route_authentication(c) == BusinessAuthentication::RustToken,
{
}

/// A path under the signed-in user's part of the API, `/api/v1/user/`.
pub open spec fn user_route(path: Seq<char>) -> bool {
    path.len() >= 13 && path.subrange(0, 13) == "/api/v1/user/"@
}

/// Every command sent under `/api/v1/user/` carries the stored access token.
pub proof fn law_user_routes_carry_the_token(c: BusinessCommand)
    ensures
        user_route(spec_route_path(c)) ==> spec_route_authentication(c)
            == BusinessAuthentication::RustToken,
{
    let user = "/api/v1/user/"@;
    assert(user.len() == 13 && user[1] == 'a' && user[8] == 'u') by { reveal_strlit("/api/v1/user/"); }
    let path = spec_route_path(c);
    if user_route(path) && spec_route_authentication(c) != BusinessAuthentication::RustToken {
        assert(path[1] == user[1] && path[8] == user[8]) by {
            assert(path.subrange(0, 13)[1] == path[1]);
            assert(path.subrange(0, 13)[8] == path[8]);
        }
        if c == BusinessCommand::Login {
            assert(path[8] == 'p') by { reveal_strlit("/api/v1/passport/auth/login"); }
        } else if c == BusinessCommand::Register {
            assert(path[8] == 'p') by { reveal_strlit("/api/v1/passport/auth/register"); }
        } else if c == BusinessCommand::SendEmailVerification {
            assert(path[8] == 'p') by { reveal_strlit("/api/v1/passport/comm/sendEmailVerify"); }
        } else if c == BusinessCommand::ResetPassword {
            assert(path[8] == 'p') by { reveal_strlit("/api/v1/passport/auth/forget"); }
        } else if c == BusinessCommand::Config {
            assert(path[8] == 'g') by { reveal_strlit("/api/v1/guest/comm/config"); }
        } else {
            assert(path[1] == 'v') by { reveal_strlit("/v1/development/update"); }
        }
    }
}

} // verus!
