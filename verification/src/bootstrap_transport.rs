use vstd::prelude::*;

use crate::secret_store::{
    AuthenticationSecretState, SecretKey, SecretStorage, SecretStoreBackend, SecretStoreError,
    SecretValue, logs_out, reads_state, session_replaced, credential_replaced, SecretCall,
    logout_calls,
};
use crate::text::{
    append_ascii_char, append_text, bytes_equal, bytes_have_control_char, byte_is_alnum,
    has_control_char, is_alnum, utf8_bytes, lower_all, has_prefix, contains_byte, contains_seq,
    bytes_have_prefix, bytes_contain_byte, bytes_contain, lemma_utf8_bytes_injective,
};
use vstd::utf8::{is_ascii_chars, is_ascii_chars_encode_utf8};
use crate::secret_store::{zeroize_bytes, zeroize_string};

verus! {

pub const BOOTSTRAP_TRANSPORT_SCHEMA_VERSION: u16 = 1;
pub const MAX_BUSINESS_REQUEST_BYTES: usize = 1048576;
pub const MAX_BUSINESS_RESPONSE_BYTES: usize = 1048576;
pub const MAX_CONTENT_TYPE_BYTES: usize = 256;
pub const MAX_BUSINESS_PATH_BYTES: usize = 8192;
pub const MAX_SUBSCRIPTION_TARGET_BYTES: usize = 8192;
pub const MAX_QUERY_PARAMETERS: usize = 8;
pub const MAX_QUERY_PARAMETER_NAME_BYTES: usize = 64;

#[derive(Debug, Clone, Copy, PartialEq, Eq, Structural)]
pub enum BusinessCommand {
    Login,
    Register,
    SendEmailVerification,
    ResetPassword,
    Config,
    Subscription,
    Account,
    Notices,
    Plans,
    Orders,
    OrderDetail,
    PaymentMethods,
    CheckoutOrder,
    CancelOrder,
    CreateOrder,
    InvitationCenter,
    GenerateInvitationCode,
    Tickets,
    TicketDetail,
    CreateTicket,
    ReplyTicket,
    CloseTicket,
    ResetSubscription,
    GiftCardCheck,
    GiftCardRedeem,
    GiftCardHistory,
    CommissionConfig,
    WithdrawCommission,
    TransferCommission,
    ActiveSessions,
    RemoveActiveSession,
    TelegramBotInfo,
    KnowledgeFetch,
    Update,
}

/// The wire name of a command.
pub open spec fn spec_command_name(command: BusinessCommand) -> Seq<char> {
    match command {
        BusinessCommand::Login => "login"@,
        BusinessCommand::Register => "register"@,
        BusinessCommand::SendEmailVerification => "send_email_verification"@,
        BusinessCommand::ResetPassword => "reset_password"@,
        BusinessCommand::Config => "config"@,
        BusinessCommand::Subscription => "subscription"@,
        BusinessCommand::Account => "account"@,
        BusinessCommand::Notices => "notices"@,
        BusinessCommand::Plans => "plans"@,
        BusinessCommand::Orders => "orders"@,
        BusinessCommand::OrderDetail => "order_detail"@,
        BusinessCommand::PaymentMethods => "payment_methods"@,
        BusinessCommand::CheckoutOrder => "checkout_order"@,
        BusinessCommand::CancelOrder => "cancel_order"@,
        BusinessCommand::CreateOrder => "create_order"@,
        BusinessCommand::InvitationCenter => "invitation_center"@,
        BusinessCommand::GenerateInvitationCode => "generate_invitation_code"@,
        BusinessCommand::Tickets => "tickets"@,
        BusinessCommand::TicketDetail => "ticket_detail"@,
        BusinessCommand::CreateTicket => "create_ticket"@,
        BusinessCommand::ReplyTicket => "reply_ticket"@,
        BusinessCommand::CloseTicket => "close_ticket"@,
        BusinessCommand::ResetSubscription => "reset_subscription"@,
        BusinessCommand::GiftCardCheck => "gift_card_check"@,
        BusinessCommand::GiftCardRedeem => "gift_card_redeem"@,
        BusinessCommand::GiftCardHistory => "gift_card_history"@,
        BusinessCommand::CommissionConfig => "commission_config"@,
        BusinessCommand::WithdrawCommission => "withdraw_commission"@,
        BusinessCommand::TransferCommission => "transfer_commission"@,
        BusinessCommand::ActiveSessions => "active_sessions"@,
        BusinessCommand::RemoveActiveSession => "remove_active_session"@,
        BusinessCommand::TelegramBotInfo => "telegram_bot_info"@,
        BusinessCommand::KnowledgeFetch => "knowledge_fetch"@,
        BusinessCommand::Update => "update"@,
    }
}

/// The path a command is sent to.
pub open spec fn spec_route_path(command: BusinessCommand) -> Seq<char> {
    match command {
        BusinessCommand::Login => "/api/v1/passport/auth/login"@,
        BusinessCommand::Register => "/api/v1/passport/auth/register"@,
        BusinessCommand::SendEmailVerification => "/api/v1/passport/comm/sendEmailVerify"@,
        BusinessCommand::ResetPassword => "/api/v1/passport/auth/forget"@,
        BusinessCommand::Config => "/api/v1/guest/comm/config"@,
        BusinessCommand::Subscription => "/api/v1/user/getSubscribe"@,
        BusinessCommand::Account => "/api/v1/user/info"@,
        BusinessCommand::Notices => "/api/v1/user/notice/fetch"@,
        BusinessCommand::Plans => "/api/v1/user/plan/fetch"@,
        BusinessCommand::Orders => "/api/v1/user/order/fetch"@,
        BusinessCommand::OrderDetail => "/api/v1/user/order/detail"@,
        BusinessCommand::PaymentMethods => "/api/v1/user/order/getPaymentMethod"@,
        BusinessCommand::CheckoutOrder => "/api/v1/user/order/checkout"@,
        BusinessCommand::CancelOrder => "/api/v1/user/order/cancel"@,
        BusinessCommand::CreateOrder => "/api/v1/user/order/save"@,
        BusinessCommand::InvitationCenter => "/api/v1/user/invite/fetch"@,
        BusinessCommand::GenerateInvitationCode => "/api/v1/user/invite/save"@,
        BusinessCommand::Tickets => "/api/v1/user/ticket/fetch"@,
        BusinessCommand::TicketDetail => "/api/v1/user/ticket/fetch"@,
        BusinessCommand::CreateTicket => "/api/v1/user/ticket/save"@,
        BusinessCommand::ReplyTicket => "/api/v1/user/ticket/reply"@,
        BusinessCommand::CloseTicket => "/api/v1/user/ticket/close"@,
        BusinessCommand::ResetSubscription => "/api/v1/user/resetSecurity"@,
        BusinessCommand::GiftCardCheck => "/api/v1/user/gift-card/check"@,
        BusinessCommand::GiftCardRedeem => "/api/v1/user/gift-card/redeem"@,
        BusinessCommand::GiftCardHistory => "/api/v1/user/gift-card/history"@,
        BusinessCommand::CommissionConfig => "/api/v1/user/comm/config"@,
        BusinessCommand::WithdrawCommission => "/api/v1/user/ticket/withdraw"@,
        BusinessCommand::TransferCommission => "/api/v1/user/transfer"@,
        BusinessCommand::ActiveSessions => "/api/v1/user/getActiveSession"@,
        BusinessCommand::RemoveActiveSession => "/api/v1/user/removeActiveSession"@,
        BusinessCommand::TelegramBotInfo => "/api/v1/user/telegram/getBotInfo"@,
        BusinessCommand::KnowledgeFetch => "/api/v1/user/knowledge/fetch"@,
        BusinessCommand::Update => "/v1/development/update"@,
    }
}

/// The HTTP method of a command.
pub open spec fn spec_route_method(command: BusinessCommand) -> BusinessMethod {
    match command {
        BusinessCommand::Login
        | BusinessCommand::Register
        | BusinessCommand::SendEmailVerification
        | BusinessCommand::ResetPassword
        | BusinessCommand::CheckoutOrder
        | BusinessCommand::CancelOrder
        | BusinessCommand::CreateOrder
        | BusinessCommand::CreateTicket
        | BusinessCommand::ReplyTicket
        | BusinessCommand::CloseTicket
        | BusinessCommand::GiftCardCheck
        | BusinessCommand::GiftCardRedeem
        | BusinessCommand::WithdrawCommission
        | BusinessCommand::TransferCommission
        | BusinessCommand::RemoveActiveSession => BusinessMethod::Post,
        _ => BusinessMethod::Get,
    }
}

/// Whether a command is sent with the stored access token.
pub open spec fn spec_route_authentication(command: BusinessCommand) -> BusinessAuthentication {
    match command {
        BusinessCommand::Login
        | BusinessCommand::Register
        | BusinessCommand::SendEmailVerification
        | BusinessCommand::ResetPassword
        | BusinessCommand::Config
        | BusinessCommand::Update => BusinessAuthentication::Anonymous,
        _ => BusinessAuthentication::RustToken,
    }
}

impl BusinessCommand {
    pub const ALL: [BusinessCommand; 34] = [
        BusinessCommand::Login,
        BusinessCommand::Register,
        BusinessCommand::SendEmailVerification,
        BusinessCommand::ResetPassword,
        BusinessCommand::Config,
        BusinessCommand::Subscription,
        BusinessCommand::Account,
        BusinessCommand::Notices,
        BusinessCommand::Plans,
        BusinessCommand::Orders,
        BusinessCommand::OrderDetail,
        BusinessCommand::PaymentMethods,
        BusinessCommand::CheckoutOrder,
        BusinessCommand::CancelOrder,
        BusinessCommand::CreateOrder,
        BusinessCommand::InvitationCenter,
        BusinessCommand::GenerateInvitationCode,
        BusinessCommand::Tickets,
        BusinessCommand::TicketDetail,
        BusinessCommand::CreateTicket,
        BusinessCommand::ReplyTicket,
        BusinessCommand::CloseTicket,
        BusinessCommand::ResetSubscription,
        BusinessCommand::GiftCardCheck,
        BusinessCommand::GiftCardRedeem,
        BusinessCommand::GiftCardHistory,
        BusinessCommand::CommissionConfig,
        BusinessCommand::WithdrawCommission,
        BusinessCommand::TransferCommission,
        BusinessCommand::ActiveSessions,
        BusinessCommand::RemoveActiveSession,
        BusinessCommand::TelegramBotInfo,
        BusinessCommand::KnowledgeFetch,
        BusinessCommand::Update,
    ];

    pub fn as_str(self) -> (name: &'static str)
        ensures
            name@ == spec_command_name(self),
    {
        match self {
            BusinessCommand::Login => "login",
            BusinessCommand::Register => "register",
            BusinessCommand::SendEmailVerification => "send_email_verification",
            BusinessCommand::ResetPassword => "reset_password",
            BusinessCommand::Config => "config",
            BusinessCommand::Subscription => "subscription",
            BusinessCommand::Account => "account",
            BusinessCommand::Notices => "notices",
            BusinessCommand::Plans => "plans",
            BusinessCommand::Orders => "orders",
            BusinessCommand::OrderDetail => "order_detail",
            BusinessCommand::PaymentMethods => "payment_methods",
            BusinessCommand::CheckoutOrder => "checkout_order",
            BusinessCommand::CancelOrder => "cancel_order",
            BusinessCommand::CreateOrder => "create_order",
            BusinessCommand::InvitationCenter => "invitation_center",
            BusinessCommand::GenerateInvitationCode => "generate_invitation_code",
            BusinessCommand::Tickets => "tickets",
            BusinessCommand::TicketDetail => "ticket_detail",
            BusinessCommand::CreateTicket => "create_ticket",
            BusinessCommand::ReplyTicket => "reply_ticket",
            BusinessCommand::CloseTicket => "close_ticket",
            BusinessCommand::ResetSubscription => "reset_subscription",
            BusinessCommand::GiftCardCheck => "gift_card_check",
            BusinessCommand::GiftCardRedeem => "gift_card_redeem",
            BusinessCommand::GiftCardHistory => "gift_card_history",
            BusinessCommand::CommissionConfig => "commission_config",
            BusinessCommand::WithdrawCommission => "withdraw_commission",
            BusinessCommand::TransferCommission => "transfer_commission",
            BusinessCommand::ActiveSessions => "active_sessions",
            BusinessCommand::RemoveActiveSession => "remove_active_session",
            BusinessCommand::TelegramBotInfo => "telegram_bot_info",
            BusinessCommand::KnowledgeFetch => "knowledge_fetch",
            BusinessCommand::Update => "update",
        }
    }

    pub fn route(self) -> (route: BusinessRoute)
        ensures
            route.spec_command() == self,
            route.spec_method() == spec_route_method(self),
            route.spec_target() == BusinessTarget::BootstrapPrimaryApi,
            route.spec_path()@ == spec_route_path(self),
            route.spec_authentication() == spec_route_authentication(self),
            route.spec_content_type() is Some <==> spec_route_method(self) == BusinessMethod::Post,
            route.spec_content_type() matches Some(t) ==> t@ == "application/json"@,
    {
        match self {
            BusinessCommand::Login => BusinessRoute::post(
                self,
                "/api/v1/passport/auth/login",
                BusinessAuthentication::Anonymous,
            ),
            BusinessCommand::Register => BusinessRoute::post(
                self,
                "/api/v1/passport/auth/register",
                BusinessAuthentication::Anonymous,
            ),
            BusinessCommand::SendEmailVerification => BusinessRoute::post(
                self,
                "/api/v1/passport/comm/sendEmailVerify",
                BusinessAuthentication::Anonymous,
            ),
            BusinessCommand::ResetPassword => BusinessRoute::post(
                self,
                "/api/v1/passport/auth/forget",
                BusinessAuthentication::Anonymous,
            ),
            BusinessCommand::Config => BusinessRoute::get(
                self,
                "/api/v1/guest/comm/config",
                BusinessAuthentication::Anonymous,
            ),
            BusinessCommand::Subscription => BusinessRoute::get(
                self,
                "/api/v1/user/getSubscribe",
                BusinessAuthentication::RustToken,
            ),
            BusinessCommand::Account => BusinessRoute::get(
                self,
                "/api/v1/user/info",
                BusinessAuthentication::RustToken,
            ),
            BusinessCommand::Notices => BusinessRoute::get(
                self,
                "/api/v1/user/notice/fetch",
                BusinessAuthentication::RustToken,
            ),
            BusinessCommand::Plans => BusinessRoute::get(
                self,
                "/api/v1/user/plan/fetch",
                BusinessAuthentication::RustToken,
            ),
            BusinessCommand::Orders => BusinessRoute::get(
                self,
                "/api/v1/user/order/fetch",
                BusinessAuthentication::RustToken,
            ),
            BusinessCommand::OrderDetail => BusinessRoute::get(
                self,
                "/api/v1/user/order/detail",
                BusinessAuthentication::RustToken,
            ),
            BusinessCommand::PaymentMethods => BusinessRoute::get(
                self,
                "/api/v1/user/order/getPaymentMethod",
                BusinessAuthentication::RustToken,
            ),
            BusinessCommand::CheckoutOrder => BusinessRoute::post(
                self,
                "/api/v1/user/order/checkout",
                BusinessAuthentication::RustToken,
            ),
            BusinessCommand::CancelOrder => BusinessRoute::post(
                self,
                "/api/v1/user/order/cancel",
                BusinessAuthentication::RustToken,
            ),
            BusinessCommand::CreateOrder => BusinessRoute::post(
                self,
                "/api/v1/user/order/save",
                BusinessAuthentication::RustToken,
            ),
            BusinessCommand::InvitationCenter => BusinessRoute::get(
                self,
                "/api/v1/user/invite/fetch",
                BusinessAuthentication::RustToken,
            ),
            BusinessCommand::GenerateInvitationCode => BusinessRoute::get(
                self,
                "/api/v1/user/invite/save",
                BusinessAuthentication::RustToken,
            ),
            BusinessCommand::Tickets => BusinessRoute::get(
                self,
                "/api/v1/user/ticket/fetch",
                BusinessAuthentication::RustToken,
            ),
            BusinessCommand::TicketDetail => BusinessRoute::get(
                self,
                "/api/v1/user/ticket/fetch",
                BusinessAuthentication::RustToken,
            ),
            BusinessCommand::CreateTicket => BusinessRoute::post(
                self,
                "/api/v1/user/ticket/save",
                BusinessAuthentication::RustToken,
            ),
            BusinessCommand::ReplyTicket => BusinessRoute::post(
                self,
                "/api/v1/user/ticket/reply",
                BusinessAuthentication::RustToken,
            ),
            BusinessCommand::CloseTicket => BusinessRoute::post(
                self,
                "/api/v1/user/ticket/close",
                BusinessAuthentication::RustToken,
            ),
            BusinessCommand::ResetSubscription => BusinessRoute::get(
                self,
                "/api/v1/user/resetSecurity",
                BusinessAuthentication::RustToken,
            ),
            BusinessCommand::GiftCardCheck => BusinessRoute::post(
                self,
                "/api/v1/user/gift-card/check",
                BusinessAuthentication::RustToken,
            ),
            BusinessCommand::GiftCardRedeem => BusinessRoute::post(
                self,
                "/api/v1/user/gift-card/redeem",
                BusinessAuthentication::RustToken,
            ),
            BusinessCommand::GiftCardHistory => BusinessRoute::get(
                self,
                "/api/v1/user/gift-card/history",
                BusinessAuthentication::RustToken,
            ),
            BusinessCommand::CommissionConfig => BusinessRoute::get(
                self,
                "/api/v1/user/comm/config",
                BusinessAuthentication::RustToken,
            ),
            BusinessCommand::WithdrawCommission => BusinessRoute::post(
                self,
                "/api/v1/user/ticket/withdraw",
                BusinessAuthentication::RustToken,
            ),
            BusinessCommand::TransferCommission => BusinessRoute::post(
                self,
                "/api/v1/user/transfer",
                BusinessAuthentication::RustToken,
            ),
            BusinessCommand::ActiveSessions => BusinessRoute::get(
                self,
                "/api/v1/user/getActiveSession",
                BusinessAuthentication::RustToken,
            ),
            BusinessCommand::RemoveActiveSession => BusinessRoute::post(
                self,
                "/api/v1/user/removeActiveSession",
                BusinessAuthentication::RustToken,
            ),
            BusinessCommand::TelegramBotInfo => BusinessRoute::get(
                self,
                "/api/v1/user/telegram/getBotInfo",
                BusinessAuthentication::RustToken,
            ),
            BusinessCommand::KnowledgeFetch => BusinessRoute::get(
                self,
                "/api/v1/user/knowledge/fetch",
                BusinessAuthentication::RustToken,
            ),
            BusinessCommand::Update => BusinessRoute::get(
                self,
                "/v1/development/update",
                BusinessAuthentication::Anonymous,
            ),
        }
    }
}
#[derive(Debug, Clone, Copy, PartialEq, Eq, Structural)]
pub enum BusinessMethod {
    Get,
    Post,
}

impl BusinessMethod {
    pub fn as_str(self) -> (name: &'static str)
        ensures
            name@ == (match self {
                BusinessMethod::Get => "GET"@,
                BusinessMethod::Post => "POST"@,
            }),
    {
        match self {
            BusinessMethod::Get => "GET",
            BusinessMethod::Post => "POST",
        }
    }
}

#[derive(Debug, Clone, Copy, PartialEq, Eq, Structural)]
pub enum BusinessAuthentication {
    Anonymous,
    RustToken,
}

#[derive(Debug, Clone, Copy, PartialEq, Eq, Structural)]
pub enum BusinessTarget {
    BootstrapPrimaryApi,
}

impl BusinessAuthentication {
    pub fn as_str(self) -> (name: &'static str)
        ensures
            name@ == (match self {
                BusinessAuthentication::Anonymous => "none"@,
                BusinessAuthentication::RustToken => "rust_token"@,
            }),
    {
        match self {
            BusinessAuthentication::Anonymous => "none",
            BusinessAuthentication::RustToken => "rust_token",
        }
    }
}

#[derive(Debug, Clone, Copy)]
pub struct BusinessRoute {
    command: BusinessCommand,
    method: BusinessMethod,
    target: BusinessTarget,
    path: &'static str,
    authentication: BusinessAuthentication,
    content_type: Option<&'static str>,
}

impl BusinessRoute {
    pub closed spec fn spec_command(self) -> BusinessCommand {
        self.command
    }

    pub closed spec fn spec_method(self) -> BusinessMethod {
        self.method
    }

    pub closed spec fn spec_target(self) -> BusinessTarget {
        self.target
    }

    pub closed spec fn spec_path(self) -> &'static str {
        self.path
    }

    pub closed spec fn spec_authentication(self) -> BusinessAuthentication {
        self.authentication
    }

    pub closed spec fn spec_content_type(self) -> Option<&'static str> {
        self.content_type
    }

    fn get(
        command: BusinessCommand,
        path: &'static str,
        authentication: BusinessAuthentication,
    ) -> (route: Self)
        ensures
            route.command == command,
            route.method == BusinessMethod::Get,
            route.target == BusinessTarget::BootstrapPrimaryApi,
            route.path == path,
            route.authentication == authentication,
            route.content_type is None,
    {
        BusinessRoute {
            command,
            method: BusinessMethod::Get,
            target: BusinessTarget::BootstrapPrimaryApi,
            path,
            authentication,
            content_type: None,
        }
    }

    fn post(
        command: BusinessCommand,
        path: &'static str,
        authentication: BusinessAuthentication,
    ) -> (route: Self)
        ensures
            route.command == command,
            route.method == BusinessMethod::Post,
            route.target == BusinessTarget::BootstrapPrimaryApi,
            route.path == path,
            route.authentication == authentication,
            route.content_type matches Some(t) && t@ == "application/json"@,
    {
        BusinessRoute {
            command,
            method: BusinessMethod::Post,
            target: BusinessTarget::BootstrapPrimaryApi,
            path,
            authentication,
            content_type: Some("application/json"),
        }
    }

    pub fn command(self) -> (c: BusinessCommand)
        ensures
            c == self.spec_command(),
    {
        self.command
    }

    pub fn method(self) -> (m: BusinessMethod)
        ensures
            m == self.spec_method(),
    {
        self.method
    }

    pub fn target(self) -> (t: BusinessTarget)
        ensures
            t == self.spec_target(),
    {
        self.target
    }

    pub fn path(self) -> (p: &'static str)
        ensures
            p == self.spec_path(),
    {
        self.path
    }

    pub fn authentication(self) -> (a: BusinessAuthentication)
        ensures
            a == self.spec_authentication(),
    {
        self.authentication
    }

    pub fn content_type(self) -> (c: Option<&'static str>)
        ensures
            c == self.spec_content_type(),
    {
        self.content_type
    }
}

/// A name accepted as a query parameter: 1 to 64 ASCII letters, digits or `_`.
pub open spec fn valid_parameter_name(name: Seq<u8>) -> bool {
    &&& 1 <= name.len() <= MAX_QUERY_PARAMETER_NAME_BYTES
    &&& forall|i: int| 0 <= i < name.len() ==> is_alnum(name[i]) || name[i] == 95
}

/// The parameter list is accepted: 1 to 8 parameters with valid, distinct names.
pub open spec fn valid_parameter_list(names: Seq<Seq<u8>>) -> bool {
    &&& 1 <= names.len() <= MAX_QUERY_PARAMETERS
    &&& forall|i: int| 0 <= i < names.len() ==> valid_parameter_name(#[trigger] names[i])
    &&& forall|i: int, j: int| 0 <= j < i < names.len() ==> names[j] != names[i]
}

pub open spec fn parameter_names(parameters: Seq<(&str, &str)>) -> Seq<Seq<u8>> {
    Seq::new(parameters.len(), |i: int| utf8_bytes(parameters[i].0@))
}

/// `application/x-www-form-urlencoded` serialisation of one component, byte by byte:
/// ASCII letters, digits and `*-._` are kept, a space becomes `+`, and any other
/// byte becomes `%` followed by two upper-case hexadecimal digits.
pub open spec fn form_encoded_byte(b: u8) -> Seq<u8> {
    if is_alnum(b) || b == 42 || b == 45 || b == 46 || b == 95 {
        seq![b]
    } else if b == 32 {
        seq![43u8]
    } else {
        seq![37u8, upper_hex_digit(b / 16), upper_hex_digit(b % 16)]
    }
}

pub open spec fn upper_hex_digit(v: u8) -> u8 {
    if v < 10 {
        (48 + v) as u8
    } else {
        (55 + v) as u8
    }
}

pub open spec fn form_encoded(s: Seq<u8>) -> Seq<u8>
    decreases s.len(),
{
    if s.len() == 0 {
        seq![]
    } else {
        form_encoded(s.drop_last()) + form_encoded_byte(s.last())
    }
}

/// The form-encoded query for a parameter list: `name=value` pairs joined by `&`.
pub open spec fn form_query(parameters: Seq<(Seq<u8>, Seq<u8>)>) -> Seq<u8>
    decreases parameters.len(),
{
    if parameters.len() == 0 {
        seq![]
    } else {
        let last = parameters.last();
        let pair = form_encoded(last.0) + seq![61u8] + form_encoded(last.1);
        if parameters.len() == 1 {
            pair
        } else {
            form_query(parameters.drop_last()) + seq![38u8] + pair
        }
    }
}

pub open spec fn parameter_bytes(parameters: Seq<(&str, &str)>) -> Seq<(Seq<u8>, Seq<u8>)> {
    Seq::new(
        parameters.len(),
        |i: int| (utf8_bytes(parameters[i].0@), utf8_bytes(parameters[i].1@)),
    )
}

/// `url::form_urlencoded::byte_serialize` of one component.
#[verifier::external_body]
fn form_urlencode_component(text: &str) -> (encoded: String)
    ensures
        utf8_bytes(encoded@) == form_encoded(utf8_bytes(text@)),
{
    url::form_urlencoded::byte_serialize(text.as_bytes()).collect::<String>()
}

pub struct BusinessCommandRequest {
    command: BusinessCommand,
    path_and_query: String,
    body: Vec<u8>,
}

impl BusinessCommandRequest {
    pub closed spec fn spec_command(&self) -> BusinessCommand {
        self.command
    }

    /// The bytes of the path and query the request is sent to.
    pub closed spec fn spec_path_and_query(&self) -> Seq<u8> {
        utf8_bytes(self.path_and_query@)
    }

    pub closed spec fn spec_body(&self) -> Seq<u8> {
        self.body@
    }

    pub fn without_body(command: BusinessCommand) -> (r: Result<Self, BusinessClientError>)
        ensures
            r is Ok <==> spec_route_method(command) == BusinessMethod::Get,
            r matches Err(e) ==> e == BusinessClientError::InvalidRequest,
            r matches Ok(request) ==> request.spec_command() == command
                && request.spec_path_and_query() == utf8_bytes(spec_route_path(command))
                && request.spec_body().len() == 0,
    {
        if command.route().method() != BusinessMethod::Get {
            return Err(BusinessClientError::InvalidRequest);
        }
        Ok(BusinessCommandRequest {
            command,
            path_and_query: command.route().path().to_owned(),
            body: Vec::new(),
        })
    }

    pub fn with_query_parameter(command: BusinessCommand, name: &str, value: &str) -> (r: Result<
        Self,
        BusinessClientError,
    >)
        ensures
            Self::query_outcome(r, command, BusinessMethod::Get, seq![(name, value)]),
    {
        Self::query_parameter(command, BusinessMethod::Get, name, value)
    }

    pub fn post_with_query_parameter(command: BusinessCommand, name: &str, value: &str) -> (r:
        Result<Self, BusinessClientError>)
        ensures
            Self::query_outcome(r, command, BusinessMethod::Post, seq![(name, value)]),
    {
        Self::query_parameter(command, BusinessMethod::Post, name, value)
    }

    pub fn post_with_query_parameters(command: BusinessCommand, parameters: &[(&str, &str)]) -> (r:
        Result<Self, BusinessClientError>)
        ensures
            Self::query_outcome(r, command, BusinessMethod::Post, parameters@),
    {
        Self::query_parameters(command, BusinessMethod::Post, parameters)
    }

    /// The path and query of a request with parameters: the route's path, `?`, then the
    /// form-encoded parameters.
    pub open spec fn spec_query_path(command: BusinessCommand, parameters: Seq<(&str, &str)>) -> Seq<
        u8,
    > {
        utf8_bytes(spec_route_path(command)) + seq![63u8] + form_query(parameter_bytes(parameters))
    }

    /// Whether a request with parameters is accepted.
    pub open spec fn spec_query_accepted(
        command: BusinessCommand,
        expected_method: BusinessMethod,
        parameters: Seq<(&str, &str)>,
    ) -> bool {
        &&& spec_route_method(command) == expected_method
        &&& valid_parameter_list(parameter_names(parameters))
        &&& Self::spec_query_path(command, parameters).len() <= MAX_BUSINESS_PATH_BYTES
    }

    /// The outcome of building a request with parameters: it is built exactly when
    /// accepted, and then targets the route's path followed by the encoded query.
    pub open spec fn query_outcome(
        r: Result<Self, BusinessClientError>,
        command: BusinessCommand,
        expected_method: BusinessMethod,
        parameters: Seq<(&str, &str)>,
    ) -> bool {
        &&& r is Ok <==> Self::spec_query_accepted(command, expected_method, parameters)
        &&& r matches Err(e) ==> e == BusinessClientError::InvalidRequest
        &&& r matches Ok(request) ==> {
            &&& request.spec_command() == command
            &&& request.spec_path_and_query() == Self::spec_query_path(command, parameters)
            &&& request.spec_body().len() == 0
        }
    }

    fn query_parameter(
        command: BusinessCommand,
        expected_method: BusinessMethod,
        name: &str,
        value: &str,
    ) -> (r: Result<Self, BusinessClientError>)
        ensures
            Self::query_outcome(r, command, expected_method, seq![(name, value)]),
    {
        let parameters = [(name, value)];
        proof {
            assert(parameters@ =~= seq![(name, value)]);
        }
        Self::query_parameters(command, expected_method, &parameters)
    }

    fn query_parameters(
        command: BusinessCommand,
        expected_method: BusinessMethod,
        parameters: &[(&str, &str)],
    ) -> (r: Result<Self, BusinessClientError>)
        ensures
            Self::query_outcome(r, command, expected_method, parameters@),
    {
        let route = command.route();
        let ghost names = parameter_names(parameters@);
        if route.method() != expected_method || parameters.len() == 0 || parameters.len()
            > MAX_QUERY_PARAMETERS {
            return Err(BusinessClientError::InvalidRequest);
        }
        let mut index: usize = 0;
        while index < parameters.len()
            invariant
                names == parameter_names(parameters@),
                index <= parameters@.len(),
                forall|k: int| 0 <= k < index ==> valid_parameter_name(#[trigger] names[k]),
                forall|j: int, k: int| 0 <= j < k < index ==> names[j] != names[k],
            decreases parameters@.len() - index,
        {
            let name = parameters[index].0.as_bytes();
            if !valid_parameter_name_bytes(name) {
                assert(!valid_parameter_name(names[index as int]));
                return Err(BusinessClientError::InvalidRequest);
            }
            let mut previous: usize = 0;
            while previous < index
                invariant
                    names == parameter_names(parameters@),
                    index < parameters@.len(),
                    previous <= index,
                    name@ == names[index as int],
                    forall|j: int| 0 <= j < previous ==> names[j] != names[index as int],
                decreases index - previous,
            {
                if bytes_equal(parameters[previous].0.as_bytes(), name) {
                    assert(names[previous as int] == names[index as int]);
                    return Err(BusinessClientError::InvalidRequest);
                }
                previous += 1;
            }
            index += 1;
        }
        let ghost pairs = parameter_bytes(parameters@);
        let mut query = String::new();
        let mut i: usize = 0;
        while i < parameters.len()
            invariant
                pairs == parameter_bytes(parameters@),
                i <= parameters@.len(),
                utf8_bytes(query@) == form_query(pairs.subrange(0, i as int)),
            decreases parameters@.len() - i,
        {
            let ghost before = query@;
            if i > 0 {
                append_ascii_char(&mut query, '&');
            }
            let encoded_name = form_urlencode_component(parameters[i].0);
            append_text(&mut query, encoded_name.as_str());
            append_ascii_char(&mut query, '=');
            let encoded_value = form_urlencode_component(parameters[i].1);
            append_text(&mut query, encoded_value.as_str());
            proof {
                let prefix = pairs.subrange(0, i as int + 1);
                assert(prefix.drop_last() =~= pairs.subrange(0, i as int));
                assert(prefix.last() == pairs[i as int]);
                if i == 0 {
                    assert(utf8_bytes(before) =~= Seq::<u8>::empty());
                    assert(utf8_bytes(query@) =~= form_query(prefix));
                } else {
                    assert(utf8_bytes(query@) =~= form_query(prefix));
                }
            }
            i += 1;
        }
        proof {
            assert(pairs.subrange(0, parameters@.len() as int) =~= pairs);
        }
        let mut path_and_query = route.path().to_owned();
        let ghost path_bytes = utf8_bytes(path_and_query@);
        append_ascii_char(&mut path_and_query, '?');
        let ghost with_mark = utf8_bytes(path_and_query@);
        append_text(&mut path_and_query, query.as_str());
        proof {
            assert(path_bytes == utf8_bytes(spec_route_path(command)));
            assert(with_mark =~= path_bytes + seq![63u8]);
            assert(utf8_bytes(path_and_query@) =~= Self::spec_query_path(command, parameters@));
        }
        if path_and_query.as_str().as_bytes().len() > MAX_BUSINESS_PATH_BYTES {
            return Err(BusinessClientError::InvalidRequest);
        }
        Ok(BusinessCommandRequest { command, path_and_query, body: Vec::new() })
    }

    /// A request whose body is a JSON document already serialised by the caller.
    pub fn json(command: BusinessCommand, body: Vec<u8>) -> (r: Result<Self, BusinessClientError>)
        ensures
            r is Ok <==> spec_route_method(command) == BusinessMethod::Post && 1 <= body@.len()
                <= MAX_BUSINESS_REQUEST_BYTES,
            r matches Err(e) ==> e == BusinessClientError::InvalidRequest,
            r matches Ok(request) ==> request.spec_command() == command
                && request.spec_path_and_query() == utf8_bytes(spec_route_path(command))
                && request.spec_body() == body@,
    {
        let mut body = body;
        if command.route().method() != BusinessMethod::Post {
            zeroize_bytes(&mut body);
            return Err(BusinessClientError::InvalidRequest);
        }
        if body.len() == 0 || body.len() > MAX_BUSINESS_REQUEST_BYTES {
            zeroize_bytes(&mut body);
            return Err(BusinessClientError::InvalidRequest);
        }
        Ok(BusinessCommandRequest {
            command,
            path_and_query: command.route().path().to_owned(),
            body,
        })
    }

    pub fn command(&self) -> (c: BusinessCommand)
        ensures
            c == self.spec_command(),
    {
        self.command
    }

    /// The path and query, for the transport.
    pub fn path_and_query(&self) -> (p: &str)
        ensures
            utf8_bytes(p@) == self.spec_path_and_query(),
    {
        self.path_and_query.as_str()
    }

    /// The body, for the transport.
    pub fn body(&self) -> (b: &[u8])
        ensures
            b@ == self.spec_body(),
    {
        self.body.as_slice()
    }
}

pub fn valid_parameter_name_bytes(name: &[u8]) -> (r: bool)
    ensures
        r == valid_parameter_name(name@),
{
    if name.len() == 0 || name.len() > MAX_QUERY_PARAMETER_NAME_BYTES {
        return false;
    }
    let mut i: usize = 0;
    while i < name.len()
        invariant
            i <= name@.len(),
            forall|j: int| 0 <= j < i ==> is_alnum(name@[j]) || name@[j] == 95,
        decreases name@.len() - i,
    {
        if !(byte_is_alnum(name[i]) || name[i] == 95) {
            return false;
        }
        i += 1;
    }
    true
}

pub struct BootstrapTransportRequest<'a> {
    route: BusinessRoute,
    path_and_query: &'a str,
    body: &'a [u8],
    access_token: Option<&'a [u8]>,
}

impl<'a> BootstrapTransportRequest<'a> {
    pub closed spec fn spec_route(&self) -> BusinessRoute {
        self.route
    }

    pub closed spec fn spec_path_and_query(&self) -> Seq<u8> {
        utf8_bytes(self.path_and_query@)
    }

    pub closed spec fn spec_body(&self) -> Seq<u8> {
        self.body@
    }

    pub closed spec fn spec_access_token(&self) -> Option<Seq<u8>> {
        match self.access_token {
            Some(token) => Some(token@),
            None => None,
        }
    }

    pub fn route(&self) -> (r: BusinessRoute)
        ensures
            r == self.spec_route(),
    {
        self.route
    }

    pub fn path_and_query(&self) -> (p: &str)
        ensures
            utf8_bytes(p@) == self.spec_path_and_query(),
    {
        self.path_and_query
    }

    pub fn body(&self) -> (b: &[u8])
        ensures
            b@ == self.spec_body(),
    {
        self.body
    }

    pub fn access_token(&self) -> (t: Option<&[u8]>)
        ensures
            match t {
                Some(token) => self.spec_access_token() == Some(token@),
                None => self.spec_access_token() is None,
            },
    {
        self.access_token
    }
}

pub struct BootstrapSubscriptionRequest<'a> {
    host: &'a str,
    path_and_query: &'a str,
}

impl<'a> BootstrapSubscriptionRequest<'a> {
    pub closed spec fn spec_host(&self) -> Seq<char> {
        self.host@
    }

    pub closed spec fn spec_path_and_query(&self) -> Seq<char> {
        self.path_and_query@
    }

    pub fn host(&self) -> (h: &str)
        ensures
            h@ == self.spec_host(),
    {
        self.host
    }

    pub fn path_and_query(&self) -> (p: &str)
        ensures
            p@ == self.spec_path_and_query(),
    {
        self.path_and_query
    }
}

pub struct BootstrapTransportResponse {
    status_code: u16,
    content_type: String,
    body: Vec<u8>,
}

impl BootstrapTransportResponse {
    pub closed spec fn spec_status_code(&self) -> u16 {
        self.status_code
    }

    pub closed spec fn spec_content_type(&self) -> Seq<char> {
        self.content_type@
    }

    pub closed spec fn spec_body(&self) -> Seq<u8> {
        self.body@
    }

    /// A response is accepted when its status is 100..=599, its content type has at
    /// most 256 bytes and no control character, and its body at most 1 MiB.
    pub open spec fn accepted(status_code: u16, content_type: Seq<char>, body_len: nat) -> bool {
        &&& 100 <= status_code <= 599
        &&& utf8_bytes(content_type).len() <= MAX_CONTENT_TYPE_BYTES
        &&& !has_control_char(utf8_bytes(content_type))
        &&& body_len <= MAX_BUSINESS_RESPONSE_BYTES
    }

    pub fn new(status_code: u16, content_type: String, body: Vec<u8>) -> (r: Result<
        Self,
        BootstrapTransportError,
    >)
        ensures
            r is Ok <==> Self::accepted(status_code, content_type@, body@.len()),
            r matches Err(e) ==> e == BootstrapTransportError::InvalidResponse,
            r matches Ok(response) ==> response.spec_status_code() == status_code
                && response.spec_content_type() == content_type@ && response.spec_body()
                == body@,
    {
        let mut content_type = content_type;
        let mut body = body;
        if !(100 <= status_code && status_code <= 599) || content_type.as_str().as_bytes().len()
            > MAX_CONTENT_TYPE_BYTES || bytes_have_control_char(content_type.as_str().as_bytes())
            || body.len() > MAX_BUSINESS_RESPONSE_BYTES {
            zeroize_string(&mut content_type);
            zeroize_bytes(&mut body);
            return Err(BootstrapTransportError::InvalidResponse);
        }
        Ok(BootstrapTransportResponse { status_code, content_type, body })
    }
}

#[derive(Debug, Clone, Copy, PartialEq, Eq, Structural)]
pub enum BootstrapTransportError {
    InvalidRequest,
    InvalidResponse,
    Unavailable,
    Timeout,
    Cancelled,
    DnsFailure,
    TlsFailure,
    ResponseTooLarge,
}

pub open spec fn spec_transport_error_name(error: BootstrapTransportError) -> Seq<char> {
    match error {
        BootstrapTransportError::InvalidRequest => "transport-invalid-request"@,
        BootstrapTransportError::InvalidResponse => "transport-invalid-response"@,
        BootstrapTransportError::Unavailable => "transport-unavailable"@,
        BootstrapTransportError::Timeout => "transport-timeout"@,
        BootstrapTransportError::Cancelled => "transport-cancelled"@,
        BootstrapTransportError::DnsFailure => "transport-dns-failure"@,
        BootstrapTransportError::TlsFailure => "transport-tls-failure"@,
        BootstrapTransportError::ResponseTooLarge => "transport-response-too-large"@,
    }
}

impl BootstrapTransportError {
    pub fn as_str(self) -> (name: &'static str)
        ensures
            name@ == spec_transport_error_name(self),
    {
        match self {
            BootstrapTransportError::InvalidRequest => "transport-invalid-request",
            BootstrapTransportError::InvalidResponse => "transport-invalid-response",
            BootstrapTransportError::Unavailable => "transport-unavailable",
            BootstrapTransportError::Timeout => "transport-timeout",
            BootstrapTransportError::Cancelled => "transport-cancelled",
            BootstrapTransportError::DnsFailure => "transport-dns-failure",
            BootstrapTransportError::TlsFailure => "transport-tls-failure",
            BootstrapTransportError::ResponseTooLarge => "transport-response-too-large",
        }
    }
}

/// The network transport of a platform. Implemented by each platform, which
/// says, through `answers`, `allows` and `serves`, which answers its calls may
/// give; this crate relies on nothing else of an implementation.
pub trait BootstrapTransport: Send + Sync {
    /// `answer` is one that sending the route of `command` to `path_and_query`,
    /// with `body` and `access_token`, may give.
    spec fn answers(
        &self,
        command: BusinessCommand,
        path_and_query: Seq<u8>,
        body: Seq<u8>,
        access_token: Option<Seq<u8>>,
        answer: Result<BootstrapTransportResponse, BootstrapTransportError>,
    ) -> bool;

    /// `answer` is one that asking whether `host` may serve the control API
    /// may give.
    spec fn allows(&self, host: Seq<u8>, answer: Result<bool, BootstrapTransportError>) -> bool;

    /// `answer` is one that downloading `path_and_query` from `host` may give.
    spec fn serves(
        &self,
        host: Seq<u8>,
        path_and_query: Seq<u8>,
        answer: Result<BootstrapTransportResponse, BootstrapTransportError>,
    ) -> bool;

    fn wait_until_ready(&self) -> Result<(), BootstrapTransportError> {
        Ok(())
    }

    fn is_control_api_host_allowed(&self, host: &str) -> (r: Result<bool, BootstrapTransportError>)
        ensures
            self.allows(utf8_bytes(host@), r),
    ;

    fn execute(&self, request: BootstrapTransportRequest<'_>) -> (r: Result<
        BootstrapTransportResponse,
        BootstrapTransportError,
    >)
        ensures
            self.answers(
                request.spec_route().spec_command(),
                request.spec_path_and_query(),
                request.spec_body(),
                request.spec_access_token(),
                r,
            ),
    ;

    fn download_subscription(&self, request: BootstrapSubscriptionRequest<'_>) -> (r: Result<
        BootstrapTransportResponse,
        BootstrapTransportError,
    >)
        ensures
            self.serves(
                utf8_bytes(request.spec_host()),
                utf8_bytes(request.spec_path_and_query()),
                r,
            ),
    ;
}

/// What a command makes of the transport's answer: a transport failure, or
/// the response as `map_response` maps it.
pub open spec fn command_outcome(
    answer: Result<BootstrapTransportResponse, BootstrapTransportError>,
    r: Result<BusinessCommandResponse, BusinessClientError>,
) -> bool {
    match answer {
        Err(e) => r == Err::<BusinessCommandResponse, BusinessClientError>(
            BusinessClientError::Transport(e),
        ),
        Ok(response) => mapped_response(response, r),
    }
}

/// `r` is what `map_response` makes of `response`.
pub open spec fn mapped_response(
    response: BootstrapTransportResponse,
    r: Result<BusinessCommandResponse, BusinessClientError>,
) -> bool {
    match spec_status_outcome(response.spec_status_code()) {
        Ok(_) => r matches Ok(mapped) && mapped.spec_status_code() == response.spec_status_code()
            && mapped.spec_content_type() == response.spec_content_type() && mapped.spec_body()
            == response.spec_body(),
        Err(e) => r == Err::<BusinessCommandResponse, BusinessClientError>(e),
    }
}

pub struct BusinessCommandResponse {
    status_code: u16,
    content_type: String,
    body: Vec<u8>,
}

impl BusinessCommandResponse {
    pub closed spec fn spec_status_code(&self) -> u16 {
        self.status_code
    }

    pub closed spec fn spec_content_type(&self) -> Seq<char> {
        self.content_type@
    }

    pub closed spec fn spec_body(&self) -> Seq<u8> {
        self.body@
    }

    pub fn status_code(&self) -> (s: u16)
        ensures
            s == self.spec_status_code(),
    {
        self.status_code
    }

    pub fn content_type(&self) -> (c: &str)
        ensures
            c@ == self.spec_content_type(),
    {
        self.content_type.as_str()
    }

    pub fn body(&self) -> (b: &[u8])
        ensures
            b@ == self.spec_body(),
    {
        self.body.as_slice()
    }

    /// Moves the body out, leaving it empty.
    pub fn take_body(&mut self) -> (b: Vec<u8>)
        ensures
            b@ == old(self).spec_body(),
            final(self).spec_body() == Seq::<u8>::empty(),
            final(self).spec_status_code() == old(self).spec_status_code(),
            final(self).spec_content_type() == old(self).spec_content_type(),
    {
        let mut body: Vec<u8> = Vec::new();
        std::mem::swap(&mut body, &mut self.body);
        body
    }
}

#[derive(Debug, Clone, Copy, PartialEq, Eq, Structural)]
pub enum BusinessClientError {
    InvalidRequest,
    AuthenticationRequired,
    SecretStore(SecretStoreError),
    Transport(BootstrapTransportError),
    RedirectDenied,
    Unauthorized,
    RequestRejected,
    RateLimited,
    ServiceUnavailable,
    InvalidResponse,
}

/// The name of a client error.
pub open spec fn spec_client_error_name(error: BusinessClientError) -> Seq<char> {
    match error {
        BusinessClientError::InvalidRequest => "business-invalid-request"@,
        BusinessClientError::AuthenticationRequired => "business-authentication-required"@,
        BusinessClientError::SecretStore(_) => "business-secret-store-failure"@,
        BusinessClientError::Transport(error) => spec_transport_error_name(error),
        BusinessClientError::RedirectDenied => "business-redirect-denied"@,
        BusinessClientError::Unauthorized => "business-unauthorized"@,
        BusinessClientError::RequestRejected => "business-request-rejected"@,
        BusinessClientError::RateLimited => "business-rate-limited"@,
        BusinessClientError::ServiceUnavailable => "business-service-unavailable"@,
        BusinessClientError::InvalidResponse => "business-invalid-response"@,
    }
}

impl BusinessClientError {
    pub fn as_str(self) -> (name: &'static str)
        ensures
            name@ == spec_client_error_name(self),
    {
        match self {
            BusinessClientError::InvalidRequest => "business-invalid-request",
            BusinessClientError::AuthenticationRequired => "business-authentication-required",
            BusinessClientError::SecretStore(_) => "business-secret-store-failure",
            BusinessClientError::Transport(error) => error.as_str(),
            BusinessClientError::RedirectDenied => "business-redirect-denied",
            BusinessClientError::Unauthorized => "business-unauthorized",
            BusinessClientError::RequestRejected => "business-request-rejected",
            BusinessClientError::RateLimited => "business-rate-limited",
            BusinessClientError::ServiceUnavailable => "business-service-unavailable",
            BusinessClientError::InvalidResponse => "business-invalid-response",
        }
    }
}

/// How a transport status code is answered.
pub open spec fn spec_status_outcome(status_code: u16) -> Result<(), BusinessClientError> {
    if 200 <= status_code <= 299 {
        Ok(())
    } else if 300 <= status_code <= 399 {
        Err(BusinessClientError::RedirectDenied)
    } else if status_code == 401 || status_code == 403 {
        Err(BusinessClientError::Unauthorized)
    } else if status_code == 429 {
        Err(BusinessClientError::RateLimited)
    } else if 400 <= status_code <= 499 {
        Err(BusinessClientError::RequestRejected)
    } else if 500 <= status_code <= 599 {
        Err(BusinessClientError::ServiceUnavailable)
    } else {
        Err(BusinessClientError::InvalidResponse)
    }
}

/// Maps a transport response onto a command response: only a 2xx status passes,
/// carrying the content type and body unchanged.
pub fn map_response(response: BootstrapTransportResponse) -> (r: Result<
    BusinessCommandResponse,
    BusinessClientError,
>)
    ensures
        match spec_status_outcome(response.spec_status_code()) {
            Ok(_) => r matches Ok(mapped) && mapped.spec_status_code()
                == response.spec_status_code() && mapped.spec_content_type()
                == response.spec_content_type() && mapped.spec_body() == response.spec_body(),
            Err(e) => r == Err::<BusinessCommandResponse, BusinessClientError>(e),
        },
{
    let status = response.status_code;
    if 200 <= status && status <= 299 {
        Ok(BusinessCommandResponse {
            status_code: status,
            content_type: response.content_type,
            body: response.body,
        })
    } else if 300 <= status && status <= 399 {
        Err(BusinessClientError::RedirectDenied)
    } else if status == 401 || status == 403 {
        Err(BusinessClientError::Unauthorized)
    } else if status == 429 {
        Err(BusinessClientError::RateLimited)
    } else if 400 <= status && status <= 499 {
        Err(BusinessClientError::RequestRejected)
    } else if 500 <= status && status <= 599 {
        Err(BusinessClientError::ServiceUnavailable)
    } else {
        Err(BusinessClientError::InvalidResponse)
    }
}

/// The parts of a parsed URL that the validators read.
pub struct UrlParts {
    pub scheme: String,
    pub cannot_be_a_base: bool,
    pub username: String,
    pub has_password: bool,
    pub port_or_known_default: Option<u16>,
    pub host: Option<String>,
    pub path: String,
    pub query: Option<String>,
    pub fragment: Option<String>,
}

pub struct UrlPartsView {
    pub scheme: Seq<char>,
    pub cannot_be_a_base: bool,
    pub username: Seq<char>,
    pub has_password: bool,
    pub port_or_known_default: Option<u16>,
    pub host: Option<Seq<char>>,
    pub path: Seq<char>,
    pub query: Option<Seq<char>>,
    pub fragment: Option<Seq<char>>,
}

pub open spec fn option_text_view(text: Option<String>) -> Option<Seq<char>> {
    match text {
        Some(t) => Some(t@),
        None => None,
    }
}

impl View for UrlParts {
    type V = UrlPartsView;

    open spec fn view(&self) -> UrlPartsView {
        UrlPartsView {
            scheme: self.scheme@,
            cannot_be_a_base: self.cannot_be_a_base,
            username: self.username@,
            has_password: self.has_password,
            port_or_known_default: self.port_or_known_default,
            host: option_text_view(self.host),
            path: self.path@,
            query: option_text_view(self.query),
            fragment: option_text_view(self.fragment),
        }
    }
}

/// What `url::Url::parse` makes of a text: `None` where it refuses it.
pub uninterp spec fn url_parse(text: Seq<char>) -> Option<UrlPartsView>;

/// `url::Url::parse`, with the parsed URL read out through its accessors
/// (`scheme`, `cannot_be_a_base`, `username`, `password`, `port_or_known_default`,
/// `host_str`, `path`, `query`, `fragment`). The result is named by `url_parse`;
/// nothing is stated of how the parser normalises its input.
#[verifier::external_body]
pub(crate) fn parse_url(text: &str) -> (r: Option<UrlParts>)
    ensures
        match url_parse(text@) {
            Some(parts) => r matches Some(p) && p@ == parts,
            None => r is None,
        },
{
    match url::Url::parse(text) {
        Ok(url) => Some(UrlParts {
            scheme: url.scheme().to_owned(),
            cannot_be_a_base: url.cannot_be_a_base(),
            username: url.username().to_owned(),
            has_password: url.password().is_some(),
            port_or_known_default: url.port_or_known_default(),
            host: url.host_str().map(str::to_owned),
            path: url.path().to_owned(),
            query: url.query().map(str::to_owned),
            fragment: url.fragment().map(str::to_owned),
        }),
        Err(_) => None,
    }
}

/// `std::str::from_utf8`: succeeds exactly on valid UTF-8.
#[verifier::external_body]
pub(crate) fn str_from_utf8(bytes: &[u8]) -> (r: Option<&str>)
    ensures
        r is Some <==> vstd::utf8::valid_utf8(bytes@),
        r matches Some(text) ==> utf8_bytes(text@) == bytes@,
{
    std::str::from_utf8(bytes).ok()
}

/// `str::to_ascii_lowercase`: ASCII upper-case letters become lower-case, every
/// other byte is kept.
#[verifier::external_body]
pub(crate) fn str_to_ascii_lowercase(text: &str) -> (r: String)
    ensures
        utf8_bytes(r@) == lower_all(utf8_bytes(text@)),
{
    text.to_ascii_lowercase()
}

/// Where a subscription credential points: an allow-listed host and a path.
pub struct SubscriptionTarget {
    host: String,
    path_and_query: String,
}

impl SubscriptionTarget {
    pub closed spec fn spec_host(&self) -> Seq<u8> {
        utf8_bytes(self.host@)
    }

    pub closed spec fn spec_path_and_query(&self) -> Seq<u8> {
        utf8_bytes(self.path_and_query@)
    }

    pub fn host(&self) -> (h: &str)
        ensures
            utf8_bytes(h@) == self.spec_host(),
    {
        self.host.as_str()
    }

    pub fn path_and_query(&self) -> (p: &str)
        ensures
            utf8_bytes(p@) == self.spec_path_and_query(),
    {
        self.path_and_query.as_str()
    }
}

/// An HTTPS URL on the default port, with no credentials and no fragment.
pub open spec fn subscription_url_acceptable(url: UrlPartsView) -> bool {
    &&& url.scheme == "https"@
    &&& !url.cannot_be_a_base
    &&& url.username.len() == 0
    &&& !url.has_password
    &&& url.port_or_known_default == Some(443u16)
    &&& url.fragment is None
}

/// The path, followed by `?` and the query where there is one.
pub open spec fn url_path_and_query(url: UrlPartsView) -> Seq<u8> {
    match url.query {
        Some(query) => utf8_bytes(url.path) + seq![63u8] + utf8_bytes(query),
        None => utf8_bytes(url.path),
    }
}

/// A path that cannot leave the host: non-empty, at most 8 KiB, not starting with
/// `//`, and holding no `#`, no `://` and no control character.
pub open spec fn subscription_path_acceptable(path: Seq<u8>) -> bool {
    &&& 1 <= path.len() <= MAX_SUBSCRIPTION_TARGET_BYTES
    &&& !has_prefix(path, seq![47u8, 47u8])
    &&& !contains_byte(path, 35u8)
    &&& !contains_seq(path, seq![58u8, 47u8, 47u8])
    &&& !has_control_char(path)
}

/// Turns a parsed subscription URL into a download target, or refuses it.
pub fn subscription_target_from_url(url: &UrlParts) -> (r: Result<
    SubscriptionTarget,
    BusinessClientError,
>)
    ensures
        r is Ok <==> subscription_url_acceptable(url@) && url@.host is Some
            && subscription_path_acceptable(url_path_and_query(url@)),
        r matches Err(e) ==> e == BusinessClientError::InvalidRequest,
        r matches Ok(target) ==> target.spec_host() == lower_all(utf8_bytes(url@.host->0))
            && target.spec_path_and_query() == url_path_and_query(url@),
{
    proof {
        reveal_strlit("https");
    }
    let https = url.scheme.as_str().as_bytes();
    let scheme_ok = https.len() == 5 && https[0] == 104 && https[1] == 116 && https[2] == 116
        && https[3] == 112 && https[4] == 115;
    proof {
        let h = "https"@;
        if scheme_ok {
            assert(utf8_bytes(url.scheme@) =~= utf8_bytes(h)) by {
                assert(is_ascii_chars(h));
                is_ascii_chars_encode_utf8(h);
            }
            lemma_utf8_bytes_injective(url.scheme@, h);
        }
        if url.scheme@ == h {
            assert(is_ascii_chars(h));
            is_ascii_chars_encode_utf8(h);
        }
    }
    let username_empty = url.username.as_str().as_bytes().len() == 0;
    proof {
        if username_empty {
            lemma_utf8_bytes_injective(url.username@, Seq::<char>::empty());
        }
    }
    let valid = scheme_ok && !url.cannot_be_a_base && username_empty && !url.has_password
        && url.port_or_known_default == Some(443u16) && url.fragment.is_none();
    if !valid {
        return Err(BusinessClientError::InvalidRequest);
    }
    let mut path_and_query = url.path.clone();
    match &url.query {
        Some(query) => {
            append_ascii_char(&mut path_and_query, '?');
            append_text(&mut path_and_query, query.as_str());
        },
        None => {},
    }
    assert(utf8_bytes(path_and_query@) =~= url_path_and_query(url@));
    let host = match &url.host {
        Some(host) => str_to_ascii_lowercase(host.as_str()),
        None => {
            zeroize_string(&mut path_and_query);
            return Err(BusinessClientError::InvalidRequest);
        },
    };
    let path = path_and_query.as_str().as_bytes();
    if path.len() == 0 || path.len() > MAX_SUBSCRIPTION_TARGET_BYTES || bytes_have_prefix(
        path,
        &[47u8, 47u8],
    ) || bytes_contain_byte(path, 35u8) || bytes_contain(path, &[58u8, 47u8, 47u8])
        || bytes_have_control_char(path) {
        zeroize_string(&mut path_and_query);
        return Err(BusinessClientError::InvalidRequest);
    }
    Ok(SubscriptionTarget { host, path_and_query })
}

/// Reads a subscription credential (a URL) as a download target.
pub fn parse_subscription_target(bytes: &[u8]) -> (r: Result<
    SubscriptionTarget,
    BusinessClientError,
>)
    ensures
        !vstd::utf8::valid_utf8(bytes@) ==> r == Err::<SubscriptionTarget, BusinessClientError>(
            BusinessClientError::InvalidRequest,
        ),
        vstd::utf8::valid_utf8(bytes@) ==> match url_parse(vstd::utf8::decode_utf8(bytes@)) {
            None => r == Err::<SubscriptionTarget, BusinessClientError>(
                BusinessClientError::InvalidRequest,
            ),
            Some(url) => (r is Ok <==> subscription_url_acceptable(url) && url.host is Some
                && subscription_path_acceptable(url_path_and_query(url))) && (r matches Ok(
                target,
            ) ==> target.spec_host() == lower_all(utf8_bytes(url.host->0))
                && target.spec_path_and_query() == url_path_and_query(url)),
        },
        r matches Err(e) ==> e == BusinessClientError::InvalidRequest,
        target_parsed(bytes@, r),
{
    let text = match str_from_utf8(bytes) {
        Some(text) => text,
        None => return Err(BusinessClientError::InvalidRequest),
    };
    proof {
        vstd::utf8::encode_utf8_decode_utf8(text@);
    }
    let url = match parse_url(text) {
        Some(url) => url,
        None => return Err(BusinessClientError::InvalidRequest),
    };
    subscription_target_from_url(&url)
}

pub struct BusinessCommandClient<T, B> {
    transport: T,
    secrets: SecretStorage<B>,
    sent: Ghost<Seq<BusinessCommand>>,
}

/// The target that a subscription credential names, as host and path with
/// query: `None` where `parse_subscription_target` refuses it.
pub open spec fn spec_subscription_target(bytes: Seq<u8>) -> Option<(Seq<u8>, Seq<u8>)> {
    if !vstd::utf8::valid_utf8(bytes) {
        None
    } else {
        match url_parse(vstd::utf8::decode_utf8(bytes)) {
            None => None,
            Some(url) => if subscription_url_acceptable(url) && url.host is Some
                && subscription_path_acceptable(url_path_and_query(url)) {
                Some((lower_all(utf8_bytes(url.host->0)), url_path_and_query(url)))
            } else {
                None
            },
        }
    }
}

/// `r` is what `parse_subscription_target` gives for `bytes`.
pub open spec fn target_parsed(bytes: Seq<u8>, r: Result<SubscriptionTarget, BusinessClientError>) -> bool {
    match spec_subscription_target(bytes) {
        Some((host, path_and_query)) => r matches Ok(target) && target.spec_host() == host
            && target.spec_path_and_query() == path_and_query,
        None => r == Err::<SubscriptionTarget, BusinessClientError>(
            BusinessClientError::InvalidRequest,
        ),
    }
}

/// A session state read through the client: a store failure becomes a
/// secret-store error.
pub open spec fn client_state(r: Result<AuthenticationSecretState, SecretStoreError>) -> Result<
    AuthenticationSecretState,
    BusinessClientError,
> {
    match r {
        Ok(state) => Ok(state),
        Err(e) => Err(BusinessClientError::SecretStore(e)),
    }
}

/// What downloading from a parsed target ends in: the host check, then the
/// download, then the status of its response.
pub open spec fn download_outcome<T: BootstrapTransport>(
    transport: T,
    host: Seq<u8>,
    path_and_query: Seq<u8>,
    r: Result<Vec<u8>, BusinessClientError>,
) -> bool {
    exists|allowed: Result<bool, BootstrapTransportError>|
        #[trigger] transport.allows(host, allowed) && match allowed {
            Err(e) => r == Err::<Vec<u8>, BusinessClientError>(BusinessClientError::Transport(e)),
            Ok(false) => r == Err::<Vec<u8>, BusinessClientError>(
                BusinessClientError::InvalidRequest,
            ),
            Ok(true) => exists|answer: Result<BootstrapTransportResponse, BootstrapTransportError>|
                #[trigger] transport.serves(host, path_and_query, answer) && match answer {
                    Err(e) => r == Err::<Vec<u8>, BusinessClientError>(
                        BusinessClientError::Transport(e),
                    ),
                    Ok(response) => match spec_status_outcome(response.spec_status_code()) {
                        Ok(_) => r matches Ok(body) && body@ == response.spec_body(),
                        Err(e) => r == Err::<Vec<u8>, BusinessClientError>(e),
                    },
                },
        }
}

/// The transport answered with a status that means the session is not
/// accepted.
pub open spec fn answer_unauthorized(answer: Result<BootstrapTransportResponse, BootstrapTransportError>) -> bool {
    answer matches Ok(response) && spec_status_outcome(response.spec_status_code()) == Err::<
        (),
        BusinessClientError,
    >(BusinessClientError::Unauthorized)
}

/// Whether a command on a token route that loaded `token` and ended in `r`
/// logged out: only when the token was there, the command was sent, and its
/// answer refused the session.
pub open spec fn logged_out_after(
    token: Result<Option<Seq<u8>>, SecretStoreError>,
    r: Result<BusinessCommandResponse, BusinessClientError>,
) -> bool {
    &&& token matches Ok(Some(_))
    &&& (r == Err::<BusinessCommandResponse, BusinessClientError>(BusinessClientError::Unauthorized)
        || r matches Err(BusinessClientError::SecretStore(_)))
}

/// What a command on a route that carries the stored access token ends in,
/// once the transport answered: an `Unauthorized` answer also logs out.
pub open spec fn token_command_outcome<B: SecretStoreBackend>(
    backend: B,
    answer: Result<BootstrapTransportResponse, BootstrapTransportError>,
    r: Result<BusinessCommandResponse, BusinessClientError>,
) -> bool {
    match answer {
        Ok(response) => if spec_status_outcome(response.spec_status_code()) == Err::<
            (),
            BusinessClientError,
        >(BusinessClientError::Unauthorized) {
            exists|cleared: Result<(), SecretStoreError>|
                #[trigger] logs_out(backend, cleared) && match cleared {
                    Ok(_) => r == Err::<BusinessCommandResponse, BusinessClientError>(
                        BusinessClientError::Unauthorized,
                    ),
                    Err(e) => r == Err::<BusinessCommandResponse, BusinessClientError>(
                        BusinessClientError::SecretStore(e),
                    ),
                }
        } else {
            command_outcome(answer, r)
        },
        Err(_) => command_outcome(answer, r),
    }
}

/// What a command on a route that carries the stored access token ends in,
/// given what loading the token gave: a store failure, no session, or the
/// command sent with that token and its answer handled.
pub open spec fn token_route_outcome<T: BootstrapTransport, B: SecretStoreBackend>(
    transport: T,
    backend: B,
    request: BusinessCommandRequest,
    token: Result<Option<Seq<u8>>, SecretStoreError>,
    r: Result<BusinessCommandResponse, BusinessClientError>,
) -> bool {
    match token {
        Err(e) => r == Err::<BusinessCommandResponse, BusinessClientError>(
            BusinessClientError::SecretStore(e),
        ),
        Ok(None) => r == Err::<BusinessCommandResponse, BusinessClientError>(
            BusinessClientError::AuthenticationRequired,
        ),
        Ok(Some(t)) => token_answered(transport, backend, request, t, r),
    }
}

/// The command was sent with the access token `t`, and its answer handled.
pub open spec fn token_answered<T: BootstrapTransport, B: SecretStoreBackend>(
    transport: T,
    backend: B,
    request: BusinessCommandRequest,
    t: Seq<u8>,
    r: Result<BusinessCommandResponse, BusinessClientError>,
) -> bool {
    exists|answer: Result<BootstrapTransportResponse, BootstrapTransportError>|
        #[trigger] transport.answers(
            request.spec_command(),
            request.spec_path_and_query(),
            request.spec_body(),
            Some(t),
            answer,
        ) && token_command_outcome(backend, answer, r)
}

impl<T: BootstrapTransport, B: SecretStoreBackend> BusinessCommandClient<T, B> {
    pub fn new(transport: T, secret_backend: B) -> (client: Self)
        ensures
            client.spec_transport() == transport,
            client.spec_secrets().backend() == secret_backend,
            client.spec_secrets().calls() == Seq::<SecretCall>::empty(),
            client.spec_sent() == Seq::<BusinessCommand>::empty(),
    {
        BusinessCommandClient {
            transport,
            secrets: SecretStorage::new(secret_backend),
            sent: Ghost(Seq::empty()),
        }
    }

    /// The commands handed to the transport so far, in order.
    pub closed spec fn spec_sent(&self) -> Seq<BusinessCommand> {
        self.sent@
    }

    /// `after` is `before` with the same transport and secret backend.
    pub open spec fn same_parts(before: Self, after: Self) -> bool {
        &&& after.spec_transport() == before.spec_transport()
        &&& after.spec_secrets().backend() == before.spec_secrets().backend()
    }

    /// The platform transport the client sends through.
    pub closed spec fn spec_transport(&self) -> T {
        self.transport
    }

    /// The secret storage the client keeps the session in.
    pub closed spec fn spec_secrets(&self) -> SecretStorage<B> {
        self.secrets
    }

    /// Hands the request to the transport: its route, path and query and body,
    /// with the given access token.
    fn send(&mut self, request: &BusinessCommandRequest, access_token: Option<SecretValue>) -> (r: Result<
        BootstrapTransportResponse,
        BootstrapTransportError,
    >)
        ensures
            Self::same_parts(*old(self), *final(self)),
            old(self).spec_transport().answers(
                request.spec_command(),
                request.spec_path_and_query(),
                request.spec_body(),
                match access_token {
                    Some(token) => Some(token@),
                    None => None,
                },
                r,
            ),
            final(self).spec_secrets() == old(self).spec_secrets(),
            final(self).spec_sent() == old(self).spec_sent().push(request.spec_command()),
    {
        proof {
            self.sent@ = self.sent@.push(request.spec_command());
        }
        let route = request.command.route();
        match access_token {
            Some(token) => self.transport.execute(
                BootstrapTransportRequest {
                    route,
                    path_and_query: request.path_and_query.as_str(),
                    body: request.body.as_slice(),
                    access_token: Some(token.bytes_ref()),
                },
            ),
            None => self.transport.execute(
                BootstrapTransportRequest {
                    route,
                    path_and_query: request.path_and_query.as_str(),
                    body: request.body.as_slice(),
                    access_token: None,
                },
            ),
        }
    }

    /// Sends a command, with the stored access token exactly where its route
    /// asks for one, through one transport call. Only a 2xx response comes back
    /// as `Ok`; an authenticated command answered with 401 or 403 also clears
    /// the stored session.
    /// What executing `request` through `before` may end in, with `after` the
    /// client after the call: the stored token is loaded only on a route that
    /// carries it, the transport is asked only when a token was found or none
    /// is needed, and the session is deleted only when a token route's answer
    /// refused the session.
    pub open spec fn executed(
        before: Self,
        after: Self,
        request: BusinessCommandRequest,
        r: Result<BusinessCommandResponse, BusinessClientError>,
    ) -> bool {
    &&& Self::same_parts(before, after)
    &&& r matches Ok(response) ==> 200 <= response.spec_status_code() <= 299
    &&& spec_route_authentication(request.spec_command()) == BusinessAuthentication::Anonymous
        ==> exists|answer: Result<BootstrapTransportResponse, BootstrapTransportError>|
        #[trigger] before.spec_transport().answers(
            request.spec_command(),
            request.spec_path_and_query(),
            request.spec_body(),
            None,
            answer,
        ) && command_outcome(answer, r)
    &&& spec_route_authentication(request.spec_command()) == BusinessAuthentication::RustToken
        ==> exists|token: Result<Option<Seq<u8>>, SecretStoreError>|
        #[trigger] before.spec_secrets().backend().loads(SecretKey::AccessToken, token)
            && token_route_outcome(
            before.spec_transport(),
            before.spec_secrets().backend(),
            request,
            token,
            r,
        ) && after.spec_sent() == (if token matches Ok(Some(_)) {
            before.spec_sent().push(request.spec_command())
        } else {
            before.spec_sent()
        }) && after.spec_secrets().calls() == before.spec_secrets().calls().push(
            SecretCall::Load(SecretKey::AccessToken),
        ) + if logged_out_after(token, r) {
            logout_calls()
        } else {
            Seq::<SecretCall>::empty()
        }
    &&& spec_route_authentication(request.spec_command()) == BusinessAuthentication::Anonymous
        ==> after.spec_secrets().calls() == before.spec_secrets().calls()
        && after.spec_sent() == before.spec_sent().push(request.spec_command())
    }

    pub fn execute(&mut self, request: BusinessCommandRequest) -> (r: Result<
        BusinessCommandResponse,
        BusinessClientError,
    >)
        ensures
            Self::executed(*old(self), *final(self), request, r),
    {
        let route = request.command.route();
        match route.authentication() {
            BusinessAuthentication::Anonymous => {
                let sent = self.send(&request, None);
                let ghost answer = sent;
                let result = self.finish(sent, false);
                assert(self.spec_transport().answers(
                    request.spec_command(),
                    request.spec_path_and_query(),
                    request.spec_body(),
                    None,
                    answer,
                ));
                result
            },
            BusinessAuthentication::RustToken => {
                let token = self.secrets.load(SecretKey::AccessToken);
                let ghost loaded = crate::secret_store::loaded_view(token);
                assert(self.spec_secrets().backend().loads(SecretKey::AccessToken, loaded));
                match token {
                    Ok(Some(token)) => {
                        let ghost t = token@;
                        let sent = self.send(&request, Some(token));
                        let ghost answer = sent;
                        assert(self.spec_transport().answers(
                            request.spec_command(),
                            request.spec_path_and_query(),
                            request.spec_body(),
                            Some(t),
                            answer,
                        ));
                        let result = self.finish(sent, true);
                        assert(loaded == Ok::<Option<Seq<u8>>, SecretStoreError>(Some(t)));
                        assert(logged_out_after(loaded, result) == answer_unauthorized(answer));
                        assert(token_answered(
                            self.spec_transport(),
                            self.spec_secrets().backend(),
                            request,
                            t,
                            result,
                        ));
                        assert(self.spec_sent() == old(self).spec_sent().push(request.spec_command()));
                        assert(self.spec_secrets().calls() == old(self).spec_secrets().calls().push(
                            SecretCall::Load(SecretKey::AccessToken),
                        ) + if logged_out_after(loaded, result) {
                            logout_calls()
                        } else {
                            Seq::<SecretCall>::empty()
                        });
                        result
                    },
                    Ok(None) => {
                        let result = Err(BusinessClientError::AuthenticationRequired);
                        assert(self.spec_secrets().calls() =~= old(self).spec_secrets().calls().push(
                            SecretCall::Load(SecretKey::AccessToken),
                        ) + Seq::<SecretCall>::empty());
                        assert(token_route_outcome(
                            self.spec_transport(),
                            self.spec_secrets().backend(),
                            request,
                            loaded,
                            result,
                        ));
                        result
                    },
                    Err(error) => {
                        let result = Err(BusinessClientError::SecretStore(error));
                        assert(self.spec_secrets().calls() =~= old(self).spec_secrets().calls().push(
                            SecretCall::Load(SecretKey::AccessToken),
                        ) + Seq::<SecretCall>::empty());
                        assert(token_route_outcome(
                            self.spec_transport(),
                            self.spec_secrets().backend(),
                            request,
                            loaded,
                            result,
                        ));
                        result
                    },
                }
            },
        }
    }

    /// Makes the command's result of the transport's answer; on a route that
    /// carries the stored token, an `Unauthorized` answer also logs out.
    fn finish(
        &mut self,
        sent: Result<BootstrapTransportResponse, BootstrapTransportError>,
        token_route: bool,
    ) -> (r: Result<BusinessCommandResponse, BusinessClientError>)
        ensures
            Self::same_parts(*old(self), *final(self)),
            r matches Ok(response) ==> 200 <= response.spec_status_code() <= 299,
            token_route ==> token_command_outcome(old(self).spec_secrets().backend(), sent, r),
            !token_route ==> command_outcome(sent, r),
            final(self).spec_sent() == old(self).spec_sent(),
            final(self).spec_secrets().calls() == old(self).spec_secrets().calls() + if token_route
                && answer_unauthorized(sent) {
                logout_calls()
            } else {
                Seq::<SecretCall>::empty()
            },
    {
        let ghost answer = sent;
        let response = match sent {
            Ok(response) => response,
            Err(error) => return Err(BusinessClientError::Transport(error)),
        };
        let result = map_response(response);
        if token_route {
            if let Err(BusinessClientError::Unauthorized) = result {
                assert(answer_unauthorized(answer));
                let cleared = self.secrets.logout();
                assert(logs_out(self.spec_secrets().backend(), cleared));
                match cleared {
                    Ok(()) => {},
                    Err(error) => return Err(BusinessClientError::SecretStore(error)),
                }
            }
        }
        result
    }

    /// Waits for the transport; its failure is reported as a transport error.
    pub fn wait_until_ready(&self) -> (r: Result<(), BusinessClientError>)
        ensures
            r matches Err(e) ==> e is Transport,
    {
        match self.transport.wait_until_ready() {
            Ok(()) => Ok(()),
            Err(error) => Err(BusinessClientError::Transport(error)),
        }
    }

    /// The state of the stored session, as `SecretStorage::authentication_state`
    /// gives it; a store failure is reported as a secret-store error.
    pub fn authentication_state(&mut self) -> (r: Result<AuthenticationSecretState, BusinessClientError>)
        ensures
            Self::same_parts(*old(self), *final(self)),
            final(self).spec_sent() == old(self).spec_sent(),
            exists|read: Result<AuthenticationSecretState, SecretStoreError>|
                #[trigger] reads_state(old(self).spec_secrets().backend(), read) && r == client_state(read),
    {
        let read = self.secrets.authentication_state();
        assert(reads_state(old(self).spec_secrets().backend(), read));
        match read {
            Ok(state) => Ok(state),
            Err(error) => Err(BusinessClientError::SecretStore(error)),
        }
    }

    /// Asks the transport whether `host` may serve the control API; its failure
    /// is reported as a transport error.
    pub fn is_control_api_host_allowed(&self, host: &str) -> (r: Result<bool, BusinessClientError>)
        ensures
            exists|answer: Result<bool, BootstrapTransportError>|
                #[trigger] self.spec_transport().allows(utf8_bytes(host@), answer) && r == match answer {
                    Ok(allowed) => Ok::<bool, BusinessClientError>(allowed),
                    Err(e) => Err(BusinessClientError::Transport(e)),
                },
    {
        let answer = self.transport.is_control_api_host_allowed(host);
        assert(self.spec_transport().allows(utf8_bytes(host@), answer));
        match answer {
            Ok(allowed) => Ok(allowed),
            Err(error) => Err(BusinessClientError::Transport(error)),
        }
    }

    /// Downloads the subscription from the URL held as the stored credential:
    /// the URL must be a valid subscription target, and the transport must
    /// allow its host before the download is asked for.
    pub fn download_subscription(&mut self) -> (r: Result<Vec<u8>, BusinessClientError>)
        ensures
            Self::same_parts(*old(self), *final(self)),
            final(self).spec_sent() == old(self).spec_sent(),
            exists|credential: Result<Option<Seq<u8>>, SecretStoreError>|
                #[trigger] old(self).spec_secrets().backend().loads(
                    SecretKey::SubscriptionCredential,
                    credential,
                ) && match credential {
                    Err(e) => r == Err::<Vec<u8>, BusinessClientError>(
                        BusinessClientError::SecretStore(e),
                    ),
                    Ok(None) => r == Err::<Vec<u8>, BusinessClientError>(
                        BusinessClientError::AuthenticationRequired,
                    ),
                    Ok(Some(bytes)) => match spec_subscription_target(bytes) {
                        None => r == Err::<Vec<u8>, BusinessClientError>(
                            BusinessClientError::InvalidRequest,
                        ),
                        Some((host, path_and_query)) => download_outcome(
                            old(self).spec_transport(),
                            host,
                            path_and_query,
                            r,
                        ),
                    },
                },
    {
        let loaded = self.secrets.load(SecretKey::SubscriptionCredential);
        let ghost credential_view = crate::secret_store::loaded_view(loaded);
        assert(old(self).spec_secrets().backend().loads(
            SecretKey::SubscriptionCredential,
            credential_view,
        ));
        let credential = match loaded {
            Ok(Some(credential)) => credential,
            Ok(None) => return Err(BusinessClientError::AuthenticationRequired),
            Err(error) => return Err(BusinessClientError::SecretStore(error)),
        };
        let target = parse_subscription_target(credential.bytes_ref());
        let target = match target {
            Ok(target) => target,
            Err(error) => return Err(error),
        };
        let allowed = self.transport.is_control_api_host_allowed(target.host.as_str());
        match allowed {
            Ok(true) => {},
            Ok(false) => return Err(BusinessClientError::InvalidRequest),
            Err(error) => return Err(BusinessClientError::Transport(error)),
        }
        let response = self.transport.download_subscription(
            BootstrapSubscriptionRequest {
                host: target.host.as_str(),
                path_and_query: target.path_and_query.as_str(),
            },
        );
        let response = match response {
            Ok(response) => response,
            Err(error) => return Err(BusinessClientError::Transport(error)),
        };
        let mut response = match map_response(response) {
            Ok(response) => response,
            Err(error) => return Err(error),
        };
        Ok(response.take_body())
    }

    /// Stores a new session through the secret storage; a store failure is
    /// reported as a secret-store error. The inputs are erased whatever the
    /// outcome.
    pub fn replace_authentication(
        &mut self,
        access: &mut SecretValue,
        refresh: &mut SecretValue,
    ) -> (r: Result<(), BusinessClientError>)
        ensures
            Self::same_parts(*old(self), *final(self)),
            final(self).spec_sent() == old(self).spec_sent(),
            final(access)@ == Seq::<u8>::empty(),
            final(refresh)@ == Seq::<u8>::empty(),
            r is Ok ==> old(self).spec_secrets().backend().stores(
                SecretKey::AccessToken,
                old(access)@,
                Ok(()),
            ) && old(self).spec_secrets().backend().stores(
                SecretKey::RefreshToken,
                old(refresh)@,
                Ok(()),
            ) && old(self).spec_secrets().backend().deletes(SecretKey::SubscriptionCredential, Ok(())),
            exists|stored: Result<(), SecretStoreError>|
                #[trigger] session_replaced(
                    old(self).spec_secrets().backend(),
                    old(access)@,
                    old(refresh)@,
                    stored,
                ) && r == store_outcome(stored),
    {
        let ghost access0 = access@;
        let ghost refresh0 = refresh@;
        let stored = self.secrets.replace_authentication(access, refresh);
        proof {
            crate::secret_store::lemma_unit_answer(stored);
        }
        assert(session_replaced(old(self).spec_secrets().backend(), access0, refresh0, stored));
        match stored {
            Ok(()) => Ok(()),
            Err(error) => Err(BusinessClientError::SecretStore(error)),
        }
    }

    /// Removes every user secret; a store failure is reported as a
    /// secret-store error.
    pub fn clear_authentication(&mut self) -> (r: Result<(), BusinessClientError>)
        ensures
            Self::same_parts(*old(self), *final(self)),
            exists|cleared: Result<(), SecretStoreError>|
                #[trigger] logs_out(old(self).spec_secrets().backend(), cleared) && r == store_outcome(
                    cleared,
                ),
            final(self).spec_secrets().calls() == old(self).spec_secrets().calls() + logout_calls(),
            final(self).spec_sent() == old(self).spec_sent(),
    {
        let cleared = self.secrets.logout();
        proof {
            crate::secret_store::lemma_unit_answer(cleared);
        }
        assert(logs_out(old(self).spec_secrets().backend(), cleared));
        match cleared {
            Ok(()) => Ok(()),
            Err(error) => Err(BusinessClientError::SecretStore(error)),
        }
    }

    /// Stores a new subscription credential through the secret storage; a
    /// store failure is reported as a secret-store error. The input is erased
    /// whatever the outcome.
    pub fn replace_subscription_credential(&mut self, credential: &mut SecretValue) -> (r: Result<
        (),
        BusinessClientError,
    >)
        ensures
            Self::same_parts(*old(self), *final(self)),
            final(self).spec_sent() == old(self).spec_sent(),
            final(credential)@ == Seq::<u8>::empty(),
            r is Ok ==> old(self).spec_secrets().backend().stores(
                SecretKey::SubscriptionCredential,
                old(credential)@,
                Ok(()),
            ),
            exists|stored: Result<(), SecretStoreError>|
                #[trigger] credential_replaced(old(self).spec_secrets().backend(), old(credential)@, stored)
                    && r == store_outcome(stored),
    {
        let ghost value0 = credential@;
        let stored = self.secrets.replace_subscription_credential(credential);
        proof {
            crate::secret_store::lemma_unit_answer(stored);
        }
        assert(credential_replaced(old(self).spec_secrets().backend(), value0, stored));
        match stored {
            Ok(()) => Ok(()),
            Err(error) => Err(BusinessClientError::SecretStore(error)),
        }
    }

    /// Removes the subscription credential; a store failure is reported as a
    /// secret-store error.
    pub fn clear_subscription_credential(&mut self) -> (r: Result<(), BusinessClientError>)
        ensures
            Self::same_parts(*old(self), *final(self)),
            exists|cleared: Result<(), SecretStoreError>|
                #[trigger] old(self).spec_secrets().backend().deletes(
                    SecretKey::SubscriptionCredential,
                    cleared,
                ) && r == store_outcome(cleared),
            final(self).spec_secrets().calls() == old(self).spec_secrets().calls().push(
                SecretCall::Delete(SecretKey::SubscriptionCredential),
            ),
            final(self).spec_sent() == old(self).spec_sent(),
    {
        let cleared = self.secrets.clear_subscription_credential();
        proof {
            crate::secret_store::lemma_unit_answer(cleared);
        }
        assert(old(self).spec_secrets().backend().deletes(SecretKey::SubscriptionCredential, cleared));
        match cleared {
            Ok(()) => Ok(()),
            Err(error) => Err(BusinessClientError::SecretStore(error)),
        }
    }
}

/// A secret-store answer as the client reports it.
pub open spec fn store_outcome(answer: Result<(), SecretStoreError>) -> Result<(), BusinessClientError> {
    match answer {
        Ok(_) => Ok(()),
        Err(e) => Err(BusinessClientError::SecretStore(e)),
    }
}

} // verus!
