//! Error types of the library and how they convert into one another.
use vstd::prelude::*;
use vstd::std_specs::convert::FromSpecImpl;
use crate::text::owned;

verus! {

/// The application-wide error: every module's error converts into it.
#[derive(Debug, Clone)]
pub enum AppError {
    WebSocketError(String),
    ConnectionError(String),
    ConnectionFailed(String),
    ConnectionLost(String),
    InitializationFailed(String),
    DisconnectionFailed(String),
    NetworkError(String),
    TimeoutError(String),
    RateLimitExceeded(String),
    AuthenticationFailed(String),
    InvalidCredentials(String),
    CryptoError(String),
    TradingError(String),
    OrderPlacementFailed(String),
    OrderCancellationFailed(String),
    InsufficientBalance(String),
    InvalidOrderParameters(String),
    RiskError(String),
    PositionLimitExceeded(String),
    OrderSizeLimitExceeded(String),
    ExposureLimitExceeded(String),
    DataParsingError(String),
    InvalidResponse(String),
    MissingPriceData(String),
    SerializationError(String),
    ParseError(String),
    SubscriptionError(String),
    SubscriptionFailed(String),
    InvalidSymbol(String),
    ExchangeNotFound(String),
    ServiceUnavailable(String),
    ConfigError(String),
    IoError(String),
    RequestError(String),
    CsvError(String),
    PositionNotFound(String),
    InvalidPositionData(String),
    SyncError(String),
    CalculationError(String),
    RoutingError(String),
    TradingNotImplemented,
    InternalError(String),
    Other(String),
}

/// Errors of the exchange connectors.
#[derive(Debug, Clone)]
pub enum ConnectorError {
    ConnectionError(String),
    ConnectionFailed(String),
    ConnectionLost(String),
    WebSocketError(String),
    InitializationFailed(String),
    DisconnectionFailed(String),
    AuthenticationFailed(String),
    InvalidCredentials(String),
    SubscriptionError(String),
    SubscriptionFailed(String),
    InvalidSymbol(String),
    TradingError(String),
    OrderPlacementFailed(String),
    OrderCancellationFailed(String),
    InsufficientBalance(String),
    InvalidOrderParameters(String),
    DataParsingError(String),
    InvalidResponse(String),
    NetworkError(String),
    TimeoutError(String),
    RateLimitExceeded(String),
    ExchangeNotFound(String),
    ServiceUnavailable(String),
    InternalError(String),
    TradingNotImplemented,
}

/// Errors of order execution.
#[derive(Debug, Clone)]
pub enum ExecutionError {
    ConnectorError(ConnectorError),
    RoutingError(String),
    RiskCheckFailed(String),
    PositionError(String),
    InternalError(String),
}

/// Errors of risk management.
#[derive(Debug, Clone)]
pub enum RiskError {
    PositionLimitExceeded(String),
    OrderSizeLimitExceeded(String),
    ExposureLimitExceeded(String),
    InvalidRiskParameters(String),
    InternalError(String),
}

/// Errors of position management.
#[derive(Debug, Clone)]
pub enum PositionError {
    PositionNotFound(String),
    InvalidPositionData(String),
    SyncError(String),
    CalculationError(String),
    InternalError(String),
}

/// The human-readable text of a connector error: a fixed prefix naming the kind, then the detail.
pub open spec fn spec_connector_error_text(e: ConnectorError) -> Seq<char> {
    match e {
        ConnectorError::ConnectionError(m) => "Connection error: "@ + m@,
        ConnectorError::ConnectionFailed(m) => "Connection failed: "@ + m@,
        ConnectorError::ConnectionLost(m) => "Connection lost: "@ + m@,
        ConnectorError::WebSocketError(m) => "WebSocket error: "@ + m@,
        ConnectorError::InitializationFailed(m) => "Initialization failed: "@ + m@,
        ConnectorError::DisconnectionFailed(m) => "Disconnection failed: "@ + m@,
        ConnectorError::AuthenticationFailed(m) => "Authentication failed: "@ + m@,
        ConnectorError::InvalidCredentials(m) => "Invalid credentials: "@ + m@,
        ConnectorError::SubscriptionError(m) => "Subscription error: "@ + m@,
        ConnectorError::SubscriptionFailed(m) => "Subscription failed: "@ + m@,
        ConnectorError::InvalidSymbol(m) => "Invalid symbol: "@ + m@,
        ConnectorError::TradingError(m) => "Trading error: "@ + m@,
        ConnectorError::OrderPlacementFailed(m) => "Order placement failed: "@ + m@,
        ConnectorError::OrderCancellationFailed(m) => "Order cancellation failed: "@ + m@,
        ConnectorError::InsufficientBalance(m) => "Insufficient balance: "@ + m@,
        ConnectorError::InvalidOrderParameters(m) => "Invalid order parameters: "@ + m@,
        ConnectorError::DataParsingError(m) => "Data parsing error: "@ + m@,
        ConnectorError::InvalidResponse(m) => "Invalid response: "@ + m@,
        ConnectorError::NetworkError(m) => "Network error: "@ + m@,
        ConnectorError::TimeoutError(m) => "Timeout error: "@ + m@,
        ConnectorError::RateLimitExceeded(m) => "Rate limit exceeded: "@ + m@,
        ConnectorError::ExchangeNotFound(m) => "Exchange not found: "@ + m@,
        ConnectorError::ServiceUnavailable(m) => "Service unavailable: "@ + m@,
        ConnectorError::InternalError(m) => "Internal error: "@ + m@,
        ConnectorError::TradingNotImplemented => "Trading functionality not implemented"@,
    }
}

impl ConnectorError {
    /// The human-readable text of this error.
    pub fn message(&self) -> (r: String)
        ensures
            r@ == spec_connector_error_text(*self),
    {
        match self {
            ConnectorError::ConnectionError(m) => owned("Connection error: ").concat(m.as_str()),
            ConnectorError::ConnectionFailed(m) => owned("Connection failed: ").concat(m.as_str()),
            ConnectorError::ConnectionLost(m) => owned("Connection lost: ").concat(m.as_str()),
            ConnectorError::WebSocketError(m) => owned("WebSocket error: ").concat(m.as_str()),
            ConnectorError::InitializationFailed(m) => owned("Initialization failed: ").concat(m.as_str()),
            ConnectorError::DisconnectionFailed(m) => owned("Disconnection failed: ").concat(m.as_str()),
            ConnectorError::AuthenticationFailed(m) => owned("Authentication failed: ").concat(m.as_str()),
            ConnectorError::InvalidCredentials(m) => owned("Invalid credentials: ").concat(m.as_str()),
            ConnectorError::SubscriptionError(m) => owned("Subscription error: ").concat(m.as_str()),
            ConnectorError::SubscriptionFailed(m) => owned("Subscription failed: ").concat(m.as_str()),
            ConnectorError::InvalidSymbol(m) => owned("Invalid symbol: ").concat(m.as_str()),
            ConnectorError::TradingError(m) => owned("Trading error: ").concat(m.as_str()),
            ConnectorError::OrderPlacementFailed(m) => owned("Order placement failed: ").concat(m.as_str()),
            ConnectorError::OrderCancellationFailed(m) => owned("Order cancellation failed: ").concat(m.as_str()),
            ConnectorError::InsufficientBalance(m) => owned("Insufficient balance: ").concat(m.as_str()),
            ConnectorError::InvalidOrderParameters(m) => owned("Invalid order parameters: ").concat(m.as_str()),
            ConnectorError::DataParsingError(m) => owned("Data parsing error: ").concat(m.as_str()),
            ConnectorError::InvalidResponse(m) => owned("Invalid response: ").concat(m.as_str()),
            ConnectorError::NetworkError(m) => owned("Network error: ").concat(m.as_str()),
            ConnectorError::TimeoutError(m) => owned("Timeout error: ").concat(m.as_str()),
            ConnectorError::RateLimitExceeded(m) => owned("Rate limit exceeded: ").concat(m.as_str()),
            ConnectorError::ExchangeNotFound(m) => owned("Exchange not found: ").concat(m.as_str()),
            ConnectorError::ServiceUnavailable(m) => owned("Service unavailable: ").concat(m.as_str()),
            ConnectorError::InternalError(m) => owned("Internal error: ").concat(m.as_str()),
            ConnectorError::TradingNotImplemented => owned("Trading functionality not implemented"),
        }
    }
}

/// The application error that a connector error becomes: the variant of the same name, with the same detail.
pub open spec fn spec_app_error_of_connector(e: ConnectorError) -> AppError {
    match e {
        ConnectorError::ConnectionError(m) => AppError::ConnectionError(m),
        ConnectorError::ConnectionFailed(m) => AppError::ConnectionFailed(m),
        ConnectorError::ConnectionLost(m) => AppError::ConnectionLost(m),
        ConnectorError::WebSocketError(m) => AppError::WebSocketError(m),
        ConnectorError::InitializationFailed(m) => AppError::InitializationFailed(m),
        ConnectorError::DisconnectionFailed(m) => AppError::DisconnectionFailed(m),
        ConnectorError::AuthenticationFailed(m) => AppError::AuthenticationFailed(m),
        ConnectorError::InvalidCredentials(m) => AppError::InvalidCredentials(m),
        ConnectorError::SubscriptionError(m) => AppError::SubscriptionError(m),
        ConnectorError::SubscriptionFailed(m) => AppError::SubscriptionFailed(m),
        ConnectorError::InvalidSymbol(m) => AppError::InvalidSymbol(m),
        ConnectorError::TradingError(m) => AppError::TradingError(m),
        ConnectorError::OrderPlacementFailed(m) => AppError::OrderPlacementFailed(m),
        ConnectorError::OrderCancellationFailed(m) => AppError::OrderCancellationFailed(m),
        ConnectorError::InsufficientBalance(m) => AppError::InsufficientBalance(m),
        ConnectorError::InvalidOrderParameters(m) => AppError::InvalidOrderParameters(m),
        ConnectorError::DataParsingError(m) => AppError::DataParsingError(m),
        ConnectorError::InvalidResponse(m) => AppError::InvalidResponse(m),
        ConnectorError::NetworkError(m) => AppError::NetworkError(m),
        ConnectorError::TimeoutError(m) => AppError::TimeoutError(m),
        ConnectorError::RateLimitExceeded(m) => AppError::RateLimitExceeded(m),
        ConnectorError::ExchangeNotFound(m) => AppError::ExchangeNotFound(m),
        ConnectorError::ServiceUnavailable(m) => AppError::ServiceUnavailable(m),
        ConnectorError::InternalError(m) => AppError::InternalError(m),
        ConnectorError::TradingNotImplemented => AppError::TradingNotImplemented,
    }
}

/// The application error that an execution error becomes.
pub open spec fn spec_app_error_of_execution(e: ExecutionError) -> AppError {
    match e {
        ExecutionError::ConnectorError(c) => spec_app_error_of_connector(c),
        ExecutionError::RoutingError(m) => AppError::RoutingError(m),
        ExecutionError::RiskCheckFailed(m) => AppError::RiskError(m),
        ExecutionError::PositionError(m) => AppError::InvalidPositionData(m),
        ExecutionError::InternalError(m) => AppError::InternalError(m),
    }
}

/// The application error that a risk error becomes.
pub open spec fn spec_app_error_of_risk(e: RiskError) -> AppError {
    match e {
        RiskError::PositionLimitExceeded(m) => AppError::PositionLimitExceeded(m),
        RiskError::OrderSizeLimitExceeded(m) => AppError::OrderSizeLimitExceeded(m),
        RiskError::ExposureLimitExceeded(m) => AppError::ExposureLimitExceeded(m),
        RiskError::InvalidRiskParameters(m) => AppError::RiskError(m),
        RiskError::InternalError(m) => AppError::InternalError(m),
    }
}

/// The application error that a position error becomes.
pub open spec fn spec_app_error_of_position(e: PositionError) -> AppError {
    match e {
        PositionError::PositionNotFound(m) => AppError::PositionNotFound(m),
        PositionError::InvalidPositionData(m) => AppError::InvalidPositionData(m),
        PositionError::SyncError(m) => AppError::SyncError(m),
        PositionError::CalculationError(m) => AppError::CalculationError(m),
        PositionError::InternalError(m) => AppError::InternalError(m),
    }
}

impl From<ConnectorError> for AppError {
    fn from(err: ConnectorError) -> (r: AppError) {
        match err {
            ConnectorError::ConnectionError(m) => AppError::ConnectionError(m),
            ConnectorError::ConnectionFailed(m) => AppError::ConnectionFailed(m),
            ConnectorError::ConnectionLost(m) => AppError::ConnectionLost(m),
            ConnectorError::WebSocketError(m) => AppError::WebSocketError(m),
            ConnectorError::InitializationFailed(m) => AppError::InitializationFailed(m),
            ConnectorError::DisconnectionFailed(m) => AppError::DisconnectionFailed(m),
            ConnectorError::AuthenticationFailed(m) => AppError::AuthenticationFailed(m),
            ConnectorError::InvalidCredentials(m) => AppError::InvalidCredentials(m),
            ConnectorError::SubscriptionError(m) => AppError::SubscriptionError(m),
            ConnectorError::SubscriptionFailed(m) => AppError::SubscriptionFailed(m),
            ConnectorError::InvalidSymbol(m) => AppError::InvalidSymbol(m),
            ConnectorError::TradingError(m) => AppError::TradingError(m),
            ConnectorError::OrderPlacementFailed(m) => AppError::OrderPlacementFailed(m),
            ConnectorError::OrderCancellationFailed(m) => AppError::OrderCancellationFailed(m),
            ConnectorError::InsufficientBalance(m) => AppError::InsufficientBalance(m),
            ConnectorError::InvalidOrderParameters(m) => AppError::InvalidOrderParameters(m),
            ConnectorError::DataParsingError(m) => AppError::DataParsingError(m),
            ConnectorError::InvalidResponse(m) => AppError::InvalidResponse(m),
            ConnectorError::NetworkError(m) => AppError::NetworkError(m),
            ConnectorError::TimeoutError(m) => AppError::TimeoutError(m),
            ConnectorError::RateLimitExceeded(m) => AppError::RateLimitExceeded(m),
            ConnectorError::ExchangeNotFound(m) => AppError::ExchangeNotFound(m),
            ConnectorError::ServiceUnavailable(m) => AppError::ServiceUnavailable(m),
            ConnectorError::InternalError(m) => AppError::InternalError(m),
            ConnectorError::TradingNotImplemented => AppError::TradingNotImplemented,
        }
    }
}

impl FromSpecImpl<ConnectorError> for AppError {
    open spec fn obeys_from_spec() -> bool {
        true
    }

    open spec fn from_spec(v: ConnectorError) -> AppError {
        spec_app_error_of_connector(v)
    }
}

impl From<ExecutionError> for AppError {
    fn from(err: ExecutionError) -> (r: AppError) {
        match err {
            ExecutionError::ConnectorError(c) => AppError::from(c),
            ExecutionError::RoutingError(m) => AppError::RoutingError(m),
            ExecutionError::RiskCheckFailed(m) => AppError::RiskError(m),
            ExecutionError::PositionError(m) => AppError::InvalidPositionData(m),
            ExecutionError::InternalError(m) => AppError::InternalError(m),
        }
    }
}

impl FromSpecImpl<ExecutionError> for AppError {
    open spec fn obeys_from_spec() -> bool {
        true
    }

    open spec fn from_spec(v: ExecutionError) -> AppError {
        spec_app_error_of_execution(v)
    }
}

impl From<RiskError> for AppError {
    fn from(err: RiskError) -> (r: AppError) {
        match err {
            RiskError::PositionLimitExceeded(m) => AppError::PositionLimitExceeded(m),
            RiskError::OrderSizeLimitExceeded(m) => AppError::OrderSizeLimitExceeded(m),
            RiskError::ExposureLimitExceeded(m) => AppError::ExposureLimitExceeded(m),
            RiskError::InvalidRiskParameters(m) => AppError::RiskError(m),
            RiskError::InternalError(m) => AppError::InternalError(m),
        }
    }
}

impl FromSpecImpl<RiskError> for AppError {
    open spec fn obeys_from_spec() -> bool {
        true
    }

    open spec fn from_spec(v: RiskError) -> AppError {
        spec_app_error_of_risk(v)
    }
}

impl From<PositionError> for AppError {
    fn from(err: PositionError) -> (r: AppError) {
        match err {
            PositionError::PositionNotFound(m) => AppError::PositionNotFound(m),
            PositionError::InvalidPositionData(m) => AppError::InvalidPositionData(m),
            PositionError::SyncError(m) => AppError::SyncError(m),
            PositionError::CalculationError(m) => AppError::CalculationError(m),
            PositionError::InternalError(m) => AppError::InternalError(m),
        }
    }
}

impl FromSpecImpl<PositionError> for AppError {
    open spec fn obeys_from_spec() -> bool {
        true
    }

    open spec fn from_spec(v: PositionError) -> AppError {
        spec_app_error_of_position(v)
    }
}

} // verus!
