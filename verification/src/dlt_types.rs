use vstd::prelude::*;
use libc::c_int;

verus! {

/// Largest value of a 16-bit unsigned quantity: the bound of a message's length field.
pub const UINT16_MAX: u16 = 65535;

/// Outcome of a DLT operation: failures are negative, `DLT_RETURN_OK` is zero and `DLT_RETURN_TRUE` is one.
#[derive(Clone, Copy, Debug, PartialEq, Eq, Structural)]
pub enum DltReturnValue {
    DLT_RETURN_LOGGING_DISABLED,
    DLT_RETURN_USER_BUFFER_FULL,
    DLT_RETURN_WRONG_PARAMETER,
    DLT_RETURN_BUFFER_FULL,
    DLT_RETURN_PIPE_FULL,
    DLT_RETURN_PIPE_ERROR,
    DLT_RETURN_ERROR,
    DLT_RETURN_OK,
    DLT_RETURN_TRUE,
}

impl DltReturnValue {
    /// The number that stands for the variant in messages and towards foreign callers.
    pub open spec fn code(self) -> int {
        match self {
            DltReturnValue::DLT_RETURN_LOGGING_DISABLED => -7,
            DltReturnValue::DLT_RETURN_USER_BUFFER_FULL => -6,
            DltReturnValue::DLT_RETURN_WRONG_PARAMETER => -5,
            DltReturnValue::DLT_RETURN_BUFFER_FULL => -4,
            DltReturnValue::DLT_RETURN_PIPE_FULL => -3,
            DltReturnValue::DLT_RETURN_PIPE_ERROR => -2,
            DltReturnValue::DLT_RETURN_ERROR => -1,
            DltReturnValue::DLT_RETURN_OK => 0,
            DltReturnValue::DLT_RETURN_TRUE => 1,
        }
    }
}

impl From<DltReturnValue> for c_int {
    fn from(return_value: DltReturnValue) -> (code: c_int)
        ensures
            code == return_value.code(),
    {
        match return_value {
            DltReturnValue::DLT_RETURN_LOGGING_DISABLED => -7,
            DltReturnValue::DLT_RETURN_USER_BUFFER_FULL => -6,
            DltReturnValue::DLT_RETURN_WRONG_PARAMETER => -5,
            DltReturnValue::DLT_RETURN_BUFFER_FULL => -4,
            DltReturnValue::DLT_RETURN_PIPE_FULL => -3,
            DltReturnValue::DLT_RETURN_PIPE_ERROR => -2,
            DltReturnValue::DLT_RETURN_ERROR => -1,
            DltReturnValue::DLT_RETURN_OK => 0,
            DltReturnValue::DLT_RETURN_TRUE => 1,
        }
    }
}

impl vstd::std_specs::convert::FromSpecImpl<DltReturnValue> for c_int {
    open spec fn obeys_from_spec() -> bool {
        true
    }

    open spec fn from_spec(return_value: DltReturnValue) -> c_int {
        return_value.code() as c_int
    }
}

/// Severity of a log message, from `DLT_LOG_FATAL` (most severe) to `DLT_LOG_VERBOSE`.
#[derive(Clone, Copy, Debug, PartialEq, Eq, Structural)]
pub enum DltLogLevelType {
    /// Default log level
    DLT_LOG_DEFAULT,
    /// Log level off
    DLT_LOG_OFF,
    /// Fatal system error
    DLT_LOG_FATAL,
    /// Error with impact to correct functionality
    DLT_LOG_ERROR,
    /// Warning, correct behaviour could not be ensured
    DLT_LOG_WARN,
    /// Informational
    DLT_LOG_INFO,
    /// Debug
    DLT_LOG_DEBUG,
    /// Highest grade of information
    DLT_LOG_VERBOSE,
    /// Maximum value, used for range checking
    DLT_LOG_MAX,
}

impl DltLogLevelType {
    /// The number that stands for the variant in messages and towards foreign callers.
    pub open spec fn code(self) -> int {
        match self {
            DltLogLevelType::DLT_LOG_DEFAULT => -1,
            DltLogLevelType::DLT_LOG_OFF => 0,
            DltLogLevelType::DLT_LOG_FATAL => 1,
            DltLogLevelType::DLT_LOG_ERROR => 2,
            DltLogLevelType::DLT_LOG_WARN => 3,
            DltLogLevelType::DLT_LOG_INFO => 4,
            DltLogLevelType::DLT_LOG_DEBUG => 5,
            DltLogLevelType::DLT_LOG_VERBOSE => 6,
            DltLogLevelType::DLT_LOG_MAX => 7,
        }
    }
}

impl From<DltLogLevelType> for c_int {
    fn from(log_level: DltLogLevelType) -> (code: c_int)
        ensures
            code == log_level.code(),
    {
        match log_level {
            DltLogLevelType::DLT_LOG_DEFAULT => -1,
            DltLogLevelType::DLT_LOG_OFF => 0,
            DltLogLevelType::DLT_LOG_FATAL => 1,
            DltLogLevelType::DLT_LOG_ERROR => 2,
            DltLogLevelType::DLT_LOG_WARN => 3,
            DltLogLevelType::DLT_LOG_INFO => 4,
            DltLogLevelType::DLT_LOG_DEBUG => 5,
            DltLogLevelType::DLT_LOG_VERBOSE => 6,
            DltLogLevelType::DLT_LOG_MAX => 7,
        }
    }
}

impl vstd::std_specs::convert::FromSpecImpl<DltLogLevelType> for c_int {
    open spec fn obeys_from_spec() -> bool {
        true
    }

    open spec fn from_spec(log_level: DltLogLevelType) -> c_int {
        log_level.code() as c_int
    }
}

/// Presentation hint attached to an unsigned or raw argument.
#[derive(Clone, Copy, Debug, PartialEq, Eq, Structural)]
pub enum DltFormatType {
    /// No special format
    DLT_FORMAT_DEFAULT,
    /// Hex 8
    DLT_FORMAT_HEX8,
    /// Hex 16
    DLT_FORMAT_HEX16,
    /// Hex 32
    DLT_FORMAT_HEX32,
    /// Hex 64
    DLT_FORMAT_HEX64,
    /// Binary 8
    DLT_FORMAT_BIN8,
    /// Binary 16
    DLT_FORMAT_BIN16,
    /// Maximum value, used for range checking
    DLT_FORMAT_MAX,
}

impl DltFormatType {
    /// The number that stands for the variant in messages and towards foreign callers.
    pub open spec fn code(self) -> int {
        match self {
            DltFormatType::DLT_FORMAT_DEFAULT => 0,
            DltFormatType::DLT_FORMAT_HEX8 => 1,
            DltFormatType::DLT_FORMAT_HEX16 => 2,
            DltFormatType::DLT_FORMAT_HEX32 => 3,
            DltFormatType::DLT_FORMAT_HEX64 => 4,
            DltFormatType::DLT_FORMAT_BIN8 => 5,
            DltFormatType::DLT_FORMAT_BIN16 => 6,
            DltFormatType::DLT_FORMAT_MAX => 7,
        }
    }
}

impl From<DltFormatType> for c_int {
    fn from(format: DltFormatType) -> (code: c_int)
        ensures
            code == format.code(),
    {
        match format {
            DltFormatType::DLT_FORMAT_DEFAULT => 0,
            DltFormatType::DLT_FORMAT_HEX8 => 1,
            DltFormatType::DLT_FORMAT_HEX16 => 2,
            DltFormatType::DLT_FORMAT_HEX32 => 3,
            DltFormatType::DLT_FORMAT_HEX64 => 4,
            DltFormatType::DLT_FORMAT_BIN8 => 5,
            DltFormatType::DLT_FORMAT_BIN16 => 6,
            DltFormatType::DLT_FORMAT_MAX => 7,
        }
    }
}

impl vstd::std_specs::convert::FromSpecImpl<DltFormatType> for c_int {
    open spec fn obeys_from_spec() -> bool {
        true
    }

    open spec fn from_spec(format: DltFormatType) -> c_int {
        format.code() as c_int
    }
}

/// Whether tracing is enabled for a context.
#[derive(Clone, Copy, Debug, PartialEq, Eq, Structural)]
pub enum DltTraceStatusType {
    /// Default trace status
    DLT_TRACE_STATUS_DEFAULT,
    /// Trace status: Off
    DLT_TRACE_STATUS_OFF,
    /// Trace status: On
    DLT_TRACE_STATUS_ON,
    /// Maximum value, used for range checking
    DLT_TRACE_STATUS_MAX,
}

impl DltTraceStatusType {
    /// The number that stands for the variant in messages and towards foreign callers.
    pub open spec fn code(self) -> int {
        match self {
            DltTraceStatusType::DLT_TRACE_STATUS_DEFAULT => -1,
            DltTraceStatusType::DLT_TRACE_STATUS_OFF => 0,
            DltTraceStatusType::DLT_TRACE_STATUS_ON => 1,
            DltTraceStatusType::DLT_TRACE_STATUS_MAX => 2,
        }
    }
}

impl From<DltTraceStatusType> for c_int {
    fn from(trace_status: DltTraceStatusType) -> (code: c_int)
        ensures
            code == trace_status.code(),
    {
        match trace_status {
            DltTraceStatusType::DLT_TRACE_STATUS_DEFAULT => -1,
            DltTraceStatusType::DLT_TRACE_STATUS_OFF => 0,
            DltTraceStatusType::DLT_TRACE_STATUS_ON => 1,
            DltTraceStatusType::DLT_TRACE_STATUS_MAX => 2,
        }
    }
}

impl vstd::std_specs::convert::FromSpecImpl<DltTraceStatusType> for c_int {
    open spec fn obeys_from_spec() -> bool {
        true
    }

    open spec fn from_spec(trace_status: DltTraceStatusType) -> c_int {
        trace_status.code() as c_int
    }
}

/// Kind of bus a network trace message was captured on.
#[derive(Clone, Copy, Debug, PartialEq, Eq, Structural)]
pub enum DltNetworkTraceType {
    /// Interprocess communication
    DLT_NW_TRACE_IPC,
    /// Controller Area Network Bus
    DLT_NW_TRACE_CAN,
    /// Flexray Bus
    DLT_NW_TRACE_FLEXRAY,
    /// Media Oriented System Transport Bus
    DLT_NW_TRACE_MOST,
    DLT_NW_TRACE_RESERVED0,
    DLT_NW_TRACE_RESERVED1,
    DLT_NW_TRACE_RESERVED2,
    DLT_NW_TRACE_USER_DEFINED0,
    DLT_NW_TRACE_USER_DEFINED1,
    DLT_NW_TRACE_USER_DEFINED2,
    DLT_NW_TRACE_USER_DEFINED3,
    DLT_NW_TRACE_USER_DEFINED4,
    DLT_NW_TRACE_USER_DEFINED5,
    DLT_NW_TRACE_USER_DEFINED6,
    DLT_NW_TRACE_USER_DEFINED7,
    /// Maximum value, used for range checking
    DLT_NW_TRACE_MAX,
}

impl DltNetworkTraceType {
    /// The number that stands for the variant in messages and towards foreign callers.
    pub open spec fn code(self) -> int {
        match self {
            DltNetworkTraceType::DLT_NW_TRACE_IPC => 1,
            DltNetworkTraceType::DLT_NW_TRACE_CAN => 2,
            DltNetworkTraceType::DLT_NW_TRACE_FLEXRAY => 3,
            DltNetworkTraceType::DLT_NW_TRACE_MOST => 4,
            DltNetworkTraceType::DLT_NW_TRACE_RESERVED0 => 5,
            DltNetworkTraceType::DLT_NW_TRACE_RESERVED1 => 6,
            DltNetworkTraceType::DLT_NW_TRACE_RESERVED2 => 7,
            DltNetworkTraceType::DLT_NW_TRACE_USER_DEFINED0 => 8,
            DltNetworkTraceType::DLT_NW_TRACE_USER_DEFINED1 => 9,
            DltNetworkTraceType::DLT_NW_TRACE_USER_DEFINED2 => 10,
            DltNetworkTraceType::DLT_NW_TRACE_USER_DEFINED3 => 11,
            DltNetworkTraceType::DLT_NW_TRACE_USER_DEFINED4 => 12,
            DltNetworkTraceType::DLT_NW_TRACE_USER_DEFINED5 => 13,
            DltNetworkTraceType::DLT_NW_TRACE_USER_DEFINED6 => 14,
            DltNetworkTraceType::DLT_NW_TRACE_USER_DEFINED7 => 15,
            DltNetworkTraceType::DLT_NW_TRACE_MAX => 16,
        }
    }
}

impl From<DltNetworkTraceType> for c_int {
    fn from(network_trace_type: DltNetworkTraceType) -> (code: c_int)
        ensures
            code == network_trace_type.code(),
    {
        match network_trace_type {
            DltNetworkTraceType::DLT_NW_TRACE_IPC => 1,
            DltNetworkTraceType::DLT_NW_TRACE_CAN => 2,
            DltNetworkTraceType::DLT_NW_TRACE_FLEXRAY => 3,
            DltNetworkTraceType::DLT_NW_TRACE_MOST => 4,
            DltNetworkTraceType::DLT_NW_TRACE_RESERVED0 => 5,
            DltNetworkTraceType::DLT_NW_TRACE_RESERVED1 => 6,
            DltNetworkTraceType::DLT_NW_TRACE_RESERVED2 => 7,
            DltNetworkTraceType::DLT_NW_TRACE_USER_DEFINED0 => 8,
            DltNetworkTraceType::DLT_NW_TRACE_USER_DEFINED1 => 9,
            DltNetworkTraceType::DLT_NW_TRACE_USER_DEFINED2 => 10,
            DltNetworkTraceType::DLT_NW_TRACE_USER_DEFINED3 => 11,
            DltNetworkTraceType::DLT_NW_TRACE_USER_DEFINED4 => 12,
            DltNetworkTraceType::DLT_NW_TRACE_USER_DEFINED5 => 13,
            DltNetworkTraceType::DLT_NW_TRACE_USER_DEFINED6 => 14,
            DltNetworkTraceType::DLT_NW_TRACE_USER_DEFINED7 => 15,
            DltNetworkTraceType::DLT_NW_TRACE_MAX => 16,
        }
    }
}

impl vstd::std_specs::convert::FromSpecImpl<DltNetworkTraceType> for c_int {
    open spec fn obeys_from_spec() -> bool {
        true
    }

    open spec fn from_spec(network_trace_type: DltNetworkTraceType) -> c_int {
        network_trace_type.code() as c_int
    }
}

/// Where a client sends its log messages.
#[derive(Clone, Copy, Debug, PartialEq, Eq, Structural)]
pub enum DltUserLogMode {
    DLT_USER_MODE_UNDEFINED,
    DLT_USER_MODE_OFF,
    DLT_USER_MODE_EXTERNAL,
    DLT_USER_MODE_INTERNAL,
    DLT_USER_MODE_BOTH,
    /// Maximum value, used for range checking
    DLT_USER_MODE_MAX,
}

impl DltUserLogMode {
    /// The number that stands for the variant in messages and towards foreign callers.
    pub open spec fn code(self) -> int {
        match self {
            DltUserLogMode::DLT_USER_MODE_UNDEFINED => -1,
            DltUserLogMode::DLT_USER_MODE_OFF => 0,
            DltUserLogMode::DLT_USER_MODE_EXTERNAL => 1,
            DltUserLogMode::DLT_USER_MODE_INTERNAL => 2,
            DltUserLogMode::DLT_USER_MODE_BOTH => 3,
            DltUserLogMode::DLT_USER_MODE_MAX => 4,
        }
    }
}

impl From<DltUserLogMode> for c_int {
    fn from(log_mode: DltUserLogMode) -> (code: c_int)
        ensures
            code == log_mode.code(),
    {
        match log_mode {
            DltUserLogMode::DLT_USER_MODE_UNDEFINED => -1,
            DltUserLogMode::DLT_USER_MODE_OFF => 0,
            DltUserLogMode::DLT_USER_MODE_EXTERNAL => 1,
            DltUserLogMode::DLT_USER_MODE_INTERNAL => 2,
            DltUserLogMode::DLT_USER_MODE_BOTH => 3,
            DltUserLogMode::DLT_USER_MODE_MAX => 4,
        }
    }
}

impl vstd::std_specs::convert::FromSpecImpl<DltUserLogMode> for c_int {
    open spec fn obeys_from_spec() -> bool {
        true
    }

    open spec fn from_spec(log_mode: DltUserLogMode) -> c_int {
        log_mode.code() as c_int
    }
}

} // verus!
